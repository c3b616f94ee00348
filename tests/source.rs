use allium::atom::{Atom, AtomKind};
use allium::error::AlliumError;
use allium::source::SourceFile;
use allium::token::Munched;

fn source(id: u64, text: &str) -> SourceFile {
    SourceFile::new(id, format!("file{id}.alm"), text.chars().collect())
}

fn text_of(atom: &Atom) -> String {
    atom.span().chars().into_iter().collect()
}

#[test]
fn span_to_self_has_length_one() {
    let file = source(1, "abc");
    for i in 0..3 {
        let c = file.cursor(i).unwrap();
        let span = c.span_to(&c).unwrap();
        assert_eq!(span.len(), 1);
        assert_eq!(span.start().pos(), i);
        assert_eq!(span.end().pos(), i);
    }
}

#[test]
fn span_to_rectifies_order() {
    let file = source(1, "abcdef");
    let a = file.cursor(4).unwrap();
    let b = file.cursor(1).unwrap();
    let span = a.span_to(&b).unwrap();
    assert_eq!((span.start().pos(), span.end().pos()), (1, 4));
    assert_eq!(span.chars(), vec!['b', 'c', 'd', 'e']);
}

#[test]
fn shrinking_by_full_length_is_rejected() {
    let file = source(1, "abcdef");
    let span = file.span(1, 3).unwrap();
    assert!(matches!(span.shrink_left(span.len()), Err(AlliumError::ZeroLengthSpan)));
    assert!(matches!(span.shrink_right(span.len()), Err(AlliumError::ZeroLengthSpan)));
    assert!(matches!(span.shrink_left(4), Err(AlliumError::NegativeLengthSpan)));
    let s = span.shrink_left(2).unwrap();
    assert_eq!((s.start().pos(), s.end().pos()), (3, 3));
    let s = span.shrink_right(1).unwrap();
    assert_eq!((s.start().pos(), s.end().pos()), (1, 2));
}

#[test]
fn shifting_and_growing() {
    let file = source(1, "abcdef");
    let span = file.span(1, 2).unwrap();
    let s = span.shift_right(3).unwrap();
    assert_eq!((s.start().pos(), s.end().pos()), (4, 5));
    assert!(matches!(span.shift_right(4), Err(AlliumError::InvalidPosition(6, _, 6))));
    let s = span.shift_left(1).unwrap();
    assert_eq!((s.start().pos(), s.end().pos()), (0, 1));
    assert!(matches!(span.shift_left(2), Err(AlliumError::SeekOverflow)));
    let s = span.grow_left(1).unwrap();
    assert_eq!((s.start().pos(), s.end().pos()), (0, 2));
    let s = span.grow_right(3).unwrap();
    assert_eq!((s.start().pos(), s.end().pos()), (1, 5));
    assert!(matches!(span.grow_right(4), Err(AlliumError::InvalidPosition(6, _, 6))));
}

#[test]
fn merging_spans() {
    let file = source(1, "abcdefgh");
    let a = file.span(0, 2).unwrap();
    let b = file.span(3, 5).unwrap();
    let c = file.span(1, 1).unwrap();
    let d = file.span(7, 7).unwrap();
    let m = a.merge(&b).unwrap();
    assert_eq!((m.start().pos(), m.end().pos()), (0, 5));
    let m = b.merge(&a).unwrap();
    assert_eq!((m.start().pos(), m.end().pos()), (0, 5));
    let m = a.merge(&c).unwrap();
    assert_eq!((m.start().pos(), m.end().pos()), (0, 2));
    assert!(matches!(a.merge(&d), Err(AlliumError::DiscontinuousSpans)));
}

#[test]
fn cursors_of_different_sources_do_not_span() {
    let one = source(1, "abc");
    let two = source(2, "abc");
    let a = one.cursor(0).unwrap();
    let b = two.cursor(0).unwrap();
    match a.span_to(&b) {
        Err(AlliumError::SpanMismatch(p, q)) => {
            assert_eq!(p, "file1.alm");
            assert_eq!(q, "file2.alm");
        }
        _ => panic!("spans across sources must fail"),
    }
    assert!(a.partial_cmp(&b).is_none());
    assert!(!(a < b) && !(a > b) && a != b);
    let c = one.cursor(2).unwrap();
    assert!(a < c);
}

#[test]
fn sources_with_one_id_but_other_text_do_not_mix() {
    let one = source(1, "abc");
    let two = SourceFile::new(1, "file1.alm".to_string(), "xyz".chars().collect());
    let a = one.cursor(0).unwrap();
    let b = two.cursor(2).unwrap();
    assert!(matches!(a.span_to(&b), Err(AlliumError::SpanMismatch(_, _))));
    assert!(a.partial_cmp(&b).is_none());
    assert!(matches!(a.as_span().merge(&b.as_span()), Err(AlliumError::SpanMismatch(_, _))));
}

#[test]
fn block_end_nests() {
    let file = source(1, "/* /* */ */");
    let open = file.span(0, 1).unwrap();
    let block = open.grow_until_block_end("/*", "*/", true).unwrap();
    assert_eq!((block.start().pos(), block.end().pos()), (0, 10));
    assert_eq!(block.len(), 11);
}

#[test]
fn block_end_rejects_bad_patterns() {
    let file = source(1, "/* x */ y");
    let open = file.span(0, 1).unwrap();
    assert!(matches!(open.grow_until_block_end("", "*/", true), Err(AlliumError::ZeroLengthMatch)));
    assert!(matches!(open.grow_until_block_end("/*", "*", true), Err(AlliumError::BlockPatternLengthMismatch)));
    assert!(matches!(open.grow_until_block_end("/*", "/*", true), Err(AlliumError::BlockPatternEquivalency)));
    let other = file.span(1, 2).unwrap();
    assert!(matches!(other.grow_until_block_end("/*", "*/", true), Err(AlliumError::BadBlockMatch)));
    let unbalanced = source(2, "/* /* */");
    let open = unbalanced.span(0, 1).unwrap();
    assert!(matches!(open.grow_until_block_end("/*", "*/", true), Err(AlliumError::Eof)));
    let escaped = source(3, "/* \\*/ */");
    let open = escaped.span(0, 1).unwrap();
    let block = open.grow_until_block_end("/*", "*/", true).unwrap();
    assert_eq!(block.end().pos(), 8);
}

#[test]
fn line_comment_at_end_of_file() {
    let file = source(1, "// end of file");
    let start = file.start().unwrap().as_span();
    let span = start.grow_until("\n", false, true).unwrap();
    assert_eq!((span.start().pos(), span.end().pos()), (0, 13));
    assert!(matches!(start.grow_until("\n", false, false), Err(AlliumError::Eof)));
    assert!(matches!(start.grow_until("", false, true), Err(AlliumError::ZeroLengthMatch)));
}

#[test]
fn grow_until_honours_one_escape() {
    let file = source(1, "a\\\"b\"c");
    let span = file.start().unwrap().as_span().grow_until("\"", true, false).unwrap();
    assert_eq!(span.end().pos(), 4);
    let span = file.start().unwrap().as_span().grow_until("\"", false, false).unwrap();
    assert_eq!(span.end().pos(), 2);
}

#[test]
fn lines_are_indexed() {
    let file = source(1, "ab\ncd\n\nef");
    assert_eq!(file.search_ln(0).unwrap(), 0);
    assert_eq!(file.search_ln(2).unwrap(), 0);
    assert_eq!(file.search_ln(3).unwrap(), 1);
    assert_eq!(file.search_ln(6).unwrap(), 2);
    assert_eq!(file.search_ln(8).unwrap(), 3);
    assert!(matches!(file.search_ln(9), Err(AlliumError::InvalidPosition(9, _, 9))));
    assert_eq!(file.cursor(4).unwrap().line_of().unwrap(), 1);
    let line = file.line(1).unwrap();
    assert_eq!(line.chars(), vec!['c', 'd', '\n']);
    let line = file.line(3).unwrap();
    assert_eq!(line.chars(), vec!['e', 'f']);
    assert!(matches!(file.line(4), Err(AlliumError::Eof)));
}

#[test]
fn scanning_classifies_atoms() {
    let file = source(1, "  foo123 // hi\n");
    let mut atoms = Vec::new();
    let mut m = Atom::parse(&file.start().unwrap()).unwrap();
    loop {
        match m {
            Munched::Matched(atom, next) => {
                atoms.push((atom.kind(), text_of(&atom)));
                match next {
                    Some(c) => m = Atom::parse(&c).unwrap(),
                    None => break,
                }
            }
            _ => panic!("unexpected scan result"),
        }
    }
    assert_eq!(
        atoms,
        vec![
            (AtomKind::Whitespace, "  ".to_string()),
            (AtomKind::Ident, "foo123".to_string()),
            (AtomKind::Whitespace, " ".to_string()),
            (AtomKind::Comment, "// hi\n".to_string()),
        ]
    );
}

#[test]
fn scanning_reports_malformed_and_unknown_input() {
    let file = source(1, "/* open");
    assert!(matches!(Atom::parse(&file.start().unwrap()), Ok(Munched::Malformed(_))));
    let file = source(2, "r#");
    assert!(matches!(Atom::parse(&file.start().unwrap()), Ok(Munched::Malformed(_))));
    let file = source(3, "#");
    assert!(matches!(Atom::parse(&file.start().unwrap()), Err(AlliumError::NoAtom)));
    let file = source(4, "\"a\\\"b\" 12_u8 'x' {");
    let mut kinds = Vec::new();
    let mut m = Atom::parse(&file.start().unwrap()).unwrap();
    while let Munched::Matched(atom, next) = m {
        kinds.push((atom.kind(), text_of(&atom)));
        match atom.next().unwrap() {
            Some(n) => m = n,
            None => {
                assert!(next.is_none());
                break;
            }
        }
    }
    assert_eq!(
        kinds,
        vec![
            (AtomKind::String, "\"a\\\"b\"".to_string()),
            (AtomKind::Whitespace, " ".to_string()),
            (AtomKind::Numeric, "12_u8".to_string()),
            (AtomKind::Whitespace, " ".to_string()),
            (AtomKind::Char, "'x'".to_string()),
            (AtomKind::Whitespace, " ".to_string()),
            (AtomKind::Punct, "{".to_string()),
        ]
    );
}

#[test]
fn raw_identifiers_and_unicode() {
    let file = source(1, "r#match ünï");
    let m = Atom::parse(&file.start().unwrap()).unwrap();
    match m {
        Munched::Matched(atom, _) => {
            assert_eq!(atom.kind(), AtomKind::Ident);
            assert_eq!(text_of(&atom), "r#match");
        }
        _ => panic!("expected an identifier"),
    }
    let c = file.cursor(8).unwrap();
    match Atom::parse(&c).unwrap() {
        Munched::Matched(atom, next) => {
            assert_eq!(text_of(&atom), "ünï");
            assert!(next.is_none());
        }
        _ => panic!("expected an identifier"),
    }
}
