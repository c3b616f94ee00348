use allium::atom::{parse_comment, parse_punct, parse_whitespace, Atom, AtomKind};
use allium::cached_read_file::CHUNK_SIZE;
use allium::diagnostic::ErrorCursor;
use allium::error::AlliumError;
use allium::file::File;
use allium::log::{LogLevel, Logger};
use allium::memory_file::{seek_target, Seek};
use allium::source::SourceFile;
use allium::token::{Identifier, MunchIdentifier, MunchWhitespace, Munched, Tok, Whitespace};
use allium::unicode::{decode_at, UTF8Byte};

fn stream(bytes: &[u8]) -> File {
    let mut file = File::new(5);
    for chunk in bytes.chunks(CHUNK_SIZE) {
        file.absorb(chunk);
    }
    file.absorb(&[]);
    file
}

fn first_atom(file: &SourceFile) -> (AtomKind, String) {
    match Atom::parse(&file.start().unwrap()).unwrap() {
        Munched::Matched(atom, _) => (atom.kind(), atom.span().chars().into_iter().collect()),
        _ => panic!("no atom"),
    }
}

#[test]
fn bom_does_not_change_the_first_atom() {
    let plain = SourceFile::load(1, "a".to_string(), &stream("fn main".as_bytes())).unwrap();
    let marked = SourceFile::load(2, "b".to_string(), &stream("\u{FEFF}fn main".as_bytes())).unwrap();
    assert_eq!(plain.len(), 7);
    assert_eq!(marked.len(), 7);
    assert_eq!(first_atom(&plain), first_atom(&marked));
    assert_eq!(first_atom(&plain), (AtomKind::Ident, "fn".to_string()));
}

#[test]
fn loading_needs_an_exhausted_stream() {
    let mut file = File::new(1);
    file.absorb(b"abc");
    assert!(matches!(SourceFile::load(1, "x".to_string(), &file), Err(AlliumError::Pending(3))));
    file.absorb(&[]);
    assert_eq!(SourceFile::load(1, "x".to_string(), &file).unwrap().len(), 3);
    let bad = stream(&[0x61, 0xFF]);
    assert!(matches!(SourceFile::load(1, "x".to_string(), &bad), Err(AlliumError::InvalidStartByte(1))));
}

#[test]
fn decoding_re_encodes_to_the_same_bytes() {
    let text = "a\u{7F}\u{80}ß\u{7FF}\u{800}€\u{FFFF}\u{10000}𝄞\u{10FFFF}";
    let bytes = text.as_bytes().to_vec();
    let mut i = 0;
    let mut out = String::new();
    while i < bytes.len() {
        let (n, c) = decode_at(&bytes, i, true).unwrap();
        out.push(c);
        i += n;
    }
    assert_eq!(out.as_bytes(), text.as_bytes());
}

#[test]
fn bytes_classify_and_back() {
    for b in 0..=255u8 {
        let class = UTF8Byte::from(b);
        assert_eq!(u8::from(class), b);
    }
    assert_eq!(UTF8Byte::from(0xE2), UTF8Byte::ThreeByte(0x02));
    assert_eq!(UTF8Byte::from(0xAC), UTF8Byte::Continuation(0x2C));
    assert_eq!(UTF8Byte::from(0xF8), UTF8Byte::Invalid(0xF8));
}

#[test]
fn diagnostics_show_the_line() {
    let file = SourceFile::new(1, "main.alm".to_string(), "let a\nlet bc = 1;\n".chars().collect());
    let c = file.cursor(10).unwrap();
    let d = ErrorCursor::new(&c, None, Some("here".to_string())).unwrap();
    assert_eq!(d.path(), "main.alm");
    assert_eq!(d.line_num(), 2);
    assert_eq!(d.line_pos(), 4);
    assert_eq!(d.virt_pos(), 4);
    assert_eq!(d.line().into_iter().collect::<String>(), "let bc = 1;\n");
    assert_eq!(d.post(), Some("here".to_string()));
}

#[test]
fn diagnostics_window_long_lines() {
    let line: String = (0..200).map(|i| char::from(b'a' + (i % 26) as u8)).collect();
    let file = SourceFile::new(1, "long.alm".to_string(), line.chars().collect());
    let d = ErrorCursor::new(&file.cursor(10).unwrap(), None, None).unwrap();
    assert_eq!(d.line().len(), 80);
    assert_eq!(d.virt_pos(), 10);
    let d = ErrorCursor::new(&file.cursor(100).unwrap(), None, None).unwrap();
    assert_eq!(d.line().len(), 80);
    assert_eq!(d.virt_pos(), 40);
    assert_eq!(d.line()[40], line.chars().nth(100).unwrap());
    let d = ErrorCursor::new(&file.cursor(195).unwrap(), None, None).unwrap();
    assert_eq!(d.line().len(), 80);
    assert_eq!(d.virt_pos(), 75);
    let d = ErrorCursor::with_width(&file.cursor(195).unwrap(), None, None, 10).unwrap();
    assert_eq!(d.line().into_iter().collect::<String>(), line[190..200]);
}

#[test]
fn logger_renders_lines() {
    let plain = Logger::new(false, LogLevel::Info);
    assert_eq!(plain.debug("x"), None);
    assert_eq!(plain.info("ready"), Some("[INF] ready".to_string()));
    assert_eq!(plain.fatal("stop"), Some("[FTL] stop".to_string()));
    let colour = Logger::new(true, LogLevel::Debug);
    assert_eq!(colour.warn("w"), Some("\x1b[38;5;3m[WRN] w".to_string()));
    assert_eq!(colour.verbose("v"), Some("\x1b[38;5;8m[VRB] v".to_string()));
    assert_eq!(colour.error("e"), Some("\x1b[38;5;1m[ERR] e".to_string()));
    assert!(LogLevel::Error.to_error_stream());
    assert!(!LogLevel::Info.to_error_stream());
    assert_eq!(LogLevel::Debug.as_pre(), "[DBG] ");
    assert_eq!(LogLevel::Info.as_ansi(), "\x1b[39m");
}

#[test]
fn munchers_produce_token_text() {
    let file = SourceFile::new(1, "t".to_string(), " \t// c\n/* a /* b */ */r#loop x9".chars().collect());
    let ws = MunchWhitespace::new();
    let id = MunchIdentifier::new();
    let mut c = file.start().unwrap();
    let mut toks = Vec::new();
    loop {
        let m = match ws.munch(&c) {
            Munched::NoMatch => id.munch(&c),
            m => m,
        };
        match m {
            Munched::Matched(tok, next) => {
                toks.push(tok);
                match next {
                    Some(n) => c = n,
                    None => break,
                }
            }
            _ => panic!("unexpected"),
        }
    }
    assert_eq!(
        toks,
        vec![
            Tok::Whitespace(Whitespace::Standard(" \t".to_string())),
            Tok::Whitespace(Whitespace::LineComment("// c\n".to_string())),
            Tok::Whitespace(Whitespace::BlockComment("/* a /* b */ */".to_string())),
            Tok::Identifier(Identifier::Raw("loop".to_string())),
            Tok::Whitespace(Whitespace::Standard(" ".to_string())),
            Tok::Identifier(Identifier::Standard("x9".to_string())),
        ]
    );
}

#[test]
fn recognizers_decline_what_is_not_theirs() {
    let file = SourceFile::new(1, "t".to_string(), "a/".chars().collect());
    let a = file.start().unwrap();
    assert!(matches!(parse_whitespace(&a), Munched::NoMatch));
    assert!(matches!(parse_comment(&a), Munched::NoMatch));
    assert!(matches!(parse_punct(&a), Munched::NoMatch));
    let slash = a.next().unwrap();
    assert!(matches!(parse_comment(&slash), Munched::NoMatch));
    assert!(matches!(parse_punct(&slash), Munched::Matched(_, None)));
    let file = SourceFile::new(2, "t".to_string(), "/* never".chars().collect());
    assert!(matches!(MunchWhitespace::new().munch(&file.start().unwrap()), Munched::Malformed(_)));
}

#[test]
fn whitespace_follows_the_unicode_property() {
    let file = SourceFile::new(1, "w".to_string(), "\u{3000}\u{2028}\u{85}x\u{200B}".chars().collect());
    match Atom::parse(&file.start().unwrap()).unwrap() {
        Munched::Matched(atom, next) => {
            assert_eq!(atom.kind(), AtomKind::Whitespace);
            assert_eq!(atom.span().len(), 3);
            assert_eq!(next.unwrap().pos(), 3);
        }
        _ => panic!("expected whitespace"),
    }
    let zw = file.cursor(4).unwrap();
    assert!(matches!(parse_whitespace(&zw), Munched::NoMatch));
}

#[test]
fn text_of_a_stream_is_its_scalars() {
    let text = "a€\n𝄞 z";
    let file = stream(text.as_bytes());
    let chars = file.text().unwrap();
    assert_eq!(chars.iter().collect::<String>(), text);
    let lines = SourceFile::new(1, "l".to_string(), "a\nb\n".chars().collect());
    let got: Vec<usize> = (0..4).map(|i| lines.cursor(i).unwrap().line_of().unwrap()).collect();
    assert_eq!(got, vec![0, 0, 1, 1]);
}

#[test]
fn seek_targets() {
    assert_eq!(seek_target(5, Seek::Left(2)).unwrap(), Some(3));
    assert_eq!(seek_target(1, Seek::Left(2)).unwrap(), None);
    assert_eq!(seek_target(5, Seek::Right(2)).unwrap(), Some(7));
    assert!(matches!(seek_target(usize::MAX, Seek::Right(1)), Err(AlliumError::SeekOverflow)));
}

#[test]
fn empty_lines_end_at_their_own_line_feed() {
    let file = SourceFile::new(1, "e".to_string(), "\n\nab".chars().collect());
    let l0 = file.line(0).unwrap();
    assert_eq!((l0.start().pos(), l0.end().pos()), (0, 0));
    let l1 = file.line(1).unwrap();
    assert_eq!((l1.start().pos(), l1.end().pos()), (1, 1));
    let l2 = file.line(2).unwrap();
    assert_eq!(l2.chars(), vec!['a', 'b']);
    let d = ErrorCursor::new(&file.cursor(0).unwrap(), None, None).unwrap();
    assert_eq!(d.line(), vec!['\n']);
    assert_eq!(d.line_num(), 1);
}

#[test]
fn unterminated_block_comment_message() {
    let file = SourceFile::new(1, "c".to_string(), "/* /* */".chars().collect());
    match MunchWhitespace::new().munch(&file.start().unwrap()) {
        Munched::Malformed(m) => assert_eq!(m, "Failed to parse block comment: Unexpected <eof>"),
        _ => panic!("expected a malformed comment"),
    }
    let file = SourceFile::new(2, "c".to_string(), "/* /* */ */x".chars().collect());
    match MunchWhitespace::new().munch(&file.start().unwrap()) {
        Munched::Matched(Tok::Whitespace(Whitespace::BlockComment(s)), Some(n)) => {
            assert_eq!(s, "/* /* */ */");
            assert_eq!(n.to_char(), 'x');
        }
        _ => panic!("expected a block comment"),
    }
}

#[test]
fn whitespace_matches_std_for_every_scalar() {
    for c in ('\0'..=char::MAX).step_by(1) {
        assert_eq!(allium::atom::white(c), c.is_whitespace(), "{c:?}");
    }
}
