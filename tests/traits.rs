use allium::memory_file::{Cursor, MemoryFile};
use allium::source::SourceFile;
use allium::token::{Identifier, Munch, MunchIdentifier, MunchWhitespace, Munched, Tok, Whitespace};

fn first_token(m: &dyn Fn() -> Munched<Tok, allium::source::SourceCursor<'static>>) -> Option<Tok> {
    match m() {
        Munched::Matched(t, _) => Some(t),
        _ => None,
    }
}

#[test]
fn lookahead_matches_patterns() {
    let file = SourceFile::new(1, "t".to_string(), "r#abc".chars().collect());
    let c = file.start().unwrap();
    let (hit, after) = c.lookahead_match("r#");
    assert!(hit);
    assert_eq!(after.unwrap().pos(), 2);
    let (hit, after) = c.lookahead_match("r#abc");
    assert!(hit && after.is_none());
    let (hit, after) = c.lookahead_match("r#abcd");
    assert!(!hit && after.is_none());
    let (hit, after) = c.lookahead_match("x");
    assert!(!hit && after.is_none());
    let (hit, after) = c.lookahead_match("");
    assert!(hit);
    assert_eq!(after.unwrap().pos(), 0);
}

#[test]
fn munch_trait_dispatches() {
    let file: &'static SourceFile =
        Box::leak(Box::new(SourceFile::new(1, "t".to_string(), "  abc".chars().collect())));
    let recognizers: Vec<Box<dyn Munch>> = vec![Box::new(MunchWhitespace::new()), Box::new(MunchIdentifier::new())];
    let start = file.start().unwrap();
    let ident_at = file.cursor(2).unwrap();
    let ws = first_token(&|| recognizers[0].munch(&start));
    assert_eq!(ws, Some(Tok::Whitespace(Whitespace::Standard("  ".to_string()))));
    let id = first_token(&|| recognizers[1].munch(&ident_at));
    assert_eq!(id, Some(Tok::Identifier(Identifier::Standard("abc".to_string()))));
    assert!(matches!(recognizers[1].munch(&start), Munched::NoMatch));
}

#[test]
fn cursor_trait_walks_memory() {
    fn walk<C: Cursor<Item = u32>>(mut c: C) -> Vec<u32> {
        let mut out = vec![c.data().unwrap()];
        while let Some(n) = c.next().unwrap() {
            out.push(n.data().unwrap());
            c = n;
        }
        out
    }
    let v = [3u32, 1, 4, 1, 5];
    let f = MemoryFile::new(v.as_slice());
    assert_eq!(walk(f.head().unwrap().unwrap()), vec![3, 1, 4, 1, 5]);
}

fn walk_all<'a, F, C>(file: &'a F) -> Vec<C::Item>
where
    F: allium::stream::File<'a, Cursor = C>,
    C: allium::stream::Cursor<'a>,
{
    let mut out = Vec::new();
    let mut head = file.start().unwrap();
    while let Some(c) = head {
        out.push(c.data().unwrap());
        head = c.next().unwrap();
    }
    out
}

#[test]
fn stream_traits_walk_bytes_and_scalars() {
    let mut bytes = allium::cached_read_file::CachedReadFile::new(4);
    bytes.absorb("añ".as_bytes());
    bytes.absorb(&[]);
    assert_eq!(walk_all(&bytes), vec![0x61, 0xC3, 0xB1]);
    let head = allium::stream::File::start(&bytes).unwrap().unwrap();
    let span = allium::stream::Cursor::span_to(&head, &head).unwrap();
    assert_eq!(allium::stream::Span::len(&span).unwrap(), 1);
    let mut bytes2 = allium::cached_read_file::CachedReadFile::new(4);
    bytes2.absorb("añ".as_bytes());
    bytes2.absorb(&[]);
    let utf8 = allium::utf8_file::UTF8File::from(bytes2);
    assert_eq!(walk_all(&utf8), vec!['a', 'ñ']);
}
