use vstd::prelude::*;

use crate::atom::{
    is_ident_continue, comment_claim, ident_claim, lemma_run_end_after, parse_comment, parse_ident, parse_whitespace,
    unterminated_block_comment, whitespace_claim, Claim,
};
use crate::source::{lemma_block_scan_after, lemma_until_scan_after};
use crate::source::{SourceCursor, SourceFile};

verus! {

/// What one recognizer makes of the input at a cursor.
#[derive(Debug, Clone)]
pub enum Munched<Token, Cursor> {
    /// The recognizer took a token; the cursor after it, where the input goes on.
    Matched(Token, Option<Cursor>),
    /// The input has the shape of this recognizer's tokens but is not one: a short description.
    Malformed(String),
    /// The recognizer does not claim the input.
    NoMatch,
}

/// A single punctuation character.
#[derive(Debug, Clone, PartialEq, Eq)]
pub struct Punct(pub char);

/// Any keyword or identifier-like token, by its text.
#[derive(Debug, Clone, PartialEq, Eq)]
pub enum Identifier {
    /// `_` or an ID_Start scalar, then ID_Continue scalars.
    Standard(String),
    /// An identifier behind the raw marker `r#`; the text after the marker.
    Raw(String),
}

/// Literal tokens, by their kind, value and source text.
#[derive(Debug, Clone, PartialEq, Eq)]
pub enum Literal {
    Char(u32, String),
    RawChar(u32, String),
    String(String, String),
    RawString(String, String),
    ByteString(String, String),
    CString(Vec<u8>, String),
    Integer(u128, String),
    Decimal(String, String),
}

/// Tokens that separate other tokens, by their text.
#[derive(Debug, Clone, PartialEq, Eq)]
pub enum Whitespace {
    /// A run of Unicode whitespace; line feeds included.
    Standard(String),
    /// `//` through the line feed that ends it, or through the end of the input.
    LineComment(String),
    /// `/*` through the `*/` that balances it; block comments nest.
    BlockComment(String),
}

/// A token and its text.
#[derive(Debug, Clone, PartialEq, Eq)]
pub enum Tok {
    Whitespace(Whitespace),
    Identifier(Identifier),
    Literal(Literal),
    Punct(Punct),
}

/// Relies on String::push: the scalar is appended at the end.
#[verifier::external_body]
fn push_char(s: &mut String, c: char)
    ensures
        final(s)@ == old(s)@.push(c),
{
    s.push(c);
}

/// The string that holds the scalars of `cs` in order.
fn string_of(cs: &Vec<char>) -> (r: String)
    ensures
        r@ == cs@,
{
    let mut out = String::new();
    let mut k: usize = 0;
    while k < cs.len()
        invariant
            k <= cs@.len(),
            out@ == cs@.subrange(0, k as int),
        decreases cs@.len() - k,
    {
        push_char(&mut out, cs[k]);
        k = k + 1;
        assert(out@ == cs@.subrange(0, k as int));
    }
    assert(cs@.subrange(0, cs@.len() as int) == cs@);
    out
}

/// Whether `n` is the cursor after offset `e` of `file`, or `None` where `e` ends it.
pub open spec fn follows<'a>(n: Option<SourceCursor<'a>>, e: int, file: SourceFile) -> bool {
    if e + 1 < file.text().len() {
        n matches Some(c) && c.spec_pos() == e + 1 && c.spec_file() == file
    } else {
        n is None
    }
}

/// A recognizer that munches on the scalars at a cursor.
pub trait Munch {
    fn munch<'a>(&self, cursor: &SourceCursor<'a>) -> Munched<Tok, SourceCursor<'a>>;
}

/// Recognizes whitespace, line comments and block comments.
pub struct MunchWhitespace {}

/// Recognizes identifiers and raw identifiers.
pub struct MunchIdentifier {}

impl MunchWhitespace {
    pub fn new() -> MunchWhitespace {
        MunchWhitespace {  }
    }

    /// A whitespace token at the cursor, else a comment token.
    pub fn munch<'a>(&self, cursor: &SourceCursor<'a>) -> (r: Munched<Tok, SourceCursor<'a>>)
        ensures
            ({
                let t = cursor.spec_file().text();
                let i = cursor.spec_pos() as int;
                match whitespace_claim(t, i) {
                    Claim::Takes(_, e) => r matches Munched::Matched(
                        Tok::Whitespace(Whitespace::Standard(s)),
                        n,
                    ) && s@ == t.subrange(i, e + 1) && follows(n, e, cursor.spec_file()),
                    _ => match comment_claim(t, i) {
                        Claim::Takes(_, e) => r matches Munched::Matched(Tok::Whitespace(w), n) && follows(
                            n,
                            e,
                            cursor.spec_file(),
                        ) && if t[i + 1] == '/' {
                            w matches Whitespace::LineComment(s) && s@ == t.subrange(i, e + 1)
                        } else {
                            w matches Whitespace::BlockComment(s) && s@ == t.subrange(i, e + 1)
                        },
                        Claim::Malformed => r matches Munched::Malformed(m) && m@ == unterminated_block_comment(),
                        Claim::Declines => r is NoMatch,
                    },
                }
            }),
    {
        match parse_whitespace(cursor) {
            Munched::Matched(atom, next) => {
                let text = string_of(&atom.span().chars());
                return Munched::Matched(Tok::Whitespace(Whitespace::Standard(text)), next);
            },
            _ => {},
        }
        match parse_comment(cursor) {
            Munched::Matched(atom, next) => {
                let cs = atom.span().chars();
                proof {
                    let t = cursor.spec_file().text();
                    let i = cursor.spec_pos() as int;
                    lemma_until_scan_after(t, seq!['\n'], false, i + 1, false);
                    lemma_block_scan_after(t, seq!['/', '*'], seq!['*', '/'], true, i + 2, 1, false);
                    assert(cs@[1] == t[i + 1]);
                }
                let line = cs.len() > 1 && cs[1] == '/';
                let text = string_of(&cs);
                if line {
                    Munched::Matched(Tok::Whitespace(Whitespace::LineComment(text)), next)
                } else {
                    Munched::Matched(Tok::Whitespace(Whitespace::BlockComment(text)), next)
                }
            },
            Munched::Malformed(e) => Munched::Malformed(e),
            Munched::NoMatch => Munched::NoMatch,
        }
    }
}

impl MunchIdentifier {
    pub fn new() -> MunchIdentifier {
        MunchIdentifier {  }
    }

    /// An identifier token at the cursor.
    pub fn munch<'a>(&self, cursor: &SourceCursor<'a>) -> (r: Munched<Tok, SourceCursor<'a>>)
        ensures
            ({
                let t = cursor.spec_file().text();
                let i = cursor.spec_pos() as int;
                match ident_claim(t, i) {
                    Claim::Takes(_, e) => r matches Munched::Matched(Tok::Identifier(id), n) && follows(
                        n,
                        e,
                        cursor.spec_file(),
                    ) && if i + 1 < t.len() && t[i] == 'r' && t[i + 1] == '#' {
                        id matches Identifier::Raw(s) && s@ == t.subrange(i + 2, e + 1)
                    } else {
                        id matches Identifier::Standard(s) && s@ == t.subrange(i, e + 1)
                    },
                    Claim::Malformed => r is Malformed,
                    Claim::Declines => r is NoMatch,
                }
            }),
    {
        match parse_ident(cursor) {
            Munched::Matched(atom, next) => {
                let cs = atom.span().chars();
                let ghost t = cursor.spec_file().text();
                let ghost i = cursor.spec_pos() as int;
                proof {
                    lemma_run_end_after(t, i + 1, |c: char| is_ident_continue(c));
                    lemma_run_end_after(t, i + 3, |c: char| is_ident_continue(c));
                    assert(cs@ == t.subrange(i, cs@.len() + i));
                    if i + 1 < t.len() && t[i] == 'r' && t[i + 1] == '#' {
                        assert(cs@.len() >= 2 && cs@[0] == 'r' && cs@[1] == '#');
                    }
                }
                if cs.len() >= 2 && cs[0] == 'r' && cs[1] == '#' {
                    let mut rest: Vec<char> = Vec::new();
                    let mut k: usize = 2;
                    while k < cs.len()
                        invariant
                            2 <= k <= cs@.len(),
                            rest@ == cs@.subrange(2, k as int),
                        decreases cs@.len() - k,
                    {
                        rest.push(cs[k]);
                        k = k + 1;
                        assert(rest@ == cs@.subrange(2, k as int));
                    }
                    assert(rest@ == t.subrange(i + 2, i + cs@.len()));
                    Munched::Matched(Tok::Identifier(Identifier::Raw(string_of(&rest))), next)
                } else {
                    Munched::Matched(Tok::Identifier(Identifier::Standard(string_of(&cs))), next)
                }
            },
            Munched::Malformed(e) => Munched::Malformed(e),
            Munched::NoMatch => Munched::NoMatch,
        }
    }
}

impl Munch for MunchWhitespace {
    fn munch<'a>(&self, cursor: &SourceCursor<'a>) -> Munched<Tok, SourceCursor<'a>> {
        MunchWhitespace::munch(self, cursor)
    }
}

impl Munch for MunchIdentifier {
    fn munch<'a>(&self, cursor: &SourceCursor<'a>) -> Munched<Tok, SourceCursor<'a>> {
        MunchIdentifier::munch(self, cursor)
    }
}

} // verus!
