use vstd::prelude::*;

use crate::error::AlliumError;
use crate::file::{bom, lemma_bom_is_transparent, source_text};
use crate::unicode::decode_spec;
use crate::source::{block_scan, until_scan, SourceCursor, SourceFile, SourceSpan};
use crate::token::Munched;

verus! {

/// Whether a scalar has the Unicode White_Space property: tab through carriage return, space,
/// next line, no-break space, ogham space mark, en quad through hair space, the line and
/// paragraph separators, narrow no-break space, medium mathematical space and ideographic space.
pub open spec fn is_white(c: char) -> bool {
    let v = c as u32;
    (0x09 <= v <= 0x0D) || v == 0x20 || v == 0x85 || v == 0xA0 || v == 0x1680 || (0x2000 <= v
        <= 0x200A) || v == 0x2028 || v == 0x2029 || v == 0x202F || v == 0x205F || v == 0x3000
}

/// Whether a scalar may start an identifier (Unicode ID_Start).
pub uninterp spec fn is_ident_start(c: char) -> bool;

/// Whether a scalar may continue an identifier (Unicode ID_Continue).
pub uninterp spec fn is_ident_continue(c: char) -> bool;

/// Whether the scalar has the Unicode White_Space property.
pub fn white(c: char) -> (r: bool)
    ensures
        r == is_white(c),
{
    let v = c as u32;
    (0x09 <= v && v <= 0x0D) || v == 0x20 || v == 0x85 || v == 0xA0 || v == 0x1680 || (0x2000 <= v
        && v <= 0x200A) || v == 0x2028 || v == 0x2029 || v == 0x202F || v == 0x205F || v == 0x3000
}

/// Relies on unicode_id_start::is_id_start: whether the scalar has the ID_Start property.
#[verifier::external_body]
fn ident_start(c: char) -> (r: bool)
    ensures
        r == is_ident_start(c),
{
    unicode_id_start::is_id_start(c)
}

/// Relies on unicode_id_start::is_id_continue: whether the scalar has the ID_Continue property.
#[verifier::external_body]
fn ident_continue(c: char) -> (r: bool)
    ensures
        r == is_ident_continue(c),
{
    unicode_id_start::is_id_continue(c)
}

/// What a block comment that the input ends inside is reported as.
pub open spec fn unterminated_block_comment() -> Seq<char> {
    "Failed to parse block comment: Unexpected <eof>"@
}

/// The structural and operator characters, each an atom of its own.
pub open spec fn is_punct(c: char) -> bool {
    c == '{' || c == '}' || c == '[' || c == ']' || c == '(' || c == ')' || c == '+' || c == '-'
        || c == '*' || c == '/' || c == '%' || c == '=' || c == '<' || c == '>' || c == '|' || c
        == '&' || c == '^' || c == '~' || c == '!' || c == '_' || c == '.' || c == '@' || c == '$'
}

/// The scalars that continue a numeric literal.
pub open spec fn is_numeric_part(c: char) -> bool {
    ('0' <= c <= '9') || ('a' <= c <= 'z') || ('A' <= c <= 'Z') || c == '_'
}

/// The kind of an atom.
#[derive(Debug, Clone, Copy, PartialEq, Eq)]
pub enum AtomKind {
    Whitespace,
    Comment,
    Punct,
    Ident,
    Numeric,
    String,
    Char,
}

/// What a recognizer claims at an offset: an atom of a kind that ends at an offset, malformed
/// input, or nothing.
pub enum Claim {
    Takes(AtomKind, int),
    Malformed,
    Declines,
}

/// The first offset at or after `j` whose scalar does not satisfy `pred`, or the length.
pub open spec fn run_end(t: Seq<char>, j: int, pred: spec_fn(char) -> bool) -> int
    decreases t.len() - j,
{
    if j < 0 || j >= t.len() || !pred(t[j]) {
        j
    } else {
        run_end(t, j + 1, pred)
    }
}

/// A run ends at or after where it starts.
pub proof fn lemma_run_end_after(t: Seq<char>, j: int, pred: spec_fn(char) -> bool)
    ensures
        run_end(t, j, pred) >= j,
        j >= 0 ==> run_end(t, j, pred) <= if j > t.len() { j } else { t.len() as int },
    decreases t.len() - j,
{
    if !(j < 0 || j >= t.len() || !pred(t[j])) {
        lemma_run_end_after(t, j + 1, pred);
    }
}

pub open spec fn whitespace_claim(t: Seq<char>, i: int) -> Claim {
    if is_white(t[i]) {
        Claim::Takes(AtomKind::Whitespace, run_end(t, i + 1, |c: char| is_white(c)) - 1)
    } else {
        Claim::Declines
    }
}

pub open spec fn comment_claim(t: Seq<char>, i: int) -> Claim {
    if i + 1 < t.len() && t[i] == '/' && t[i + 1] == '/' {
        Claim::Takes(
            AtomKind::Comment,
            match until_scan(t, seq!['\n'], false, i + 1, false) {
                Some(p) => p,
                None => t.len() - 1,
            },
        )
    } else if i + 1 < t.len() && t[i] == '/' && t[i + 1] == '*' {
        match block_scan(t, seq!['/', '*'], seq!['*', '/'], true, i + 2, 1, false) {
            Some(q) => Claim::Takes(AtomKind::Comment, q),
            None => Claim::Malformed,
        }
    } else {
        Claim::Declines
    }
}

pub open spec fn punct_claim(t: Seq<char>, i: int) -> Claim {
    if is_punct(t[i]) {
        Claim::Takes(AtomKind::Punct, i)
    } else {
        Claim::Declines
    }
}

pub open spec fn ident_claim(t: Seq<char>, i: int) -> Claim {
    let raw = i + 1 < t.len() && t[i] == 'r' && t[i + 1] == '#';
    let k = if raw {
        i + 2
    } else {
        i
    };
    if k >= t.len() {
        Claim::Malformed
    } else if t[k] == '_' || is_ident_start(t[k]) {
        Claim::Takes(AtomKind::Ident, run_end(t, k + 1, |c: char| is_ident_continue(c)) - 1)
    } else if raw {
        Claim::Malformed
    } else {
        Claim::Declines
    }
}

pub open spec fn literal_claim(t: Seq<char>, i: int) -> Claim {
    if t[i] == '"' {
        match until_scan(t, seq!['"'], true, i + 1, false) {
            Some(p) => Claim::Takes(AtomKind::String, p),
            None => Claim::Malformed,
        }
    } else if t[i] == '\'' {
        match until_scan(t, seq!['\''], true, i + 1, false) {
            Some(p) => Claim::Takes(AtomKind::Char, p),
            None => Claim::Malformed,
        }
    } else if '0' <= t[i] <= '9' {
        Claim::Takes(AtomKind::Numeric, run_end(t, i + 1, |c: char| is_numeric_part(c)) - 1)
    } else {
        Claim::Declines
    }
}

/// The claim of the first recognizer, in priority order, that does not decline.
pub open spec fn scan_claim(t: Seq<char>, i: int) -> Claim {
    if !(whitespace_claim(t, i) is Declines) {
        whitespace_claim(t, i)
    } else if !(comment_claim(t, i) is Declines) {
        comment_claim(t, i)
    } else if !(punct_claim(t, i) is Declines) {
        punct_claim(t, i)
    } else if !(ident_claim(t, i) is Declines) {
        ident_claim(t, i)
    } else {
        literal_claim(t, i)
    }
}

/// A stream that begins with the byte-order mark yields the same first atom as the stream
/// without it.
pub proof fn lemma_bom_first_atom(b: Seq<u8>)
    requires
        !(decode_spec(b, 0, true) matches Ok((_, c)) && c == '\u{FEFF}'),
        source_text(b, true) matches Ok(t) && t.len() > 0,
    ensures
        source_text(bom() + b, true) matches Ok(u) && u.len() > 0 && scan_claim(u, 0) == scan_claim(
            source_text(b, true)->Ok_0,
            0,
        ),
{
    lemma_bom_is_transparent(b);
}

/// A single character with a structural meaning.
#[derive(Debug, Clone, Copy)]
pub struct Punct<'a> {
    cursor: SourceCursor<'a>,
}

/// An identifier or keyword.
#[derive(Debug, Clone, Copy)]
pub struct Ident<'a> {
    span: SourceSpan<'a>,
}

/// An unparsed numeric literal.
#[derive(Debug, Clone, Copy)]
pub struct NumericLit<'a> {
    span: SourceSpan<'a>,
}

/// An unparsed string literal, delimiters included; only escaped delimiters were honoured.
#[derive(Debug, Clone, Copy)]
pub struct StringLit<'a> {
    span: SourceSpan<'a>,
}

/// An unparsed character literal, delimiters included; only escaped delimiters were honoured.
#[derive(Debug, Clone, Copy)]
pub struct CharLit<'a> {
    span: SourceSpan<'a>,
}

/// Any literal.
#[derive(Debug, Clone, Copy)]
pub enum Literal<'a> {
    Numeric(NumericLit<'a>),
    String(StringLit<'a>),
    Char(CharLit<'a>),
}

/// A contiguous run of whitespace.
#[derive(Debug, Clone, Copy)]
pub struct Whitespace<'a> {
    span: SourceSpan<'a>,
}

/// A line comment through its line feed, or a nested block comment.
#[derive(Debug, Clone, Copy)]
pub struct Comment<'a> {
    span: SourceSpan<'a>,
}

/// An element that separates other elements.
#[derive(Debug, Clone, Copy)]
pub enum Break<'a> {
    Whitespace(Whitespace<'a>),
    Comment(Comment<'a>),
}

/// A classified span of the source.
#[derive(Debug, Clone, Copy)]
pub enum Atom<'a> {
    Break(Break<'a>),
    Literal(Literal<'a>),
    Punct(Punct<'a>),
    Ident(Ident<'a>),
}

impl<'a> Punct<'a> {
    pub closed spec fn spec_cursor(&self) -> SourceCursor<'a> {
        self.cursor
    }
}

impl<'a> Ident<'a> {
    pub closed spec fn spec_span(&self) -> SourceSpan<'a> {
        self.span
    }
}

impl<'a> NumericLit<'a> {
    pub closed spec fn spec_span(&self) -> SourceSpan<'a> {
        self.span
    }
}

impl<'a> StringLit<'a> {
    pub closed spec fn spec_span(&self) -> SourceSpan<'a> {
        self.span
    }
}

impl<'a> CharLit<'a> {
    pub closed spec fn spec_span(&self) -> SourceSpan<'a> {
        self.span
    }
}

impl<'a> Whitespace<'a> {
    pub closed spec fn spec_span(&self) -> SourceSpan<'a> {
        self.span
    }
}

impl<'a> Comment<'a> {
    pub closed spec fn spec_span(&self) -> SourceSpan<'a> {
        self.span
    }
}

impl<'a> Literal<'a> {
    pub open spec fn spec_span(&self) -> SourceSpan<'a> {
        match self {
            Literal::Numeric(l) => l.spec_span(),
            Literal::String(l) => l.spec_span(),
            Literal::Char(l) => l.spec_span(),
        }
    }

    /// The span that the literal covers.
    pub fn span(&self) -> (r: SourceSpan<'a>)
        ensures
            r == self.spec_span(),
    {
        match self {
            Literal::Numeric(numeric_lit) => numeric_lit.span,
            Literal::String(string_lit) => string_lit.span,
            Literal::Char(char_lit) => char_lit.span,
        }
    }
}

impl<'a> Break<'a> {
    pub open spec fn spec_span(&self) -> SourceSpan<'a> {
        match self {
            Break::Whitespace(w) => w.spec_span(),
            Break::Comment(c) => c.spec_span(),
        }
    }

    /// The span that the break covers.
    pub fn span(&self) -> (r: SourceSpan<'a>)
        ensures
            r == self.spec_span(),
    {
        match self {
            Break::Whitespace(whitespace) => whitespace.span,
            Break::Comment(comment) => comment.span,
        }
    }
}

/// Whether `r` is what a recognizer owes for `claim` at offset `i` of `file`.
pub open spec fn answers<'a>(r: Munched<Atom<'a>, SourceCursor<'a>>, claim: Claim, file: SourceFile, i: int) -> bool {
    match claim {
        Claim::Takes(kind, e) => match r {
            Munched::Matched(a, n) => {
                &&& a.spec_kind() == kind
                &&& a.spec_span().spec_file() == file
                &&& a.spec_span().spec_start() == i
                &&& a.spec_span().spec_end() == e
                &&& if e + 1 < file.text().len() {
                    n matches Some(c) && c.spec_pos() == e + 1 && c.spec_file() == file
                } else {
                    n is None
                }
            },
            _ => false,
        },
        Claim::Malformed => r is Malformed,
        Claim::Declines => r is NoMatch,
    }
}

impl<'a> Atom<'a> {
    pub open spec fn spec_kind(&self) -> AtomKind {
        match self {
            Atom::Break(Break::Whitespace(_)) => AtomKind::Whitespace,
            Atom::Break(Break::Comment(_)) => AtomKind::Comment,
            Atom::Punct(_) => AtomKind::Punct,
            Atom::Ident(_) => AtomKind::Ident,
            Atom::Literal(Literal::Numeric(_)) => AtomKind::Numeric,
            Atom::Literal(Literal::String(_)) => AtomKind::String,
            Atom::Literal(Literal::Char(_)) => AtomKind::Char,
        }
    }

    pub open spec fn spec_span(&self) -> SourceSpan<'a> {
        match self {
            Atom::Break(b) => b.spec_span(),
            Atom::Literal(l) => l.spec_span(),
            Atom::Punct(p) => p.spec_cursor().spec_as_span(),
            Atom::Ident(i) => i.spec_span(),
        }
    }

    /// The kind of the atom.
    pub fn kind(&self) -> (r: AtomKind)
        ensures
            r == self.spec_kind(),
    {
        match self {
            Atom::Break(Break::Whitespace(_)) => AtomKind::Whitespace,
            Atom::Break(Break::Comment(_)) => AtomKind::Comment,
            Atom::Punct(_) => AtomKind::Punct,
            Atom::Ident(_) => AtomKind::Ident,
            Atom::Literal(Literal::Numeric(_)) => AtomKind::Numeric,
            Atom::Literal(Literal::String(_)) => AtomKind::String,
            Atom::Literal(Literal::Char(_)) => AtomKind::Char,
        }
    }

    /// The span that the atom covers.
    pub fn span(&self) -> (r: SourceSpan<'a>)
        ensures
            r == self.spec_span(),
    {
        match self {
            Atom::Break(b) => b.span(),
            Atom::Literal(l) => l.span(),
            Atom::Punct(p) => p.cursor.as_span(),
            Atom::Ident(i) => i.span,
        }
    }

    /// The atom that follows this one; `None` where this one ends the source.
    pub fn next(&self) -> (r: Result<Option<Munched<Atom<'a>, SourceCursor<'a>>>, AlliumError>)
        ensures
            self.spec_span().spec_end() + 1 >= self.spec_span().spec_file().text().len() ==> r
                == Ok::<Option<Munched<Atom<'a>, SourceCursor<'a>>>, AlliumError>(None),
            self.spec_span().spec_end() + 1 < self.spec_span().spec_file().text().len() ==> {
                let t = self.spec_span().spec_file().text();
                let i = self.spec_span().spec_end() + 1;
                match scan_claim(t, i) {
                    Claim::Declines => r == Err::<Option<Munched<Atom<'a>, SourceCursor<'a>>>, AlliumError>(
                        AlliumError::NoAtom,
                    ),
                    c => r matches Ok(Some(m)) && answers(m, c, self.spec_span().spec_file(), i),
                }
            },
    {
        let span = self.span();
        match span.next() {
            Ok(c) => {
                let m = Atom::parse(&c)?;
                Ok(Some(m))
            },
            Err(_) => Ok(None),
        }
    }

    /// The atom at the cursor, from the first recognizer in priority order that claims the
    /// input; `NoAtom` where none does.
    pub fn parse(cursor: &SourceCursor<'a>) -> (r: Result<Munched<Atom<'a>, SourceCursor<'a>>, AlliumError>)
        ensures
            match scan_claim(cursor.spec_file().text(), cursor.spec_pos() as int) {
                Claim::Declines => r == Err::<Munched<Atom<'a>, SourceCursor<'a>>, AlliumError>(
                    AlliumError::NoAtom,
                ),
                c => r matches Ok(m) && answers(m, c, cursor.spec_file(), cursor.spec_pos() as int),
            },
    {
        let m = parse_whitespace(cursor);
        if let Munched::NoMatch = m {
        } else {
            return Ok(m);
        }
        let m = parse_comment(cursor);
        if let Munched::NoMatch = m {
        } else {
            return Ok(m);
        }
        let m = parse_punct(cursor);
        if let Munched::NoMatch = m {
        } else {
            return Ok(m);
        }
        let m = parse_ident(cursor);
        if let Munched::NoMatch = m {
        } else {
            return Ok(m);
        }
        let m = parse_literal(cursor);
        if let Munched::NoMatch = m {
        } else {
            return Ok(m);
        }
        Err(AlliumError::NoAtom)
    }
}

/// The cursor after offset `end`, if the source goes on.
fn after<'a>(span: &SourceSpan<'a>) -> (r: Option<SourceCursor<'a>>)
    ensures
        span.spec_end() + 1 < span.spec_file().text().len() ==> (r matches Some(c) && c.spec_pos()
            == span.spec_end() + 1 && c.spec_file() == span.spec_file()),
        span.spec_end() + 1 >= span.spec_file().text().len() ==> r is None,
{
    match span.next() {
        Ok(c) => Some(c),
        Err(_) => None,
    }
}

/// The end of the run from the cursor's offset on whose scalars satisfy the test that `which`
/// names: 0 whitespace, 1 identifier continuation, 2 numeric literal parts.
fn run_from<'a>(file: &'a SourceFile, start: usize, which: u8) -> (r: usize)
    requires
        start <= file.text().len(),
        which <= 2,
    ensures
        start <= r <= file.text().len(),
        r as int == run_end(
            file.text(),
            start as int,
            if which == 0 {
                |c: char| is_white(c)
            } else if which == 1 {
                |c: char| is_ident_continue(c)
            } else {
                |c: char| is_numeric_part(c)
            },
        ),
{
    let ghost pred = if which == 0 {
        |c: char| is_white(c)
    } else if which == 1 {
        |c: char| is_ident_continue(c)
    } else {
        |c: char| is_numeric_part(c)
    };
    let len = file.len();
    let mut j: usize = start;
    while j < len
        invariant
            start <= j <= len,
            len == file.text().len(),
            run_end(file.text(), j as int, pred) == run_end(file.text(), start as int, pred),
            pred == (if which == 0 {
                |c: char| is_white(c)
            } else if which == 1 {
                |c: char| is_ident_continue(c)
            } else {
                |c: char| is_numeric_part(c)
            }),
        decreases len - j,
    {
        let c = match file.cursor(j) {
            Ok(cur) => cur.to_char(),
            Err(_) => {
                return j;
            },
        };
        let keep = if which == 0 {
            white(c)
        } else if which == 1 {
            ident_continue(c)
        } else {
            ('0' <= c && c <= '9') || ('a' <= c && c <= 'z') || ('A' <= c && c <= 'Z') || c == '_'
        };
        if !keep {
            return j;
        }
        j = j + 1;
    }
    j
}

/// A run of whitespace.
pub fn parse_whitespace<'a>(cursor: &SourceCursor<'a>) -> (r: Munched<Atom<'a>, SourceCursor<'a>>)
    ensures
        answers(r, whitespace_claim(cursor.spec_file().text(), cursor.spec_pos() as int), cursor.spec_file(), cursor.spec_pos() as int),
{
    if !white(cursor.to_char()) {
        return Munched::NoMatch;
    }
    let file = cursor.file();
    let _len = file.len();
    let e = run_from(file, cursor.pos() + 1, 0);
    match file.span(cursor.pos(), e - 1) {
        Ok(span) => Munched::Matched(Atom::Break(Break::Whitespace(Whitespace { span })), after(&span)),
        Err(_) => Munched::NoMatch,
    }
}

/// A line comment or a nested block comment.
pub fn parse_comment<'a>(cursor: &SourceCursor<'a>) -> (r: Munched<Atom<'a>, SourceCursor<'a>>)
    ensures
        answers(r, comment_claim(cursor.spec_file().text(), cursor.spec_pos() as int), cursor.spec_file(), cursor.spec_pos() as int),
        comment_claim(cursor.spec_file().text(), cursor.spec_pos() as int) is Malformed ==> (r matches Munched::Malformed(
            m,
        ) && m@ == unterminated_block_comment()),
{
    if cursor.to_char() != '/' {
        return Munched::NoMatch;
    }
    let next = match cursor.next() {
        Ok(c) => c,
        Err(_) => {
            return Munched::NoMatch;
        },
    };
    let second = next.to_char();
    proof {
        reveal_strlit("\n");
        reveal_strlit("/*");
        reveal_strlit("*/");
        assert("\n"@ =~= seq!['\n']);
        assert("/*"@ =~= seq!['/', '*']);
        assert("*/"@ =~= seq!['*', '/']);
    }
    if second == '/' {
        match cursor.as_span().grow_until("\n", false, true) {
            Ok(span) => Munched::Matched(Atom::Break(Break::Comment(Comment { span })), after(&span)),
            Err(_) => Munched::NoMatch,
        }
    } else if second == '*' {
        let opening = match cursor.span_for(2) {
            Ok(s) => s,
            Err(_) => {
                return Munched::NoMatch;
            },
        };
        assert(opening.spec_chars() =~= "/*"@);
        match opening.grow_until_block_end("/*", "*/", true) {
            Ok(span) => Munched::Matched(Atom::Break(Break::Comment(Comment { span })), after(&span)),
            Err(_) => Munched::Malformed(String::from_str("Failed to parse block comment: Unexpected <eof>")),
        }
    } else {
        Munched::NoMatch
    }
}

/// A single punctuation character.
pub fn parse_punct<'a>(cursor: &SourceCursor<'a>) -> (r: Munched<Atom<'a>, SourceCursor<'a>>)
    ensures
        answers(r, punct_claim(cursor.spec_file().text(), cursor.spec_pos() as int), cursor.spec_file(), cursor.spec_pos() as int),
{
    let c = cursor.to_char();
    match c {
        '{' | '}' | '[' | ']' | '(' | ')' | '+' | '-' | '*' | '/' | '%' | '=' | '<' | '>' | '|'
        | '&' | '^' | '~' | '!' | '_' | '.' | '@' | '$' => {
            let span = cursor.as_span();
            Munched::Matched(Atom::Punct(Punct { cursor: *cursor }), after(&span))
        },
        _ => Munched::NoMatch,
    }
}

/// An identifier, possibly behind the raw marker `r#`.
pub fn parse_ident<'a>(cursor: &SourceCursor<'a>) -> (r: Munched<Atom<'a>, SourceCursor<'a>>)
    ensures
        answers(r, ident_claim(cursor.spec_file().text(), cursor.spec_pos() as int), cursor.spec_file(), cursor.spec_pos() as int),
{
    let file = cursor.file();
    let len = file.len();
    let i = cursor.pos();
    let ghost t = file.text();
    let raw = match cursor.span_for(2) {
        Ok(s) => {
            let m = s.is_match("r#");
            proof {
                reveal_strlit("r#");
                assert("r#"@ =~= seq!['r', '#']);
                assert(s.spec_chars() =~= seq![t[i as int], t[i + 1]]);
                if m {
                    assert(s.spec_chars()[0] == 'r' && s.spec_chars()[1] == '#');
                } else {
                    assert(!(t[i as int] == 'r' && t[i + 1] == '#'));
                }
            }
            m
        },
        Err(_) => false,
    };
    let k = if raw {
        i + 2
    } else {
        i
    };
    if k >= len {
        return Munched::Malformed(String::from_str("raw identifier marker at end of input"));
    }
    let first = match file.cursor(k) {
        Ok(c) => c.to_char(),
        Err(_) => {
            return Munched::NoMatch;
        },
    };
    if first == '_' || ident_start(first) {
        let e = run_from(file, k + 1, 1);
        match file.span(i, e - 1) {
            Ok(span) => Munched::Matched(Atom::Ident(Ident { span }), after(&span)),
            Err(_) => Munched::NoMatch,
        }
    } else if raw {
        Munched::Malformed(String::from_str("raw identifier marker not followed by an identifier"))
    } else {
        Munched::NoMatch
    }
}

/// A numeric, string or character literal, left unparsed.
pub fn parse_literal<'a>(cursor: &SourceCursor<'a>) -> (r: Munched<Atom<'a>, SourceCursor<'a>>)
    ensures
        answers(r, literal_claim(cursor.spec_file().text(), cursor.spec_pos() as int), cursor.spec_file(), cursor.spec_pos() as int),
{
    let c = cursor.to_char();
    proof {
        reveal_strlit("\"");
        reveal_strlit("'");
        assert("\""@ =~= seq!['"']);
        assert("'"@ =~= seq!['\'']);
    }
    if c == '"' {
        match cursor.as_span().grow_until("\"", true, false) {
            Ok(span) => Munched::Matched(Atom::Literal(Literal::String(StringLit { span })), after(&span)),
            Err(_) => Munched::Malformed(String::from_str("unterminated string literal")),
        }
    } else if c == '\'' {
        match cursor.as_span().grow_until("'", true, false) {
            Ok(span) => Munched::Matched(Atom::Literal(Literal::Char(CharLit { span })), after(&span)),
            Err(_) => Munched::Malformed(String::from_str("unterminated character literal")),
        }
    } else if '0' <= c && c <= '9' {
        let file = cursor.file();
        let _len = file.len();
        let e = run_from(file, cursor.pos() + 1, 2);
        match file.span(cursor.pos(), e - 1) {
            Ok(span) => Munched::Matched(Atom::Literal(Literal::Numeric(NumericLit { span })), after(&span)),
            Err(_) => Munched::NoMatch,
        }
    } else {
        Munched::NoMatch
    }
}

} // verus!
