use vstd::prelude::*;

use crate::cached_read_file::{same_cache, CachedReadFile, CHUNK_SIZE};
use crate::error::AlliumError;
use crate::unicode::{
    continuations_ok, decode_at, decode_spec, encode_char, encode_str, lemma_decode_encoded_char,
    seq_value,
};

verus! {

/// A byte stream read as UTF-8: an append-only byte cache and a decoder over it.
#[derive(Debug)]
pub struct File {
    bytes: CachedReadFile,
}

/// A position in a `File`: a resident byte offset, where a scalar starts.
#[derive(Debug, Clone, Copy)]
pub struct Cursor<'a> {
    file: &'a File,
    pos: usize,
}

/// A non-empty range of resident bytes of a `File`, as the byte offsets `start` (included) and
/// `end` (not included).
#[derive(Debug, Clone, Copy)]
pub struct Span<'a> {
    file: &'a File,
    start: usize,
    end: usize,
}

/// Whether two files stand for the same source: the same identity, bytes and knowledge of the
/// stream's end.
pub open spec fn same_file(a: File, b: File) -> bool {
    a.spec_id() == b.spec_id() && a.bytes() == b.bytes() && a.spec_exhausted() == b.spec_exhausted()
}

/// The offset of the scalar after the one at `pos`, or why there is none.
pub open spec fn next_pos(bytes: Seq<u8>, exhausted: bool, pos: int) -> Result<usize, AlliumError> {
    match decode_spec(bytes, pos, exhausted) {
        Err(e) => Err(e),
        Ok((n, c)) => if pos + n < bytes.len() {
            Ok((pos + n) as usize)
        } else if exhausted {
            Err(AlliumError::Eof)
        } else {
            Err(AlliumError::Pending(bytes.len() as usize))
        },
    }
}

/// The byte bounds of the span from the earlier of two offsets through the scalar at the
/// later one, or why there is none.
pub open spec fn span_bounds(bytes: Seq<u8>, exhausted: bool, a: int, b: int) -> Result<(usize, usize), AlliumError> {
    let lo = if a <= b {
        a
    } else {
        b
    };
    let hi = if a <= b {
        b
    } else {
        a
    };
    match (decode_spec(bytes, lo, exhausted), decode_spec(bytes, hi, exhausted)) {
        (Err(e), _) => Err(e),
        (Ok(_), Err(e)) => Err(e),
        (Ok(_), Ok((n, c))) => Ok((lo as usize, (hi + n) as usize)),
    }
}

/// The scalars that lie between byte offsets `p` and `end`, decoded one after the other.
pub open spec fn chars_from(bytes: Seq<u8>, exhausted: bool, p: int, end: int) -> Result<
    Seq<char>,
    AlliumError,
>
    decreases end - p,
{
    if p >= end {
        Ok(Seq::empty())
    } else {
        match decode_spec(bytes, p, exhausted) {
            Err(e) => Err(e),
            Ok((n, c)) => if p + n >= end {
                Ok(seq![c])
            } else {
                match chars_from(bytes, exhausted, p + n, end) {
                    Ok(rest) => Ok(seq![c] + rest),
                    Err(e) => Err(e),
                }
            },
        }
    }
}

/// The text that an exhausted stream holds: its scalars decoded from the first byte on, a
/// leading byte-order mark left out. A stream that may still grow has no text yet.
pub open spec fn source_text(bytes: Seq<u8>, exhausted: bool) -> Result<Seq<char>, AlliumError> {
    if !exhausted {
        Err(AlliumError::Pending(bytes.len() as usize))
    } else if bytes.len() == 0 {
        Ok(Seq::empty())
    } else {
        let skip = match decode_spec(bytes, 0, exhausted) {
            Ok((n, c)) => if c == '\u{FEFF}' {
                n as int
            } else {
                0
            },
            Err(_) => 0,
        };
        chars_from(bytes, exhausted, skip, bytes.len() as int)
    }
}

/// The UTF-8 byte-order mark.
pub open spec fn bom() -> Seq<u8> {
    seq![0xEFu8, 0xBBu8, 0xBFu8]
}

proof fn lemma_shift_value(pre: Seq<u8>, b: Seq<u8>, p: int, k: int)
    requires
        0 <= p,
        1 <= k,
        p + k <= b.len(),
    ensures
        seq_value(pre + b, p + pre.len(), k) == seq_value(b, p, k),
    decreases k,
{
    assert((pre + b)[p + pre.len()] == b[p]);
    if k > 1 {
        lemma_shift_value(pre, b, p, k - 1);
        assert((pre + b)[p + pre.len() + k - 1] == b[p + k - 1]);
    }
}

proof fn lemma_shift_decode(pre: Seq<u8>, b: Seq<u8>, p: int, exhausted: bool)
    requires
        0 <= p,
        decode_spec(b, p, exhausted) is Ok,
    ensures
        decode_spec(pre + b, p + pre.len(), exhausted) == decode_spec(b, p, exhausted),
{
    let q = p + pre.len();
    let s = pre + b;
    assert(s[q] == b[p]);
    let n = crate::unicode::seq_len(b[p]) as int;
    assert forall|k: int| 1 <= k < n implies #[trigger] crate::unicode::is_continuation(s[q + k])
        == crate::unicode::is_continuation(b[p + k]) by {
        assert(s[q + k] == b[p + k]);
    }
    assert(continuations_ok(s, q, n) == continuations_ok(b, p, n));
    lemma_shift_value(pre, b, p, n);
}

proof fn lemma_shift_chars(pre: Seq<u8>, b: Seq<u8>, exhausted: bool, p: int, end: int)
    requires
        0 <= p,
        chars_from(b, exhausted, p, end) is Ok,
    ensures
        chars_from(pre + b, exhausted, p + pre.len(), end + pre.len()) == chars_from(b, exhausted, p, end),
    decreases end - p,
{
    if p < end {
        lemma_shift_decode(pre, b, p, exhausted);
        if let Ok((n, c)) = decode_spec(b, p, exhausted) {
            if p + n < end {
                lemma_shift_chars(pre, b, exhausted, p + n, end);
            }
        }
    }
}

proof fn lemma_encoded_len(cs: Seq<char>)
    ensures
        encode_str(cs).len() >= cs.len(),
    decreases cs.len(),
{
    if cs.len() > 0 {
        lemma_encoded_len(cs.drop_first());
    }
}

proof fn lemma_chars_of_encoded(pre: Seq<u8>, cs: Seq<char>)
    ensures
        chars_from(pre + encode_str(cs), true, pre.len() as int, (pre.len() + encode_str(cs).len()) as int)
            == Ok::<Seq<char>, AlliumError>(cs),
    decreases cs.len(),
{
    let e_all = encode_str(cs);
    let bytes = pre + e_all;
    if cs.len() == 0 {
        assert(e_all.len() == 0);
        assert(cs == Seq::<char>::empty());
    } else {
        let c0 = cs[0];
        let tail = cs.drop_first();
        let e = encode_char(c0);
        let rest = encode_str(tail);
        assert(e_all == e + rest);
        lemma_decode_encoded_char(c0, rest, true);
        lemma_shift_decode(pre, e_all, 0, true);
        assert(decode_spec(bytes, pre.len() as int, true) == Ok::<(usize, char), AlliumError>(
            (e.len() as usize, c0),
        ));
        lemma_encoded_len(tail);
        if tail.len() == 0 {
            assert(rest.len() == 0);
            assert(cs == seq![c0]);
        } else {
            let pre2 = pre + e;
            assert(bytes == pre2 + rest);
            lemma_chars_of_encoded(pre2, tail);
            assert(seq![c0] + tail == cs);
        }
    }
}

/// Round trip through a file: the text of an exhausted stream of valid UTF-8 is exactly the
/// scalars it encodes, so encoding the text gives back the stream's bytes. A leading U+FEFF is
/// read as a byte-order mark and left out, so it is excluded here.
pub proof fn lemma_text_of_encoded(cs: Seq<char>)
    requires
        cs.len() == 0 || cs[0] != '\u{FEFF}',
    ensures
        source_text(encode_str(cs), true) == Ok::<Seq<char>, AlliumError>(cs),
{
    lemma_encoded_len(cs);
    if cs.len() > 0 {
        let e_all = encode_str(cs);
        assert(e_all == encode_char(cs[0]) + encode_str(cs.drop_first()));
        lemma_decode_encoded_char(cs[0], encode_str(cs.drop_first()), true);
        lemma_chars_of_encoded(Seq::empty(), cs);
        assert(Seq::<u8>::empty() + e_all == e_all);
        assert(decode_spec(e_all, 0, true) == Ok::<(usize, char), AlliumError>(
            (encode_char(cs[0]).len() as usize, cs[0]),
        ));
        assert(chars_from(e_all, true, 0, e_all.len() as int) == Ok::<Seq<char>, AlliumError>(cs));
    } else {
        assert(cs == Seq::<char>::empty());
    }
}

/// A span from a cursor to itself covers exactly the one scalar under the cursor.
pub proof fn lemma_span_to_self(bytes: Seq<u8>, exhausted: bool, pos: int)
    requires
        0 <= pos,
        bytes.len() <= usize::MAX,
        decode_spec(bytes, pos, exhausted) is Ok,
    ensures
        span_bounds(bytes, exhausted, pos, pos) matches Ok((lo, hi)) && lo == pos && hi == pos
            + decode_spec(bytes, pos, exhausted)->Ok_0.0 && chars_from(bytes, exhausted, lo as int, hi as int)
            == Ok::<Seq<char>, AlliumError>(seq![decode_spec(bytes, pos, exhausted)->Ok_0.1]),
{
}

/// A leading byte-order mark changes nothing that is read: an exhausted stream whose text
/// decodes has the same text, and so the same first atom, with the mark in front of it.
pub proof fn lemma_bom_is_transparent(b: Seq<u8>)
    requires
        !(decode_spec(b, 0, true) matches Ok((_, c)) && c == '\u{FEFF}'),
        source_text(b, true) is Ok,
    ensures
        source_text(bom() + b, true) == source_text(b, true),
{
    let v = '\u{FEFF}' as int;
    assert(v == 0xFEFF);
    assert(encode_char('\u{FEFF}') =~= bom());
    lemma_decode_encoded_char('\u{FEFF}', b, true);
    let s = bom() + b;
    assert(decode_spec(s, 0, true) == Ok::<(usize, char), AlliumError>((3, '\u{FEFF}')));
    if b.len() == 0 {
        assert(s.len() == 3);
    } else {
        lemma_shift_chars(bom(), b, true, 0, b.len() as int);
        assert(s.len() == b.len() + 3);
    }
}

impl File {
    pub closed spec fn bytes(&self) -> Seq<u8> {
        self.bytes.bytes()
    }

    pub closed spec fn spec_exhausted(&self) -> bool {
        self.bytes.spec_exhausted()
    }

    pub closed spec fn spec_id(&self) -> u64 {
        self.bytes.spec_id()
    }

    /// An empty file for the stream that the caller names `id`.
    pub fn new(id: u64) -> (r: File)
        ensures
            r.bytes() == Seq::<u8>::empty(),
            !r.spec_exhausted(),
            r.spec_id() == id,
    {
        File { bytes: CachedReadFile::new(id) }
    }

    /// A file that decodes the bytes of `bytes`.
    pub fn from_bytes(bytes: CachedReadFile) -> (r: File)
        ensures
            r.bytes() == bytes.bytes(),
            r.spec_exhausted() == bytes.spec_exhausted(),
            r.spec_id() == bytes.spec_id(),
    {
        File { bytes }
    }

    pub fn id(&self) -> (r: u64)
        ensures
            r == self.spec_id(),
    {
        self.bytes.id()
    }

    pub fn is_exhausted(&self) -> (r: bool)
        ensures
            r == self.spec_exhausted(),
    {
        self.bytes.is_exhausted()
    }

    /// The number of resident bytes; the stream may still hold more.
    pub fn len(&self) -> (r: usize)
        ensures
            r == self.bytes().len(),
    {
        self.bytes.len()
    }

    /// Whether another chunk must be read before `len` bytes can be resident.
    pub fn wants(&self, len: usize) -> (r: bool)
        ensures
            r == (!self.spec_exhausted() && self.bytes().len() < len),
    {
        self.bytes.wants(len)
    }

    /// Appends one chunk read from the stream; an empty chunk says that the stream is exhausted.
    pub fn absorb(&mut self, chunk: &[u8])
        requires
            chunk@.len() <= CHUNK_SIZE,
            !old(self).spec_exhausted(),
        ensures
            final(self).bytes() == old(self).bytes() + chunk@,
            final(self).spec_exhausted() == (chunk@.len() == 0),
            final(self).spec_id() == old(self).spec_id(),
    {
        self.bytes.absorb(chunk);
    }

    /// The byte at `idx`, if it is resident.
    pub fn get(&self, idx: usize) -> (r: Option<u8>)
        ensures
            r == (if idx < self.bytes().len() {
                Some(self.bytes()[idx as int])
            } else {
                None::<u8>
            }),
    {
        self.bytes.get(idx)
    }

    /// The encoded length and the scalar that start at byte offset `idx`.
    pub fn char_at(&self, idx: usize) -> (r: Result<(usize, char), AlliumError>)
        ensures
            r == decode_spec(self.bytes(), idx as int, self.spec_exhausted()),
    {
        decode_at(self.bytes.as_bytes(), idx, self.bytes.is_exhausted())
    }

    /// The scalars decoded one after the other from byte offset `start` until `end` is reached.
    pub fn decode_range(&self, start: usize, end: usize) -> (r: Result<Vec<char>, AlliumError>)
        ensures
            match chars_from(self.bytes(), self.spec_exhausted(), start as int, end as int) {
                Ok(s) => r is Ok && r->Ok_0@ == s,
                Err(e) => r == Err::<Vec<char>, AlliumError>(e),
            },
    {
        let ghost bytes = self.bytes();
        let ghost ex = self.spec_exhausted();
        let ghost total = chars_from(bytes, ex, start as int, end as int);
        let mut out: Vec<char> = Vec::new();
        let mut p: usize = start;
        if p >= end {
            return Ok(out);
        }
        while p < end
            invariant
                start <= p <= end,
                bytes == self.bytes(),
                ex == self.spec_exhausted(),
                total == chars_from(bytes, ex, start as int, end as int),
                match chars_from(bytes, ex, p as int, end as int) {
                    Ok(s) => total is Ok && total->Ok_0 == out@ + s,
                    Err(e) => total == Err::<Seq<char>, AlliumError>(e),
                },
            decreases end - p,
        {
            let (n, c) = self.char_at(p)?;
            let _len = self.len();
            let ghost before = out@;
            out.push(c);
            proof {
                if p + n >= end {
                    assert(before + seq![c] + Seq::<char>::empty() == out@);
                } else if let Ok(rest) = chars_from(bytes, ex, p + n, end as int) {
                    assert(before + (seq![c] + rest) == out@ + rest);
                }
            }
            p = if n >= end - p {
                end
            } else {
                p + n
            };
        }
        proof {
            assert(out@ + Seq::<char>::empty() == out@);
        }
        Ok(out)
    }

    /// The text of the whole stream, a leading byte-order mark left out.
    pub fn text(&self) -> (r: Result<Vec<char>, AlliumError>)
        ensures
            match source_text(self.bytes(), self.spec_exhausted()) {
                Ok(s) => r is Ok && r->Ok_0@ == s,
                Err(e) => r == Err::<Vec<char>, AlliumError>(e),
            },
    {
        let len = self.len();
        if !self.is_exhausted() {
            return Err(AlliumError::Pending(len));
        }
        if len == 0 {
            return Ok(Vec::new());
        }
        let skip = match self.char_at(0) {
            Ok((n, c)) => if c == '\u{FEFF}' {
                n
            } else {
                0
            },
            Err(_) => 0,
        };
        self.decode_range(skip, len)
    }

    /// Whether `other` stands for the same source as this file.
    pub fn same_source(&self, other: &File) -> (r: bool)
        ensures
            r == same_file(*self, *other),
    {
        self.bytes.same_source(&other.bytes)
    }

    /// A cursor at byte offset `pos`, where it is resident.
    pub fn cursor<'a>(&'a self, pos: usize) -> (r: Option<Cursor<'a>>)
        ensures
            pos < self.bytes().len() ==> (r matches Some(c) && c.spec_file() == *self && c.spec_pos() == pos),
            pos >= self.bytes().len() ==> r is None,
    {
        if pos < self.len() {
            Some(Cursor { file: self, pos })
        } else {
            None
        }
    }

    /// A cursor at the first scalar, past a leading byte-order mark if there is one.
    pub fn start<'a>(&'a self) -> (r: Result<Cursor<'a>, AlliumError>)
        ensures
            match decode_spec(self.bytes(), 0, self.spec_exhausted()) {
                Err(e) => r == Err::<Cursor<'a>, AlliumError>(e),
                Ok((n, c)) => if c == '\u{FEFF}' {
                    match next_pos(self.bytes(), self.spec_exhausted(), 0) {
                        Ok(p) => r matches Ok(cur) && cur.spec_file() == *self && cur.spec_pos() == p,
                        Err(e) => r == Err::<Cursor<'a>, AlliumError>(e),
                    }
                } else {
                    r matches Ok(cur) && cur.spec_file() == *self && cur.spec_pos() == 0
                },
            },
    {
        let (_, first) = self.char_at(0)?;
        let c = Cursor { file: self, pos: 0 };
        if first == '\u{FEFF}' {
            c.next()
        } else {
            Ok(c)
        }
    }
}

impl<'a> Cursor<'a> {
    #[verifier::type_invariant]
    spec fn wf(self) -> bool {
        self.pos < self.file.bytes.bytes().len()
    }

    pub closed spec fn spec_file(&self) -> File {
        *self.file
    }

    pub closed spec fn spec_pos(&self) -> usize {
        self.pos
    }

    /// The byte offset of this cursor.
    pub fn pos(&self) -> (r: usize)
        ensures
            r == self.spec_pos(),
            r < self.spec_file().bytes().len(),
            self.spec_file().bytes().len() <= usize::MAX,
    {
        proof {
            use_type_invariant(self);
        }
        let _len = self.file.len();
        self.pos
    }

    /// The file this cursor belongs to.
    pub fn file(&self) -> (r: &'a File)
        ensures
            *r == self.spec_file(),
    {
        self.file
    }

    /// The cursor at the scalar that follows this one; `Eof` where this is the last one.
    pub fn next(&self) -> (r: Result<Cursor<'a>, AlliumError>)
        ensures
            match next_pos(self.spec_file().bytes(), self.spec_file().spec_exhausted(), self.spec_pos() as int) {
                Ok(p) => r matches Ok(c) && c.spec_file() == self.spec_file() && c.spec_pos() == p,
                Err(e) => r == Err::<Cursor<'a>, AlliumError>(e),
            },
    {
        proof {
            use_type_invariant(self);
        }
        let (n, _) = self.file.char_at(self.pos)?;
        let len = self.file.len();
        if n < len - self.pos {
            Ok(Cursor { file: self.file, pos: self.pos + n })
        } else if self.file.is_exhausted() {
            Err(AlliumError::Eof)
        } else {
            Err(AlliumError::Pending(len))
        }
    }

    /// The scalar under the cursor.
    pub fn char(&self) -> (r: Result<char, AlliumError>)
        ensures
            match decode_spec(self.spec_file().bytes(), self.spec_pos() as int, self.spec_file().spec_exhausted()) {
                Ok((n, c)) => r == Ok::<char, AlliumError>(c),
                Err(e) => r == Err::<char, AlliumError>(e),
            },
    {
        let (_, c) = self.deref()?;
        Ok(c)
    }

    /// The encoded length and the scalar under the cursor.
    pub fn deref(&self) -> (r: Result<(usize, char), AlliumError>)
        ensures
            r == decode_spec(self.spec_file().bytes(), self.spec_pos() as int, self.spec_file().spec_exhausted()),
    {
        self.file.char_at(self.pos)
    }

    /// The span from the earlier of the two cursors through the scalar under the later one.
    pub fn span_to(&self, other: &Cursor<'a>) -> (r: Result<Span<'a>, AlliumError>)
        ensures
            !same_file(self.spec_file(), other.spec_file()) ==> r matches Err(
                AlliumError::SpanMismatch(_, _),
            ),
            same_file(self.spec_file(), other.spec_file()) ==> match span_bounds(
                self.spec_file().bytes(),
                self.spec_file().spec_exhausted(),
                self.spec_pos() as int,
                other.spec_pos() as int,
            ) {
                Ok((lo, hi)) => r matches Ok(s) && s.spec_file() == self.spec_file() && s.spec_start() == lo
                    && s.spec_end() == hi,
                Err(e) => r == Err::<Span<'a>, AlliumError>(e),
            },
    {
        proof {
            use_type_invariant(self);
            use_type_invariant(other);
        }
        if !self.file.same_source(other.file) {
            return Err(AlliumError::SpanMismatch(String::new(), String::new()));
        }
        let (lo, hi) = if self.pos <= other.pos {
            (self.pos, other.pos)
        } else {
            (other.pos, self.pos)
        };
        let _ = self.file.char_at(lo)?;
        let (n, _) = self.file.char_at(hi)?;
        let _len = self.file.len();
        Ok(Span { file: self.file, start: lo, end: hi + n })
    }
}

impl<'a> PartialEq for Cursor<'a> {
    fn eq(&self, other: &Cursor<'a>) -> (r: bool) {
        self.pos == other.pos && self.file.same_source(other.file)
    }
}

impl<'a> vstd::std_specs::cmp::PartialEqSpecImpl for Cursor<'a> {
    open spec fn obeys_eq_spec() -> bool {
        true
    }

    open spec fn eq_spec(&self, other: &Cursor<'a>) -> bool {
        self.spec_pos() == other.spec_pos() && same_file(self.spec_file(), other.spec_file())
    }
}

impl<'a> Eq for Cursor<'a> {
}

impl<'a> PartialOrd for Cursor<'a> {
    fn partial_cmp(&self, other: &Cursor<'a>) -> (r: Option<core::cmp::Ordering>) {
        if !self.file.same_source(other.file) {
            None
        } else if self.pos < other.pos {
            Some(core::cmp::Ordering::Less)
        } else if self.pos == other.pos {
            Some(core::cmp::Ordering::Equal)
        } else {
            Some(core::cmp::Ordering::Greater)
        }
    }
}

impl<'a> vstd::std_specs::cmp::PartialOrdSpecImpl for Cursor<'a> {
    open spec fn obeys_partial_cmp_spec() -> bool {
        true
    }

    open spec fn partial_cmp_spec(&self, other: &Cursor<'a>) -> Option<core::cmp::Ordering> {
        if !same_file(self.spec_file(), other.spec_file()) {
            None
        } else if self.spec_pos() < other.spec_pos() {
            Some(core::cmp::Ordering::Less)
        } else if self.spec_pos() == other.spec_pos() {
            Some(core::cmp::Ordering::Equal)
        } else {
            Some(core::cmp::Ordering::Greater)
        }
    }
}

impl<'a> Span<'a> {
    #[verifier::type_invariant]
    spec fn wf(self) -> bool {
        self.start < self.end <= self.file.bytes.bytes().len()
    }

    pub closed spec fn spec_file(&self) -> File {
        *self.file
    }

    pub closed spec fn spec_start(&self) -> usize {
        self.start
    }

    pub closed spec fn spec_end(&self) -> usize {
        self.end
    }

    /// The number of bytes in the span.
    pub fn byte_len(&self) -> (r: usize)
        ensures
            r == self.spec_end() - self.spec_start(),
    {
        proof {
            use_type_invariant(self);
        }
        self.end - self.start
    }

    /// The number of scalars in the span.
    pub fn char_len(&self) -> (r: Result<usize, AlliumError>)
        ensures
            match chars_from(
                self.spec_file().bytes(),
                self.spec_file().spec_exhausted(),
                self.spec_start() as int,
                self.spec_end() as int,
            ) {
                Ok(s) => r == Ok::<usize, AlliumError>(s.len() as usize),
                Err(e) => r == Err::<usize, AlliumError>(e),
            },
    {
        let cs = self.chars()?;
        Ok(cs.len())
    }

    /// The scalars that the span covers, in order.
    pub fn chars(&self) -> (r: Result<Vec<char>, AlliumError>)
        ensures
            match chars_from(
                self.spec_file().bytes(),
                self.spec_file().spec_exhausted(),
                self.spec_start() as int,
                self.spec_end() as int,
            ) {
                Ok(s) => r is Ok && r->Ok_0@ == s,
                Err(e) => r == Err::<Vec<char>, AlliumError>(e),
            },
    {
        self.file.decode_range(self.start, self.end)
    }
}

impl<'a> PartialEq for Span<'a> {
    fn eq(&self, other: &Span<'a>) -> (r: bool) {
        self.start == other.start && self.end == other.end && self.file.same_source(other.file)
    }
}

impl<'a> vstd::std_specs::cmp::PartialEqSpecImpl for Span<'a> {
    open spec fn obeys_eq_spec() -> bool {
        true
    }

    open spec fn eq_spec(&self, other: &Span<'a>) -> bool {
        self.spec_start() == other.spec_start() && self.spec_end() == other.spec_end() && same_file(
            self.spec_file(),
            other.spec_file(),
        )
    }
}

impl<'a> Eq for Span<'a> {
}

} // verus!
