use vstd::prelude::*;

use crate::cached_read_file::CachedReadFile;
use crate::error::AlliumError;
use crate::file::{chars_from, next_pos, same_file, span_bounds, Cursor, File};
use crate::unicode::decode_spec;

verus! {

/// A byte cache read as a sequence of scalars; the end of the input is `None`, not an error.
#[derive(Debug)]
pub struct UTF8File {
    inner: File,
}

/// A position in a `UTF8File`: the byte offset where a scalar starts.
#[derive(Debug, Clone, Copy, PartialEq, Eq)]
pub struct UTF8Cursor<'a> {
    inner: Cursor<'a>,
}

/// The scalars from one cursor through another, both included.
#[derive(Debug, Clone, Copy, PartialEq, Eq)]
pub struct UTF8Span<'a> {
    start: Cursor<'a>,
    end: Cursor<'a>,
}

/// The cursor after the scalar at `pos` as the scalar layer reports it: `None` at the end of an
/// exhausted input.
pub open spec fn next_or_end(bytes: Seq<u8>, exhausted: bool, pos: int) -> Result<Option<usize>, AlliumError> {
    match next_pos(bytes, exhausted, pos) {
        Ok(p) => Ok(Some(p)),
        Err(AlliumError::Eof) => Ok(None),
        Err(e) => Err(e),
    }
}

impl UTF8File {
    pub closed spec fn spec_inner(&self) -> File {
        self.inner
    }

    /// The scalar layer over a byte cache.
    pub fn from(value: CachedReadFile) -> (r: UTF8File)
        ensures
            r.spec_inner().bytes() == value.bytes(),
            r.spec_inner().spec_exhausted() == value.spec_exhausted(),
            r.spec_inner().spec_id() == value.spec_id(),
    {
        UTF8File { inner: File::from_bytes(value) }
    }

    /// The scalar at `cursor` and the cursor after it, `None` at the end of the input; an error
    /// for a cursor of another file.
    pub fn deref<'a>(&'a self, cursor: &UTF8Cursor<'a>) -> (r: Result<(Option<UTF8Cursor<'a>>, char), AlliumError>)
        ensures
            !same_file(cursor.spec_inner().spec_file(), self.spec_inner()) ==> r == Err::<
                (Option<UTF8Cursor<'a>>, char),
                AlliumError,
            >(AlliumError::ForeignCursor),
            same_file(cursor.spec_inner().spec_file(), self.spec_inner()) ==> {
                let bytes = self.spec_inner().bytes();
                let ex = self.spec_inner().spec_exhausted();
                let pos = cursor.spec_inner().spec_pos() as int;
                match decode_spec(bytes, pos, ex) {
                    Err(e) => r == Err::<(Option<UTF8Cursor<'a>>, char), AlliumError>(e),
                    Ok((n, c)) => match next_or_end(bytes, ex, pos) {
                        Ok(Some(p)) => r matches Ok((Some(nc), d)) && d == c && nc.spec_inner().spec_pos() == p
                            && nc.spec_inner().spec_file() == cursor.spec_inner().spec_file(),
                        Ok(None) => r == Ok::<(Option<UTF8Cursor<'a>>, char), AlliumError>((None, c)),
                        Err(e) => r == Err::<(Option<UTF8Cursor<'a>>, char), AlliumError>(e),
                    },
                }
            },
    {
        if !cursor.inner.file().same_source(&self.inner) {
            return Err(AlliumError::ForeignCursor);
        }
        let c = cursor.data()?;
        let next = cursor.next()?;
        Ok((next, c))
    }

    /// The cursor at the first scalar, past a leading byte-order mark; `None` for an input that
    /// holds nothing else.
    pub fn start<'a>(&'a self) -> (r: Result<Option<UTF8Cursor<'a>>, AlliumError>)
        ensures
            ({
                let bytes = self.spec_inner().bytes();
                let ex = self.spec_inner().spec_exhausted();
                if bytes.len() == 0 && ex {
                    r == Ok::<Option<UTF8Cursor<'a>>, AlliumError>(None)
                } else {
                    match decode_spec(bytes, 0, ex) {
                        Err(e) => r == Err::<Option<UTF8Cursor<'a>>, AlliumError>(e),
                        Ok((n, c)) => if c == '\u{FEFF}' {
                            match next_or_end(bytes, ex, 0) {
                                Ok(Some(p)) => r matches Ok(Some(first)) && first.spec_inner().spec_pos() == p
                                    && first.spec_inner().spec_file() == self.spec_inner(),
                                Ok(None) => r == Ok::<Option<UTF8Cursor<'a>>, AlliumError>(None),
                                Err(e) => r == Err::<Option<UTF8Cursor<'a>>, AlliumError>(e),
                            }
                        } else {
                            r matches Ok(Some(first)) && first.spec_inner().spec_pos() == 0
                                && first.spec_inner().spec_file() == self.spec_inner()
                        },
                    }
                }
            }),
    {
        if self.inner.len() == 0 && self.inner.is_exhausted() {
            return Ok(None);
        }
        let (_, c) = self.inner.char_at(0)?;
        let start = match self.inner.cursor(0) {
            Some(s) => UTF8Cursor { inner: s },
            None => {
                return Err(AlliumError::Eof);
            },
        };
        if c == '\u{FEFF}' {
            start.next()
        } else {
            Ok(Some(start))
        }
    }
}

impl<'a> UTF8Cursor<'a> {
    pub closed spec fn spec_inner(&self) -> Cursor<'a> {
        self.inner
    }

    /// The scalar under the cursor.
    pub fn data(&self) -> (r: Result<char, AlliumError>)
        ensures
            self.spec_inner().spec_pos() < self.spec_inner().spec_file().bytes().len() <= usize::MAX,
            match decode_spec(
                self.spec_inner().spec_file().bytes(),
                self.spec_inner().spec_pos() as int,
                self.spec_inner().spec_file().spec_exhausted(),
            ) {
                Ok((n, c)) => r == Ok::<char, AlliumError>(c),
                Err(e) => r == Err::<char, AlliumError>(e),
            },
    {
        let _ = self.inner.pos();
        self.inner.char()
    }

    /// The cursor at the next scalar; `None` where this is the last one.
    pub fn next(&self) -> (r: Result<Option<UTF8Cursor<'a>>, AlliumError>)
        ensures
            match next_or_end(
                self.spec_inner().spec_file().bytes(),
                self.spec_inner().spec_file().spec_exhausted(),
                self.spec_inner().spec_pos() as int,
            ) {
                Ok(Some(p)) => r matches Ok(Some(nc)) && nc.spec_inner().spec_pos() == p
                    && nc.spec_inner().spec_file() == self.spec_inner().spec_file(),
                Ok(None) => r == Ok::<Option<UTF8Cursor<'a>>, AlliumError>(None),
                Err(e) => r == Err::<Option<UTF8Cursor<'a>>, AlliumError>(e),
            },
    {
        match self.inner.next() {
            Ok(c) => Ok(Some(UTF8Cursor { inner: c })),
            Err(AlliumError::Eof) => Ok(None),
            Err(e) => Err(e),
        }
    }

    /// The span from this cursor through `other`, which must not stand before it.
    pub fn span_to(&self, other: &UTF8Cursor<'a>) -> (r: Result<UTF8Span<'a>, AlliumError>)
        ensures
            !same_file(self.spec_inner().spec_file(), other.spec_inner().spec_file()) ==> r matches Err(
                AlliumError::SpanMismatch(_, _),
            ),
            same_file(self.spec_inner().spec_file(), other.spec_inner().spec_file())
                && self.spec_inner().spec_pos() > other.spec_inner().spec_pos() ==> r == Err::<
                UTF8Span<'a>,
                AlliumError,
            >(AlliumError::NegativeLengthSpan),
            same_file(self.spec_inner().spec_file(), other.spec_inner().spec_file())
                && self.spec_inner().spec_pos() <= other.spec_inner().spec_pos() ==> (r matches Ok(s)
                && s.spec_start() == self.spec_inner() && s.spec_end() == other.spec_inner()),
    {
        if !self.inner.file().same_source(other.inner.file()) {
            return Err(AlliumError::SpanMismatch(String::new(), String::new()));
        }
        if self.inner.pos() > other.inner.pos() {
            return Err(AlliumError::NegativeLengthSpan);
        }
        Ok(UTF8Span { start: self.inner, end: other.inner })
    }
}

impl<'a> UTF8Span<'a> {
    pub closed spec fn spec_start(&self) -> Cursor<'a> {
        self.start
    }

    pub closed spec fn spec_end(&self) -> Cursor<'a> {
        self.end
    }

    /// The scalars that the span holds, in specifications: from the start cursor through the
    /// scalar at the end cursor.
    pub open spec fn spec_data(&self) -> Result<Seq<char>, AlliumError> {
        let f = self.spec_start().spec_file();
        match span_bounds(f.bytes(), f.spec_exhausted(), self.spec_start().spec_pos() as int, self.spec_end().spec_pos() as int) {
            Ok((lo, hi)) => chars_from(f.bytes(), f.spec_exhausted(), lo as int, hi as int),
            Err(e) => Err(e),
        }
    }

    /// The scalars from the start through the end cursor.
    pub fn data(&self) -> (r: Result<Vec<char>, AlliumError>)
        ensures
            same_file(self.spec_start().spec_file(), self.spec_end().spec_file()) ==> match self.spec_data() {
                Ok(cs) => r is Ok && r->Ok_0@ == cs,
                Err(e) => r == Err::<Vec<char>, AlliumError>(e),
            },
    {
        let span = self.start.span_to(&self.end)?;
        span.chars()
    }

    /// The number of scalars in the span.
    pub fn len(&self) -> (r: Result<usize, AlliumError>)
        ensures
            same_file(self.spec_start().spec_file(), self.spec_end().spec_file()) ==> match self.spec_data() {
                Ok(cs) => r == Ok::<usize, AlliumError>(cs.len() as usize),
                Err(e) => r == Err::<usize, AlliumError>(e),
            },
    {
        let cs = self.data()?;
        Ok(cs.len())
    }
}

} // verus!
