use vstd::prelude::*;

use crate::cached_read_file::{CachedReadCursor, CachedReadFile, CachedReadSpan};
use crate::error::AlliumError;
use crate::utf8_file::{UTF8Cursor, UTF8File, UTF8Span};

verus! {

/// A source of items that cursors walk: bytes of a cache, scalars of a decoded file.
pub trait File<'a> {
    type Item;
    type Cursor;

    /// The cursor at the first item; `None` for an empty source.
    fn start(&'a self) -> Result<Option<Self::Cursor>, AlliumError>;
}

/// A cheaply copied position in a `File`.
pub trait Cursor<'a>: Sized {
    type Item;
    type Span;

    /// The item at this position.
    fn data(&self) -> Result<Self::Item, AlliumError>;

    /// The cursor at the next item; `None` where this is the last one.
    fn next(&self) -> Result<Option<Self>, AlliumError>;

    /// The span from this cursor through `other`.
    fn span_to(&self, other: &Self) -> Result<Self::Span, AlliumError>;
}

/// A range of items of a `File`.
pub trait Span<'a> {
    type Item;

    /// The items of the span, in order.
    fn data(&self) -> Result<Vec<Self::Item>, AlliumError>;

    /// The number of items in the span.
    fn len(&self) -> Result<usize, AlliumError>;
}

impl<'a> File<'a> for CachedReadFile {
    type Item = u8;
    type Cursor = CachedReadCursor<'a>;

    fn start(&'a self) -> Result<Option<CachedReadCursor<'a>>, AlliumError> {
        CachedReadFile::start(self)
    }
}

impl<'a> Cursor<'a> for CachedReadCursor<'a> {
    type Item = u8;
    type Span = CachedReadSpan<'a>;

    fn data(&self) -> Result<u8, AlliumError> {
        CachedReadCursor::data(self)
    }

    fn next(&self) -> Result<Option<CachedReadCursor<'a>>, AlliumError> {
        CachedReadCursor::next(self)
    }

    fn span_to(&self, other: &CachedReadCursor<'a>) -> Result<CachedReadSpan<'a>, AlliumError> {
        CachedReadCursor::span_to(self, other)
    }
}

impl<'a> Span<'a> for CachedReadSpan<'a> {
    type Item = u8;

    fn data(&self) -> Result<Vec<u8>, AlliumError> {
        Ok(CachedReadSpan::data(self))
    }

    fn len(&self) -> Result<usize, AlliumError> {
        Ok(CachedReadSpan::len(self))
    }
}

impl<'a> File<'a> for UTF8File {
    type Item = char;
    type Cursor = UTF8Cursor<'a>;

    fn start(&'a self) -> Result<Option<UTF8Cursor<'a>>, AlliumError> {
        UTF8File::start(self)
    }
}

impl<'a> Cursor<'a> for UTF8Cursor<'a> {
    type Item = char;
    type Span = UTF8Span<'a>;

    fn data(&self) -> Result<char, AlliumError> {
        UTF8Cursor::data(self)
    }

    fn next(&self) -> Result<Option<UTF8Cursor<'a>>, AlliumError> {
        UTF8Cursor::next(self)
    }

    fn span_to(&self, other: &UTF8Cursor<'a>) -> Result<UTF8Span<'a>, AlliumError> {
        UTF8Cursor::span_to(self, other)
    }
}

impl<'a> Span<'a> for UTF8Span<'a> {
    type Item = char;

    fn data(&self) -> Result<Vec<char>, AlliumError> {
        UTF8Span::data(self)
    }

    fn len(&self) -> Result<usize, AlliumError> {
        UTF8Span::len(self)
    }
}

} // verus!
