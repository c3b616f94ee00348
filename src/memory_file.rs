use vstd::prelude::*;

use crate::error::AlliumError;

verus! {

/// A move of a cursor by a number of positions.
#[derive(Debug, Clone, Copy, PartialEq, Eq, PartialOrd, Ord)]
pub enum Seek {
    /// Towards the start.
    Left(usize),
    /// Towards the end.
    Right(usize),
}

/// The position that `op` moves `pos` to: `None` where it would pass the start, an error where
/// it would pass the largest position.
pub fn seek_target(pos: usize, op: Seek) -> (r: Result<Option<usize>, AlliumError>)
    ensures
        match op {
            Seek::Left(x) => r == Ok::<Option<usize>, AlliumError>(
                if x > pos {
                    None
                } else {
                    Some((pos - x) as usize)
                },
            ),
            Seek::Right(x) => if pos + x > usize::MAX {
                r == Err::<Option<usize>, AlliumError>(AlliumError::SeekOverflow)
            } else {
                r == Ok::<Option<usize>, AlliumError>(Some((pos + x) as usize))
            },
        },
{
    match op {
        Seek::Left(x) => if x > pos {
            Ok(None)
        } else {
            Ok(Some(pos - x))
        },
        Seek::Right(x) => match pos.checked_add(x) {
            None => Err(AlliumError::SeekOverflow),
            Some(p) => Ok(Some(p)),
        },
    }
}

/// A cheaply copied position in a stream of items.
pub trait Cursor: Sized {
    type Item;

    /// The item at this position.
    fn data(&self) -> Result<Self::Item, AlliumError>;

    /// The cursor moved by `op`; `None` where that leaves the stream.
    fn seek(&self, op: Seek) -> Result<Option<Self>, AlliumError>;

    /// The cursor one item to the right.
    fn next(&self) -> Result<Option<Self>, AlliumError> {
        self.seek(Seek::Right(1))
    }
}

/// A slice held in memory, read through cursors.
pub struct MemoryFile<'a, T> {
    inner: &'a [T],
}

/// A position in a `MemoryFile`: always the index of one of its items.
pub struct MemoryCursor<'a, T> {
    inner: &'a [T],
    pos: usize,
}

impl<'a, T: Copy> MemoryFile<'a, T> {
    pub closed spec fn items(&self) -> Seq<T> {
        self.inner@
    }

    pub fn new(data: &'a [T]) -> (r: MemoryFile<'a, T>)
        ensures
            r.items() == data@,
    {
        MemoryFile { inner: data }
    }

    /// A cursor at the first item; `None` for an empty slice.
    pub fn head(&self) -> (r: Result<Option<MemoryCursor<'a, T>>, AlliumError>)
        ensures
            self.items().len() == 0 ==> r == Ok::<Option<MemoryCursor<'a, T>>, AlliumError>(None),
            self.items().len() > 0 ==> (r matches Ok(Some(c)) && c.items() == self.items()
                && c.spec_pos() == 0),
    {
        if self.inner.len() == 0 {
            Ok(None)
        } else {
            Ok(Some(MemoryCursor { inner: self.inner, pos: 0 }))
        }
    }
}

impl<'a, T> MemoryCursor<'a, T> {
    #[verifier::type_invariant]
    spec fn wf(self) -> bool {
        self.pos < self.inner@.len()
    }
}

impl<'a, T: Copy> MemoryCursor<'a, T> {
    pub closed spec fn items(&self) -> Seq<T> {
        self.inner@
    }

    pub closed spec fn spec_pos(&self) -> usize {
        self.pos
    }

    /// The item under the cursor.
    pub fn data(&self) -> (r: Result<T, AlliumError>)
        ensures
            r == Ok::<T, AlliumError>(self.items()[self.spec_pos() as int]),
    {
        proof {
            use_type_invariant(self);
        }
        Ok(self.inner[self.pos])
    }

    /// The cursor moved by `op`; `None` where that leaves the slice.
    pub fn seek(&self, op: Seek) -> (r: Result<Option<MemoryCursor<'a, T>>, AlliumError>)
        ensures
            match op {
                Seek::Left(x) => if x > self.spec_pos() {
                    r == Ok::<Option<MemoryCursor<'a, T>>, AlliumError>(None)
                } else {
                    r matches Ok(Some(c)) && c.items() == self.items() && c.spec_pos() == self.spec_pos() - x
                },
                Seek::Right(x) => if self.spec_pos() + x > usize::MAX {
                    r == Err::<Option<MemoryCursor<'a, T>>, AlliumError>(AlliumError::SeekOverflow)
                } else if self.spec_pos() + x < self.items().len() {
                    r matches Ok(Some(c)) && c.items() == self.items() && c.spec_pos() == self.spec_pos() + x
                } else {
                    r == Ok::<Option<MemoryCursor<'a, T>>, AlliumError>(None)
                },
            },
    {
        proof {
            use_type_invariant(self);
        }
        match seek_target(self.pos, op)? {
            None => Ok(None),
            Some(p) => if p < self.inner.len() {
                Ok(Some(MemoryCursor { inner: self.inner, pos: p }))
            } else {
                Ok(None)
            },
        }
    }
}

impl<'a, T: Copy> Cursor for MemoryCursor<'a, T> {
    type Item = T;

    fn data(&self) -> Result<T, AlliumError> {
        MemoryCursor::data(self)
    }

    fn seek(&self, op: Seek) -> Result<Option<MemoryCursor<'a, T>>, AlliumError> {
        MemoryCursor::seek(self, op)
    }
}

} // verus!
