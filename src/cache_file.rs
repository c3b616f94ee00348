use vstd::prelude::*;

use crate::error::AlliumError;
use crate::memory_file::{Cursor, Seek};

verus! {

/// Caches the items of an upstream cursor as they are first reached, so that going over them
/// again does not ask the upstream a second time.
pub struct CacheFile<C: Cursor> {
    data: Vec<C::Item>,
    head: Option<C>,
}

/// A position in a `CacheFile`.
#[derive(Debug, Clone, Copy, PartialEq, Eq)]
pub struct CacheCursor {
    pos: usize,
}

impl<C: Cursor> CacheFile<C> where C::Item: Copy {
    /// The items cached so far, in order.
    pub closed spec fn items(&self) -> Seq<C::Item> {
        self.data@
    }

    /// Whether the upstream has no more items.
    pub closed spec fn spec_exhausted(&self) -> bool {
        self.head is None
    }

    /// A cache that reads from `head` on, or an empty stream for `None`.
    pub fn new(head: Option<C>) -> (r: CacheFile<C>)
        ensures
            r.items() == Seq::<C::Item>::empty(),
            r.spec_exhausted() == (head is None),
    {
        CacheFile { data: Vec::new(), head }
    }

    /// Pulls items from the upstream until `len` are cached or it has no more; whether `len`
    /// are cached. Items already cached stay as they are.
    #[verifier::loop_isolation(false)]
    pub fn ensure_len(&mut self, len: usize) -> (r: Result<bool, AlliumError>)
        ensures
            old(self).items().len() <= final(self).items().len(),
            final(self).items().subrange(0, old(self).items().len() as int) == old(self).items(),
            old(self).items().len() >= len ==> final(self).items() == old(self).items() && r
                == Ok::<bool, AlliumError>(true),
            r matches Ok(b) ==> b == (final(self).items().len() >= len),
            r matches Ok(b) && !b ==> final(self).spec_exhausted(),
            old(self).spec_exhausted() && old(self).items().len() < len ==> r == Ok::<bool, AlliumError>(false)
                && final(self).items() == old(self).items() && final(self).spec_exhausted(),
    {
        let ghost before = self.data@;
        let ghost was_exhausted = self.head is None;
        while self.data.len() < len
            invariant
                was_exhausted ==> self.data@ == before && self.head is None,
                before.len() <= self.data@.len(),
                self.data@.subrange(0, before.len() as int) == before,
                before.len() >= len ==> self.data@ == before,
            decreases len - self.data@.len(),
        {
            let h = match &self.head {
                Some(h) => h,
                None => {
                    return Ok(false);
                },
            };
            let item = h.data()?;
            let next = h.seek(Seek::Right(1))?;
            let ghost prev = self.data@;
            self.data.push(item);
            assert(self.data@.subrange(0, before.len() as int) == prev.subrange(0, before.len() as int));
            self.head = next;
        }
        Ok(true)
    }

    /// A cursor at the first item; `None` for an empty stream.
    pub fn head(&mut self) -> (r: Result<Option<CacheCursor>, AlliumError>)
        ensures
            final(self).items().subrange(0, old(self).items().len() as int) == old(self).items(),
            r matches Ok(Some(c)) ==> c.spec_pos() == 0 && final(self).items().len() >= 1,
            r matches Ok(None) ==> final(self).items().len() == 0 && final(self).spec_exhausted(),
            old(self).items().len() >= 1 ==> (r matches Ok(Some(c)) && c.spec_pos() == 0) && final(self).items()
                == old(self).items(),
            old(self).items().len() == 0 && old(self).spec_exhausted() ==> r == Ok::<Option<CacheCursor>, AlliumError>(
                None,
            ),
    {
        if self.ensure_len(1)? {
            Ok(Some(CacheCursor { pos: 0 }))
        } else {
            Ok(None)
        }
    }
}

impl CacheCursor {
    pub closed spec fn spec_pos(&self) -> usize {
        self.pos
    }

    /// The item under the cursor, pulled into the cache where it is not there yet.
    pub fn data<C: Cursor>(&self, file: &mut CacheFile<C>) -> (r: Result<C::Item, AlliumError>) where
        C::Item: Copy,

        ensures
            final(file).items().subrange(0, old(file).items().len() as int) == old(file).items(),
            r matches Ok(v) ==> self.spec_pos() < final(file).items().len() && v
                == final(file).items()[self.spec_pos() as int],
            self.spec_pos() < old(file).items().len() ==> r == Ok::<C::Item, AlliumError>(
                old(file).items()[self.spec_pos() as int],
            ),
            self.spec_pos() >= old(file).items().len() && self.spec_pos() == usize::MAX ==> r == Err::<
                C::Item,
                AlliumError,
            >(AlliumError::SeekOverflow),
            self.spec_pos() >= old(file).items().len() && self.spec_pos() < usize::MAX
                && old(file).spec_exhausted() ==> r == Err::<C::Item, AlliumError>(AlliumError::Eof),
    {
        if self.pos < file.data.len() {
            return Ok(file.data[self.pos]);
        }
        if self.pos == usize::MAX {
            return Err(AlliumError::SeekOverflow);
        }
        if file.ensure_len(self.pos + 1)? {
            Ok(file.data[self.pos])
        } else {
            Err(AlliumError::Eof)
        }
    }

    /// The cursor moved by `op`; `None` where that leaves the stream.
    pub fn seek<C: Cursor>(&self, op: Seek, file: &mut CacheFile<C>) -> (r: Result<Option<CacheCursor>, AlliumError>) where
        C::Item: Copy,

        ensures
            final(file).items().subrange(0, old(file).items().len() as int) == old(file).items(),
            op matches Seek::Left(x) ==> (if x > self.spec_pos() {
                r == Ok::<Option<CacheCursor>, AlliumError>(None)
            } else {
                r matches Ok(Some(c)) && c.spec_pos() == self.spec_pos() - x
            }),
            op matches Seek::Right(x) ==> (r matches Ok(Some(c)) ==> c.spec_pos() == self.spec_pos() + x
                && c.spec_pos() < final(file).items().len()),
            op matches Seek::Right(x) ==> (r matches Ok(None) ==> final(file).spec_exhausted()
                && final(file).items().len() <= self.spec_pos() + x),
            op matches Seek::Right(x) ==> (self.spec_pos() + x >= usize::MAX ==> r == Err::<
                Option<CacheCursor>,
                AlliumError,
            >(AlliumError::SeekOverflow)),
            op matches Seek::Right(x) ==> (self.spec_pos() + x < usize::MAX && self.spec_pos() + x
                >= old(file).items().len() && old(file).spec_exhausted() ==> r == Ok::<
                Option<CacheCursor>,
                AlliumError,
            >(None)),
            op matches Seek::Right(x) ==> (self.spec_pos() + x + 1 <= old(file).items().len() ==> (r matches Ok(
                Some(c),
            ) && c.spec_pos() == self.spec_pos() + x)),
    {
        match op {
            Seek::Left(x) => if x > self.pos {
                Ok(None)
            } else {
                Ok(Some(CacheCursor { pos: self.pos - x }))
            },
            Seek::Right(x) => {
                let _cached = file.data.len();
                let p = match self.pos.checked_add(x) {
                    Some(p) => p,
                    None => {
                        return Err(AlliumError::SeekOverflow);
                    },
                };
                if p < file.data.len() {
                    return Ok(Some(CacheCursor { pos: p }));
                }
                if p == usize::MAX {
                    return Err(AlliumError::SeekOverflow);
                }
                if file.ensure_len(p + 1)? {
                    Ok(Some(CacheCursor { pos: p }))
                } else {
                    Ok(None)
                }
            },
        }
    }
}

} // verus!
