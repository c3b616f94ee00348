use vstd::prelude::*;

use crate::error::AlliumError;

verus! {

/// The most bytes that one read of the underlying stream hands to the buffer.
pub const CHUNK_SIZE: usize = 4096;

/// An append-only cache of the bytes that a stream has produced so far.
///
/// The stream itself is read by the caller, one chunk at a time, for as long as `wants` says
/// that more bytes are needed; each chunk is handed over with `absorb`, and an empty chunk
/// marks the end of the stream. Bytes once absorbed never change.
#[derive(Debug)]
pub struct CachedReadFile {
    id: u64,
    data: Vec<u8>,
    exhausted: bool,
}

/// A position in a `CachedReadFile`: always the offset of a resident byte.
#[derive(Debug, Clone, Copy)]
pub struct CachedReadCursor<'a> {
    file: &'a CachedReadFile,
    pos: usize,
}

/// A non-empty range of resident bytes, from `pos` up to but not including `end`.
#[derive(Debug, Clone, Copy)]
pub struct CachedReadSpan<'a> {
    file: &'a CachedReadFile,
    pos: usize,
    end: usize,
}

/// Whether two caches stand for the same source: the same identity, the same bytes and the same
/// knowledge of the stream's end.
pub open spec fn same_cache(a: CachedReadFile, b: CachedReadFile) -> bool {
    a.spec_id() == b.spec_id() && a.bytes() == b.bytes() && a.spec_exhausted() == b.spec_exhausted()
}

/// Whether two byte sequences are equal.
pub fn same_bytes(a: &Vec<u8>, b: &Vec<u8>) -> (r: bool)
    ensures
        r == (a@ == b@),
{
    if a.len() != b.len() {
        return false;
    }
    let mut k: usize = 0;
    while k < a.len()
        invariant
            a@.len() == b@.len(),
            k <= a@.len(),
            forall|j: int| 0 <= j < k ==> a@[j] == b@[j],
        decreases a@.len() - k,
    {
        if a[k] != b[k] {
            return false;
        }
        k = k + 1;
    }
    assert(a@ == b@);
    true
}

impl CachedReadFile {
    /// The bytes that are resident.
    pub closed spec fn bytes(&self) -> Seq<u8> {
        self.data@
    }

    /// Whether the stream has said that it holds no more bytes.
    pub closed spec fn spec_exhausted(&self) -> bool {
        self.exhausted
    }

    pub closed spec fn spec_id(&self) -> u64 {
        self.id
    }

    /// An empty cache for the stream that the caller names `id`.
    pub fn new(id: u64) -> (r: CachedReadFile)
        ensures
            r.bytes() == Seq::<u8>::empty(),
            !r.spec_exhausted(),
            r.spec_id() == id,
    {
        CachedReadFile { id, data: Vec::new(), exhausted: false }
    }

    pub fn id(&self) -> (r: u64)
        ensures
            r == self.spec_id(),
    {
        self.id
    }

    /// The number of resident bytes; the stream may still hold more.
    pub fn len(&self) -> (r: usize)
        ensures
            r == self.bytes().len(),
    {
        self.data.len()
    }

    pub fn is_exhausted(&self) -> (r: bool)
        ensures
            r == self.spec_exhausted(),
    {
        self.exhausted
    }

    /// Whether another chunk must be read before `len` bytes can be resident.
    pub fn wants(&self, len: usize) -> (r: bool)
        ensures
            r == (!self.spec_exhausted() && self.bytes().len() < len),
    {
        !self.exhausted && self.data.len() < len
    }

    /// Appends one chunk read from the stream; an empty chunk says that the stream is exhausted.
    pub fn absorb(&mut self, chunk: &[u8])
        requires
            chunk@.len() <= CHUNK_SIZE,
            !old(self).spec_exhausted(),
        ensures
            final(self).bytes() == old(self).bytes() + chunk@,
            final(self).spec_exhausted() == (chunk@.len() == 0),
            final(self).spec_id() == old(self).spec_id(),
    {
        if chunk.len() == 0 {
            self.exhausted = true;
            return;
        }
        let ghost before = self.data@;
        let ghost id = self.id;
        let mut k: usize = 0;
        while k < chunk.len()
            invariant
                k <= chunk@.len(),
                self.data@ == before + chunk@.subrange(0, k as int),
                !self.exhausted,
                self.id == id,
            decreases chunk@.len() - k,
        {
            self.data.push(chunk[k]);
            k = k + 1;
            assert(self.data@ == before + chunk@.subrange(0, k as int));
        }
        assert(chunk@.subrange(0, chunk@.len() as int) == chunk@);
    }

    /// The resident bytes.
    pub fn as_bytes(&self) -> (r: &Vec<u8>)
        ensures
            r@ == self.bytes(),
    {
        &self.data
    }

    /// Whether at least `len` bytes are resident.
    pub fn ensure_len(&self, len: usize) -> (r: bool)
        ensures
            r == (self.bytes().len() >= len),
    {
        self.data.len() >= len
    }

    /// The byte at `idx`, if it is resident.
    pub fn get(&self, idx: usize) -> (r: Option<u8>)
        ensures
            r == (if idx < self.bytes().len() {
                Some(self.bytes()[idx as int])
            } else {
                None::<u8>
            }),
    {
        if idx < self.data.len() {
            Some(self.data[idx])
        } else {
            None
        }
    }

    /// Whether `other` stands for the same source as this cache.
    pub fn same_source(&self, other: &CachedReadFile) -> (r: bool)
        ensures
            r == same_cache(*self, *other),
    {
        self.id == other.id && self.exhausted == other.exhausted && same_bytes(&self.data, &other.data)
    }

    /// A cursor at the first byte; `None` for a stream that was empty.
    pub fn start<'a>(&'a self) -> (r: Result<Option<CachedReadCursor<'a>>, AlliumError>)
        ensures
            self.bytes().len() > 0 ==> (r matches Ok(Some(c)) && c.spec_file() == *self && c.spec_pos() == 0),
            self.bytes().len() == 0 && self.spec_exhausted() ==> r == Ok::<
                Option<CachedReadCursor<'a>>,
                AlliumError,
            >(None),
            self.bytes().len() == 0 && !self.spec_exhausted() ==> r == Err::<
                Option<CachedReadCursor<'a>>,
                AlliumError,
            >(AlliumError::Pending(0)),
    {
        if self.data.len() > 0 {
            Ok(Some(CachedReadCursor { file: self, pos: 0 }))
        } else if self.exhausted {
            Ok(None)
        } else {
            Err(AlliumError::Pending(0))
        }
    }
}

impl<'a> CachedReadCursor<'a> {
    #[verifier::type_invariant]
    spec fn wf(self) -> bool {
        self.pos < self.file.data@.len()
    }

    pub closed spec fn spec_file(&self) -> CachedReadFile {
        *self.file
    }

    pub closed spec fn spec_pos(&self) -> usize {
        self.pos
    }

    pub fn pos(&self) -> (r: usize)
        ensures
            r == self.spec_pos(),
            r < self.spec_file().bytes().len(),
    {
        proof {
            use_type_invariant(self);
        }
        self.pos
    }

    /// The byte under the cursor.
    pub fn data(&self) -> (r: Result<u8, AlliumError>)
        ensures
            r == Ok::<u8, AlliumError>(self.spec_file().bytes()[self.spec_pos() as int]),
    {
        proof {
            use_type_invariant(self);
        }
        Ok(self.file.data[self.pos])
    }

    /// The cursor one byte to the right, or `None` where this is the stream's last byte.
    pub fn next(&self) -> (r: Result<Option<CachedReadCursor<'a>>, AlliumError>)
        ensures
            self.spec_pos() + 1 < self.spec_file().bytes().len() ==> (r matches Ok(Some(c))
                && c.spec_file() == self.spec_file() && c.spec_pos() == self.spec_pos() + 1),
            self.spec_pos() + 1 >= self.spec_file().bytes().len() && self.spec_file().spec_exhausted()
                ==> r == Ok::<Option<CachedReadCursor<'a>>, AlliumError>(None),
            self.spec_pos() + 1 >= self.spec_file().bytes().len() && !self.spec_file().spec_exhausted()
                ==> r == Err::<Option<CachedReadCursor<'a>>, AlliumError>(
                AlliumError::Pending(self.spec_file().bytes().len() as usize),
            ),
    {
        proof {
            use_type_invariant(self);
        }
        let len = self.file.data.len();
        if len - self.pos >= 2 {
            Ok(Some(CachedReadCursor { file: self.file, pos: self.pos + 1 }))
        } else if self.file.exhausted {
            Ok(None)
        } else {
            Err(AlliumError::Pending(len))
        }
    }

    /// The span from this cursor through `other`, both included.
    pub fn span_to(&self, other: &CachedReadCursor<'a>) -> (r: Result<CachedReadSpan<'a>, AlliumError>)
        ensures
            !same_cache(self.spec_file(), other.spec_file()) ==> r matches Err(
                AlliumError::SpanMismatch(_, _),
            ),
            same_cache(self.spec_file(), other.spec_file()) && self.spec_pos() > other.spec_pos() ==> r
                == Err::<CachedReadSpan<'a>, AlliumError>(AlliumError::NegativeLengthSpan),
            same_cache(self.spec_file(), other.spec_file()) && self.spec_pos() <= other.spec_pos() ==> (r matches Ok(s)
                && s.spec_file() == self.spec_file() && s.spec_pos() == self.spec_pos()
                && s.spec_end() == other.spec_pos() + 1),
    {
        proof {
            use_type_invariant(self);
            use_type_invariant(other);
        }
        if !self.file.same_source(other.file) {
            return Err(AlliumError::SpanMismatch(String::new(), String::new()));
        }
        if self.pos > other.pos {
            return Err(AlliumError::NegativeLengthSpan);
        }
        let _len = self.file.data.len();
        Ok(CachedReadSpan { file: self.file, pos: self.pos, end: other.pos + 1 })
    }
}

impl<'a> PartialEq for CachedReadCursor<'a> {
    fn eq(&self, other: &CachedReadCursor<'a>) -> (r: bool) {
        self.pos == other.pos && self.file.same_source(other.file)
    }
}

impl<'a> vstd::std_specs::cmp::PartialEqSpecImpl for CachedReadCursor<'a> {
    open spec fn obeys_eq_spec() -> bool {
        true
    }

    open spec fn eq_spec(&self, other: &CachedReadCursor<'a>) -> bool {
        self.spec_pos() == other.spec_pos() && same_cache(self.spec_file(), other.spec_file())
    }
}

impl<'a> Eq for CachedReadCursor<'a> {
}

impl<'a> PartialOrd for CachedReadCursor<'a> {
    fn partial_cmp(&self, other: &CachedReadCursor<'a>) -> (r: Option<core::cmp::Ordering>) {
        if !self.file.same_source(other.file) {
            None
        } else if self.pos < other.pos {
            Some(core::cmp::Ordering::Less)
        } else if self.pos == other.pos {
            Some(core::cmp::Ordering::Equal)
        } else {
            Some(core::cmp::Ordering::Greater)
        }
    }
}

impl<'a> vstd::std_specs::cmp::PartialOrdSpecImpl for CachedReadCursor<'a> {
    open spec fn obeys_partial_cmp_spec() -> bool {
        true
    }

    open spec fn partial_cmp_spec(&self, other: &CachedReadCursor<'a>) -> Option<core::cmp::Ordering> {
        if !same_cache(self.spec_file(), other.spec_file()) {
            None
        } else if self.spec_pos() < other.spec_pos() {
            Some(core::cmp::Ordering::Less)
        } else if self.spec_pos() == other.spec_pos() {
            Some(core::cmp::Ordering::Equal)
        } else {
            Some(core::cmp::Ordering::Greater)
        }
    }
}

impl<'a> CachedReadSpan<'a> {
    #[verifier::type_invariant]
    spec fn wf(self) -> bool {
        self.pos < self.end <= self.file.data@.len()
    }

    pub closed spec fn spec_file(&self) -> CachedReadFile {
        *self.file
    }

    pub closed spec fn spec_pos(&self) -> usize {
        self.pos
    }

    pub closed spec fn spec_end(&self) -> usize {
        self.end
    }

    /// The number of bytes in the span.
    pub fn len(&self) -> (r: usize)
        ensures
            r == self.spec_end() - self.spec_pos(),
            0 < r,
            self.spec_end() <= self.spec_file().bytes().len(),
    {
        proof {
            use_type_invariant(self);
        }
        self.end - self.pos
    }

    /// The bytes that the span covers.
    pub fn data(&self) -> (r: Vec<u8>)
        ensures
            r@ == self.spec_file().bytes().subrange(self.spec_pos() as int, self.spec_end() as int),
    {
        proof {
            use_type_invariant(self);
        }
        let mut out: Vec<u8> = Vec::new();
        let mut k: usize = self.pos;
        while k < self.end
            invariant
                self.pos <= k <= self.end <= self.file.data@.len(),
                out@ == self.file.data@.subrange(self.pos as int, k as int),
            decreases self.end - k,
        {
            out.push(self.file.data[k]);
            k = k + 1;
            assert(out@ == self.file.data@.subrange(self.pos as int, k as int));
        }
        out
    }
}

impl<'a> PartialEq for CachedReadSpan<'a> {
    fn eq(&self, other: &CachedReadSpan<'a>) -> (r: bool) {
        self.pos == other.pos && self.end == other.end && self.file.same_source(other.file)
    }
}

impl<'a> vstd::std_specs::cmp::PartialEqSpecImpl for CachedReadSpan<'a> {
    open spec fn obeys_eq_spec() -> bool {
        true
    }

    open spec fn eq_spec(&self, other: &CachedReadSpan<'a>) -> bool {
        self.spec_pos() == other.spec_pos() && self.spec_end() == other.spec_end() && same_cache(
            self.spec_file(),
            other.spec_file(),
        )
    }
}

impl<'a> Eq for CachedReadSpan<'a> {
}

} // verus!
