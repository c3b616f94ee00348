use vstd::prelude::*;

use crate::error::AlliumError;
use crate::file::{source_text, File};

verus! {

/// Whether a line starts at offset `i` of `text`: the first scalar, or one that follows a line
/// feed.
pub open spec fn is_line_start(text: Seq<char>, i: int) -> bool {
    0 <= i < text.len() && (i == 0 || text[i - 1] == '\n')
}

/// `lines` lists, in increasing order, exactly the offsets where lines of `text` start.
pub open spec fn indexes_lines(text: Seq<char>, lines: Seq<usize>) -> bool {
    &&& forall|a: int, b: int| 0 <= a < b < lines.len() ==> lines[a] < lines[b]
    &&& forall|k: int| 0 <= k < lines.len() ==> is_line_start(text, #[trigger] lines[k] as int)
    &&& forall|i: int| is_line_start(text, i) ==> exists|k: int| 0 <= k < lines.len() && #[trigger] lines[k] == i
}

/// Whether `pat` stands in `text` at offset `p`.
pub open spec fn window_matches(text: Seq<char>, p: int, pat: Seq<char>) -> bool {
    0 <= p && p + pat.len() <= text.len() && text.subrange(p, p + pat.len()) == pat
}

/// The first offset at or after `p` where `stop` stands and is not escaped, scanning windows of
/// its length one scalar at a time. With `allow_escape`, a backslash at the start of a window
/// suppresses the attempt at the next window, once. `None` where the windows run past the end.
pub open spec fn until_scan(text: Seq<char>, stop: Seq<char>, allow_escape: bool, p: int, escaping: bool) -> Option<int>
    decreases text.len() - p,
{
    if p < 0 || p + stop.len() > text.len() || stop.len() == 0 {
        None
    } else if escaping {
        until_scan(text, stop, allow_escape, p + 1, false)
    } else if window_matches(text, p, stop) {
        Some(p)
    } else {
        until_scan(text, stop, allow_escape, p + 1, allow_escape && text[p] == '\\')
    }
}

/// Scanning for the end of a nested block: each window that holds `open` adds one to `depth`,
/// each that holds `close` takes one away, escaped windows excepted. The result is the offset of
/// the last scalar of the window that brings the depth to zero; `None` where the windows run
/// past the end first.
pub open spec fn block_scan(
    text: Seq<char>,
    open: Seq<char>,
    close: Seq<char>,
    allow_escape: bool,
    p: int,
    depth: int,
    escaping: bool,
) -> Option<int>
    decreases text.len() - p,
{
    if p < 0 || p + open.len() > text.len() || open.len() == 0 {
        None
    } else if escaping {
        block_scan(text, open, close, allow_escape, p + 1, depth, false)
    } else {
        let d = if window_matches(text, p, open) {
            depth + 1
        } else if window_matches(text, p, close) {
            depth - 1
        } else {
            depth
        };
        if d == 0 {
            Some(p + open.len() - 1)
        } else {
            block_scan(text, open, close, allow_escape, p + 1, d, allow_escape && text[p] == '\\')
        }
    }
}

/// A match found by `until_scan` lies at or after where the scan started.
pub proof fn lemma_until_scan_after(text: Seq<char>, stop: Seq<char>, allow_escape: bool, p: int, escaping: bool)
    ensures
        until_scan(text, stop, allow_escape, p, escaping) matches Some(x) ==> p <= x && x + stop.len() <= text.len(),
    decreases text.len() - p,
{
    if !(p < 0 || p + stop.len() > text.len() || stop.len() == 0) {
        if escaping {
            lemma_until_scan_after(text, stop, allow_escape, p + 1, false);
        } else if !window_matches(text, p, stop) {
            lemma_until_scan_after(text, stop, allow_escape, p + 1, allow_escape && text[p] == '\\');
        }
    }
}

/// The end found by `block_scan` is the last scalar of a window at or after where it started.
pub proof fn lemma_block_scan_after(
    text: Seq<char>,
    open: Seq<char>,
    close: Seq<char>,
    allow_escape: bool,
    p: int,
    depth: int,
    escaping: bool,
)
    ensures
        block_scan(text, open, close, allow_escape, p, depth, escaping) matches Some(q) ==> p + open.len() - 1 <= q < text.len(),
    decreases text.len() - p,
{
    if !(p < 0 || p + open.len() > text.len() || open.len() == 0) {
        if escaping {
            lemma_block_scan_after(text, open, close, allow_escape, p + 1, depth, false);
        } else {
            let d = if window_matches(text, p, open) {
                depth + 1
            } else if window_matches(text, p, close) {
                depth - 1
            } else {
                depth
            };
            if d != 0 {
                lemma_block_scan_after(text, open, close, allow_escape, p + 1, d, allow_escape && text[p] == '\\');
            }
        }
    }
}

/// In a strictly increasing sequence of offsets, each entry is at least its index.
pub proof fn lemma_increasing_at_least_index(lines: Seq<usize>, k: int)
    requires
        forall|a: int, b: int| 0 <= a < b < lines.len() ==> lines[a] < lines[b],
        0 <= k < lines.len(),
    ensures
        lines[k] >= k,
    decreases k,
{
    if k > 0 {
        lemma_increasing_at_least_index(lines, k - 1);
    }
}

/// Whether two loaded sources are the same source: the same identity, path and text.
pub open spec fn same_source(a: SourceFile, b: SourceFile) -> bool {
    a.spec_id() == b.spec_id() && a.spec_path()@ == b.spec_path()@ && a.text() == b.text()
}

/// Whether two scalar sequences are equal.
pub fn same_chars(a: &Vec<char>, b: &Vec<char>) -> (r: bool)
    ensures
        r == (a@ == b@),
{
    if a.len() != b.len() {
        return false;
    }
    let mut k: usize = 0;
    while k < a.len()
        invariant
            a@.len() == b@.len(),
            k <= a@.len(),
            forall|j: int| 0 <= j < k ==> a@[j] == b@[j],
        decreases a@.len() - k,
    {
        if a[k] != b[k] {
            return false;
        }
        k = k + 1;
    }
    assert(a@ == b@);
    true
}

/// A source loaded as a sequence of scalar values, with the offsets where its lines start.
#[derive(Debug)]
pub struct SourceFile {
    id: u64,
    path: String,
    chars: Vec<char>,
    idx_lines: Vec<usize>,
}

/// A position in a `SourceFile`: always the offset of one of its scalars.
#[derive(Debug, Clone, Copy)]
pub struct SourceCursor<'a> {
    pos: usize,
    file: &'a SourceFile,
}

/// A range of scalars of one `SourceFile`, from `start` through `end`, both included.
#[derive(Debug, Clone, Copy)]
pub struct SourceSpan<'a> {
    file: &'a SourceFile,
    start: usize,
    end: usize,
}

/// The scalars of a string, in order.
pub fn chars_of(s: &str) -> (r: Vec<char>)
    ensures
        r@ == s@,
{
    let n = s.unicode_len();
    let mut out: Vec<char> = Vec::new();
    let mut k: usize = 0;
    while k < n
        invariant
            n == s@.len(),
            k <= n,
            out@ == s@.subrange(0, k as int),
        decreases n - k,
    {
        out.push(s.get_char(k));
        k = k + 1;
        assert(out@ == s@.subrange(0, k as int));
    }
    assert(s@.subrange(0, n as int) == s@);
    out
}

/// Whether `pat` stands in `text` at offset `p`.
pub fn matches_at(text: &Vec<char>, p: usize, pat: &Vec<char>) -> (r: bool)
    ensures
        r == window_matches(text@, p as int, pat@),
{
    if pat.len() > text.len() || p > text.len() - pat.len() {
        return false;
    }
    let tl = text.len();
    let mut k: usize = 0;
    while k < pat.len()
        invariant
            tl == text@.len(),
            k <= pat@.len(),
            p + pat@.len() <= text@.len(),
            forall|j: int| 0 <= j < k ==> text@[p + j] == pat@[j],
        decreases pat@.len() - k,
    {
        if text[p + k] != pat[k] {
            assert(text@.subrange(p as int, p + pat@.len())[k as int] != pat@[k as int]);
            return false;
        }
        k = k + 1;
    }
    assert(text@.subrange(p as int, p + pat@.len()) == pat@);
    true
}

impl SourceFile {
    #[verifier::type_invariant]
    spec fn wf(self) -> bool {
        &&& indexes_lines(self.chars@, self.idx_lines@)
        &&& self.chars@.len() <= usize::MAX
    }

    /// The scalars of the source.
    pub closed spec fn text(&self) -> Seq<char> {
        self.chars@
    }

    /// The offsets where its lines start, in increasing order.
    pub closed spec fn line_starts(&self) -> Seq<usize> {
        self.idx_lines@
    }

    pub closed spec fn spec_id(&self) -> u64 {
        self.id
    }

    pub closed spec fn spec_path(&self) -> String {
        self.path
    }

    /// The error for a position that lies outside the source.
    pub open spec fn invalid(&self, i: usize) -> AlliumError {
        AlliumError::InvalidPosition(i, self.spec_path(), self.text().len() as usize)
    }

    /// Loads the scalars of a source that the caller names `id`, and indexes its lines.
    pub fn new(id: u64, path: String, chars: Vec<char>) -> (r: SourceFile)
        ensures
            r.text() == chars@,
            r.spec_path() == path,
            r.spec_id() == id,
            indexes_lines(r.text(), r.line_starts()),
    {
        let mut lines: Vec<usize> = Vec::new();
        let mut i: usize = 0;
        while i < chars.len()
            invariant
                i <= chars@.len(),
                forall|a: int, b: int| 0 <= a < b < lines@.len() ==> lines@[a] < lines@[b],
                forall|k: int| 0 <= k < lines@.len() ==> is_line_start(chars@, #[trigger] lines@[k] as int),
                forall|k: int| 0 <= k < lines@.len() ==> #[trigger] lines@[k] < i,
                forall|j: int|
                    0 <= j < i && is_line_start(chars@, j) ==> exists|k: int|
                        0 <= k < lines@.len() && #[trigger] lines@[k] == j,
            decreases chars@.len() - i,
        {
            if i == 0 || chars[i - 1] == '\n' {
                let ghost old_lines = lines@;
                lines.push(i);
                assert forall|j: int| 0 <= j < i + 1 && is_line_start(chars@, j) implies exists|k: int|
                    0 <= k < lines@.len() && #[trigger] lines@[k] == j by {
                    if j == i {
                        assert(lines@[old_lines.len() as int] == j);
                    } else {
                        let k = choose|k: int| 0 <= k < old_lines.len() && #[trigger] old_lines[k] == j;
                        assert(lines@[k] == j);
                    }
                }
            }
            i = i + 1;
        }
        let _n = chars.len();
        SourceFile { id, path, chars, idx_lines: lines }
    }

    /// Loads the text of an exhausted stream, a leading byte-order mark left out.
    pub fn load(id: u64, path: String, file: &File) -> (r: Result<SourceFile, AlliumError>)
        ensures
            match source_text(file.bytes(), file.spec_exhausted()) {
                Ok(t) => r matches Ok(f) && f.text() == t && f.spec_path() == path && f.spec_id() == id,
                Err(e) => r == Err::<SourceFile, AlliumError>(e),
            },
    {
        let chars = file.text()?;
        Ok(SourceFile::new(id, path, chars))
    }

    pub fn id(&self) -> (r: u64)
        ensures
            r == self.spec_id(),
    {
        self.id
    }

    /// Whether `other` is the same source as this one.
    pub fn same_source(&self, other: &SourceFile) -> (r: bool)
        ensures
            r == same_source(*self, *other),
    {
        self.id == other.id && self.path == other.path && same_chars(&self.chars, &other.chars)
    }

    /// A cursor at offset `i`.
    pub fn cursor<'a>(&'a self, i: usize) -> (r: Result<SourceCursor<'a>, AlliumError>)
        ensures
            i < self.text().len() ==> (r matches Ok(c) && c.spec_pos() == i && c.spec_file() == *self),
            i >= self.text().len() ==> r == Err::<SourceCursor<'a>, AlliumError>(self.invalid(i)),
    {
        proof {
            use_type_invariant(self);
        }
        if i < self.chars.len() {
            Ok(SourceCursor { pos: i, file: self })
        } else {
            Err(AlliumError::InvalidPosition(i, self.path.clone(), self.chars.len()))
        }
    }

    /// A cursor at the first scalar.
    pub fn start<'a>(&'a self) -> (r: Result<SourceCursor<'a>, AlliumError>)
        ensures
            self.text().len() > 0 ==> (r matches Ok(c) && c.spec_pos() == 0 && c.spec_file() == *self),
            self.text().len() == 0 ==> r == Err::<SourceCursor<'a>, AlliumError>(self.invalid(0)),
    {
        self.cursor(0)
    }

    /// A cursor at the last scalar.
    pub fn end<'a>(&'a self) -> (r: Result<SourceCursor<'a>, AlliumError>)
        ensures
            self.text().len() > 0 ==> (r matches Ok(c) && c.spec_pos() == self.text().len() - 1
                && c.spec_file() == *self),
            self.text().len() == 0 ==> r == Err::<SourceCursor<'a>, AlliumError>(AlliumError::Eof),
    {
        if self.chars.len() == 0 {
            Err(AlliumError::Eof)
        } else {
            self.cursor(self.chars.len() - 1)
        }
    }

    /// The span from offset `start` through offset `end`.
    pub fn span<'a>(&'a self, start: usize, end: usize) -> (r: Result<SourceSpan<'a>, AlliumError>)
        ensures
            start > end ==> r == Err::<SourceSpan<'a>, AlliumError>(AlliumError::SpanSize(start, end)),
            start <= end && end >= self.text().len() ==> r == Err::<SourceSpan<'a>, AlliumError>(
                self.invalid(end),
            ),
            start <= end < self.text().len() ==> (r matches Ok(s) && s.spec_file() == *self
                && s.spec_start() == start && s.spec_end() == end),
    {
        proof {
            use_type_invariant(self);
        }
        if start > end {
            return Err(AlliumError::SpanSize(start, end));
        }
        if end >= self.chars.len() {
            return Err(AlliumError::InvalidPosition(end, self.path.clone(), self.chars.len()));
        }
        Ok(SourceSpan { file: self, start, end })
    }

    /// The length of the source, in scalar values.
    pub fn len(&self) -> (r: usize)
        ensures
            r == self.text().len(),
    {
        self.chars.len()
    }

    pub fn path(&self) -> (r: String)
        ensures
            r == self.spec_path(),
    {
        self.path.clone()
    }

    /// The line that holds offset `pos`: the index `k` with `line_starts[k] <= pos` and, where
    /// there is a next line, `pos < line_starts[k + 1]`.
    #[verifier::loop_isolation(false)]
    pub fn search_ln(&self, pos: usize) -> (r: Result<usize, AlliumError>)
        ensures
            indexes_lines(self.text(), self.line_starts()),
            pos >= self.text().len() ==> r == Err::<usize, AlliumError>(self.invalid(pos)),
            pos < self.text().len() ==> (r matches Ok(k) && k <= pos && 0 <= k < self.line_starts().len()
                && self.line_starts()[k as int] <= pos && (k + 1 == self.line_starts().len()
                || pos < self.line_starts()[k + 1])),
    {
        proof {
            use_type_invariant(self);
        }
        if pos >= self.chars.len() {
            return Err(AlliumError::InvalidPosition(pos, self.path.clone(), self.chars.len()));
        }
        assert(is_line_start(self.chars@, 0));
        let ghost k0 = choose|k: int| 0 <= k < self.idx_lines@.len() && #[trigger] self.idx_lines@[k] == 0;
        assert(self.idx_lines@[0] == 0) by {
            if k0 > 0 {
                assert(self.idx_lines@[0] < self.idx_lines@[k0]);
            }
        }
        // Invariant: the answer lies in [bot, top].
        let mut bot: usize = 0;
        let mut top: usize = self.idx_lines.len() - 1;
        while bot < top
            invariant
                0 <= bot <= top < self.idx_lines@.len(),
                self.idx_lines@[bot as int] <= pos,
                top + 1 == self.idx_lines@.len() || pos < self.idx_lines@[top + 1],
                forall|a: int, b: int|
                    0 <= a < b < self.idx_lines@.len() ==> self.idx_lines@[a] < self.idx_lines@[b],
            decreases top - bot,
        {
            let mid = bot + (top - bot) / 2 + 1;
            if self.idx_lines[mid] <= pos {
                bot = mid;
            } else {
                top = mid - 1;
            }
        }
        proof {
            lemma_increasing_at_least_index(self.idx_lines@, bot as int);
        }
        Ok(bot)
    }

    /// The offset of the last scalar of line `idx`: the line feed just before the next line's
    /// start, or the source's last scalar for the last line.
    pub open spec fn line_end(&self, idx: int) -> int {
        if idx + 1 < self.line_starts().len() {
            self.line_starts()[idx + 1] - 1
        } else {
            self.text().len() - 1
        }
    }

    /// The span of line `idx`, through its line feed, or through the last scalar of a last line
    /// that has none.
    pub fn line<'a>(&'a self, idx: usize) -> (r: Result<SourceSpan<'a>, AlliumError>)
        ensures
            indexes_lines(self.text(), self.line_starts()),
            idx >= self.line_starts().len() ==> r == Err::<SourceSpan<'a>, AlliumError>(
                AlliumError::Eof,
            ),
            idx < self.line_starts().len() ==> (r matches Ok(s) && s.spec_file() == *self
                && s.spec_start() == self.line_starts()[idx as int] && s.spec_end() == self.line_end(
                idx as int,
            )),
    {
        proof {
            use_type_invariant(self);
        }
        let n = self.idx_lines.len();
        if idx >= n {
            return Err(AlliumError::Eof);
        }
        let c = self.idx_lines[idx];
        assert(is_line_start(self.chars@, self.idx_lines@[idx as int] as int));
        let end = if idx + 1 < n {
            assert(is_line_start(self.chars@, self.idx_lines@[idx + 1] as int));
            assert(self.idx_lines@[idx as int] < self.idx_lines@[idx + 1]);
            self.idx_lines[idx + 1] - 1
        } else {
            self.chars.len() - 1
        };
        Ok(SourceSpan { file: self, start: c, end })
    }
}

impl<'a> SourceCursor<'a> {
    #[verifier::type_invariant]
    spec fn wf(self) -> bool {
        self.file.wf() && self.pos < self.file.chars@.len()
    }

    pub closed spec fn spec_pos(&self) -> usize {
        self.pos
    }

    pub closed spec fn spec_file(&self) -> SourceFile {
        *self.file
    }

    /// The scalar under the cursor, in specifications.
    pub open spec fn spec_char(&self) -> char {
        self.spec_file().text()[self.spec_pos() as int]
    }

    /// The line that holds this cursor.
    pub fn line_of(&self) -> (r: Result<usize, AlliumError>)
        ensures
            indexes_lines(self.spec_file().text(), self.spec_file().line_starts()),
            (r matches Ok(k) && k <= self.spec_pos() && 0 <= k < self.spec_file().line_starts().len()
                && self.spec_file().line_starts()[k as int] <= self.spec_pos() && (k + 1
                == self.spec_file().line_starts().len() || self.spec_pos()
                < self.spec_file().line_starts()[k + 1])),
    {
        proof {
            use_type_invariant(self);
        }
        self.file.search_ln(self.pos)
    }

    /// The cursor one scalar to the right.
    pub fn next(&self) -> (r: Result<SourceCursor<'a>, AlliumError>)
        ensures
            self.spec_pos() + 1 < self.spec_file().text().len() ==> (r matches Ok(c) && c.spec_pos()
                == self.spec_pos() + 1 && c.spec_file() == self.spec_file()),
            self.spec_pos() + 1 >= self.spec_file().text().len() ==> r == Err::<
                SourceCursor<'a>,
                AlliumError,
            >(AlliumError::Eof),
    {
        proof {
            use_type_invariant(self);
        }
        if self.pos + 1 >= self.file.chars.len() {
            return Err(AlliumError::Eof);
        }
        self.file.cursor(self.pos + 1)
    }

    /// The scalar under the cursor.
    pub fn to_char(&self) -> (r: char)
        ensures
            r == self.spec_char(),
    {
        proof {
            use_type_invariant(self);
        }
        self.file.chars[self.pos]
    }

    pub closed spec fn spec_as_span(&self) -> SourceSpan<'a> {
        SourceSpan { file: self.file, start: self.pos, end: self.pos }
    }

    /// The span of length 1 that starts and ends at this cursor.
    pub fn as_span(&self) -> (r: SourceSpan<'a>)
        ensures
            r == self.spec_as_span(),
            r.spec_file() == self.spec_file(),
            r.spec_start() == self.spec_pos(),
            r.spec_end() == self.spec_pos(),
    {
        proof {
            use_type_invariant(self);
        }
        SourceSpan { file: self.file, start: self.pos, end: self.pos }
    }

    /// The span between this cursor and `other`, in whichever order they stand.
    pub fn span_to(&self, other: &SourceCursor<'a>) -> (r: Result<SourceSpan<'a>, AlliumError>)
        ensures
            !same_source(self.spec_file(), other.spec_file()) ==> r == Err::<
                SourceSpan<'a>,
                AlliumError,
            >(AlliumError::SpanMismatch(self.spec_file().spec_path(), other.spec_file().spec_path())),
            same_source(self.spec_file(), other.spec_file()) ==> (r matches Ok(s) && s.spec_file()
                == self.spec_file() && s.spec_start() == (if self.spec_pos() < other.spec_pos() {
                self.spec_pos()
            } else {
                other.spec_pos()
            }) && s.spec_end() == (if self.spec_pos() < other.spec_pos() {
                other.spec_pos()
            } else {
                self.spec_pos()
            })),
            *other == *self ==> (r matches Ok(s) && s.spec_len() == 1),
    {
        proof {
            use_type_invariant(self);
            use_type_invariant(other);
        }
        if !self.file.same_source(other.file) {
            return Err(AlliumError::SpanMismatch(self.file.path.clone(), other.file.path.clone()));
        }
        if self.pos < other.pos {
            Ok(SourceSpan { file: self.file, start: self.pos, end: other.pos })
        } else {
            Ok(SourceSpan { file: self.file, start: other.pos, end: self.pos })
        }
    }

    /// The span that starts at this cursor and runs for `len` scalars.
    pub fn span_for(&self, len: usize) -> (r: Result<SourceSpan<'a>, AlliumError>)
        ensures
            len == 0 ==> r == Err::<SourceSpan<'a>, AlliumError>(AlliumError::ZeroLengthSpan),
            len > 0 && self.spec_pos() + len - 1 > usize::MAX ==> r == Err::<SourceSpan<'a>, AlliumError>(
                AlliumError::SeekOverflow,
            ),
            len > 0 && self.spec_pos() + len - 1 <= usize::MAX && self.spec_pos() + len - 1
                >= self.spec_file().text().len() ==> r == Err::<SourceSpan<'a>, AlliumError>(
                self.spec_file().invalid((self.spec_pos() + len - 1) as usize),
            ),
            len > 0 && self.spec_pos() + len - 1 < self.spec_file().text().len() ==> (r matches Ok(s)
                && s.spec_file() == self.spec_file() && s.spec_start() == self.spec_pos()
                && s.spec_end() == self.spec_pos() + len - 1),
    {
        proof {
            use_type_invariant(self);
        }
        if len == 0 {
            return Err(AlliumError::ZeroLengthSpan);
        }
        match self.pos.checked_add(len - 1) {
            Some(end) => self.file.span(self.pos, end),
            None => Err(AlliumError::SeekOverflow),
        }
    }

    /// The cursor `count` scalars to the left.
    pub fn seek_left(&self, count: usize) -> (r: Result<SourceCursor<'a>, AlliumError>)
        ensures
            count > self.spec_pos() ==> r == Err::<SourceCursor<'a>, AlliumError>(
                AlliumError::SeekOverflow,
            ),
            count <= self.spec_pos() ==> (r matches Ok(c) && c.spec_pos() == self.spec_pos() - count
                && c.spec_file() == self.spec_file()),
    {
        proof {
            use_type_invariant(self);
        }
        match self.pos.checked_sub(count) {
            Some(s) => self.file.cursor(s),
            None => Err(AlliumError::SeekOverflow),
        }
    }

    /// The cursor `count` scalars to the right.
    pub fn seek_right(&self, count: usize) -> (r: Result<SourceCursor<'a>, AlliumError>)
        ensures
            self.spec_pos() + count > usize::MAX ==> r == Err::<SourceCursor<'a>, AlliumError>(
                AlliumError::SeekOverflow,
            ),
            self.spec_pos() + count <= usize::MAX && self.spec_pos() + count
                >= self.spec_file().text().len() ==> r == Err::<SourceCursor<'a>, AlliumError>(
                self.spec_file().invalid((self.spec_pos() + count) as usize),
            ),
            self.spec_pos() + count < self.spec_file().text().len() ==> (r matches Ok(c)
                && c.spec_pos() == self.spec_pos() + count && c.spec_file() == self.spec_file()),
    {
        proof {
            use_type_invariant(self);
        }
        match self.pos.checked_add(count) {
            Some(s) => self.file.cursor(s),
            None => Err(AlliumError::SeekOverflow),
        }
    }

    /// Whether `pattern` stands at this cursor, and the cursor just after it where the source
    /// goes on.
    pub fn lookahead_match(&self, pattern: &str) -> (r: (bool, Option<SourceCursor<'a>>))
        ensures
            r.0 == window_matches(self.spec_file().text(), self.spec_pos() as int, pattern@),
            r.0 && self.spec_pos() + pattern@.len() < self.spec_file().text().len() ==> (r.1 matches Some(c)
                && c.spec_pos() == self.spec_pos() + pattern@.len() && c.spec_file() == self.spec_file()),
            !(r.0 && self.spec_pos() + pattern@.len() < self.spec_file().text().len()) ==> r.1 is None,
    {
        proof {
            use_type_invariant(self);
        }
        let pat = chars_of(pattern);
        if !matches_at(&self.file.chars, self.pos, &pat) {
            return (false, None);
        }
        let e = self.pos + pat.len();
        if e < self.file.chars.len() {
            (true, Some(SourceCursor { pos: e, file: self.file }))
        } else {
            (true, None)
        }
    }

    pub fn file(&self) -> (r: &'a SourceFile)
        ensures
            *r == self.spec_file(),
    {
        self.file
    }

    pub fn pos(&self) -> (r: usize)
        ensures
            r == self.spec_pos(),
            r < self.spec_file().text().len(),
    {
        proof {
            use_type_invariant(self);
        }
        self.pos
    }
}

impl<'a> SourceSpan<'a> {
    #[verifier::type_invariant]
    spec fn wf(self) -> bool {
        self.file.wf() && self.start <= self.end < self.file.chars@.len()
    }

    pub closed spec fn spec_file(&self) -> SourceFile {
        *self.file
    }

    pub closed spec fn spec_start(&self) -> usize {
        self.start
    }

    pub closed spec fn spec_end(&self) -> usize {
        self.end
    }

    /// The scalars that the span covers.
    pub open spec fn spec_chars(&self) -> Seq<char> {
        self.spec_file().text().subrange(self.spec_start() as int, self.spec_end() + 1)
    }

    pub open spec fn spec_len(&self) -> int {
        self.spec_end() - self.spec_start() + 1
    }

    /// The cursor just after the end of the span.
    pub fn next(&self) -> (r: Result<SourceCursor<'a>, AlliumError>)
        ensures
            self.spec_end() + 1 < self.spec_file().text().len() ==> (r matches Ok(c) && c.spec_pos()
                == self.spec_end() + 1 && c.spec_file() == self.spec_file()),
            self.spec_end() + 1 >= self.spec_file().text().len() ==> r == Err::<
                SourceCursor<'a>,
                AlliumError,
            >(AlliumError::Eof),
    {
        self.end().next()
    }

    /// The union of two spans that overlap or touch.
    pub fn merge(&self, other: &SourceSpan<'a>) -> (r: Result<SourceSpan<'a>, AlliumError>)
        ensures
            !same_source(self.spec_file(), other.spec_file()) ==> r == Err::<
                SourceSpan<'a>,
                AlliumError,
            >(AlliumError::SpanMismatch(self.spec_file().spec_path(), other.spec_file().spec_path())),
            same_source(self.spec_file(), other.spec_file()) ==> {
                let lo = if self.spec_start() < other.spec_start() {
                    self.spec_start()
                } else {
                    other.spec_start()
                };
                let hi = if self.spec_end() > other.spec_end() {
                    self.spec_end()
                } else {
                    other.spec_end()
                };
                let gap = if self.spec_start() < other.spec_start() {
                    other.spec_start() - self.spec_end()
                } else {
                    self.spec_start() - other.spec_end()
                };
                &&& gap <= 1 ==> (r matches Ok(s) && s.spec_start() == lo && s.spec_end() == hi
                    && s.spec_file() == (if self.spec_start() < other.spec_start() {
                    if self.spec_end() >= other.spec_end() {
                        self.spec_file()
                    } else {
                        other.spec_file()
                    }
                } else {
                    if other.spec_end() >= self.spec_end() {
                        other.spec_file()
                    } else {
                        self.spec_file()
                    }
                }))
                &&& gap > 1 ==> r == Err::<SourceSpan<'a>, AlliumError>(AlliumError::DiscontinuousSpans)
            },
    {
        proof {
            use_type_invariant(self);
            use_type_invariant(other);
        }
        if !self.file.same_source(other.file) {
            return Err(AlliumError::SpanMismatch(self.file.path.clone(), other.file.path.clone()));
        }
        let (first, second) = if self.start < other.start {
            (self, other)
        } else {
            (other, self)
        };
        if first.end >= second.end {
            return Ok(*first);
        }
        if first.end + 1 >= second.start {
            return Ok(SourceSpan { file: second.file, start: first.start, end: second.end });
        }
        Err(AlliumError::DiscontinuousSpans)
    }

    /// The span with its start moved `count` scalars to the right.
    pub fn shrink_left(&self, count: usize) -> (r: Result<SourceSpan<'a>, AlliumError>)
        ensures
            count > self.spec_len() ==> r == Err::<SourceSpan<'a>, AlliumError>(
                AlliumError::NegativeLengthSpan,
            ),
            count == self.spec_len() ==> r == Err::<SourceSpan<'a>, AlliumError>(
                AlliumError::ZeroLengthSpan,
            ),
            count < self.spec_len() ==> (r matches Ok(s) && s.spec_file() == self.spec_file()
                && s.spec_start() == self.spec_start() + count && s.spec_end() == self.spec_end()),
    {
        proof {
            use_type_invariant(self);
        }
        let len = self.len();
        if count > len {
            return Err(AlliumError::NegativeLengthSpan);
        }
        if count == len {
            return Err(AlliumError::ZeroLengthSpan);
        }
        Ok(SourceSpan { file: self.file, start: self.start + count, end: self.end })
    }

    /// The span with its end moved `count` scalars to the left.
    pub fn shrink_right(&self, count: usize) -> (r: Result<SourceSpan<'a>, AlliumError>)
        ensures
            count > self.spec_len() ==> r == Err::<SourceSpan<'a>, AlliumError>(
                AlliumError::NegativeLengthSpan,
            ),
            count == self.spec_len() ==> r == Err::<SourceSpan<'a>, AlliumError>(
                AlliumError::ZeroLengthSpan,
            ),
            count < self.spec_len() ==> (r matches Ok(s) && s.spec_file() == self.spec_file()
                && s.spec_start() == self.spec_start() && s.spec_end() == self.spec_end() - count),
    {
        proof {
            use_type_invariant(self);
        }
        let len = self.len();
        if count > len {
            return Err(AlliumError::NegativeLengthSpan);
        }
        if count == len {
            return Err(AlliumError::ZeroLengthSpan);
        }
        Ok(SourceSpan { file: self.file, start: self.start, end: self.end - count })
    }

    /// The span moved `count` scalars to the left, its length kept.
    pub fn shift_left(&self, count: usize) -> (r: Result<SourceSpan<'a>, AlliumError>)
        ensures
            count > self.spec_start() ==> r == Err::<SourceSpan<'a>, AlliumError>(
                AlliumError::SeekOverflow,
            ),
            count <= self.spec_start() ==> (r matches Ok(s) && s.spec_file() == self.spec_file()
                && s.spec_start() == self.spec_start() - count && s.spec_end() == self.spec_end()
                - count),
    {
        proof {
            use_type_invariant(self);
        }
        if count > self.start {
            return Err(AlliumError::SeekOverflow);
        }
        Ok(SourceSpan { file: self.file, start: self.start - count, end: self.end - count })
    }

    /// The span moved `count` scalars to the right, its length kept.
    pub fn shift_right(&self, count: usize) -> (r: Result<SourceSpan<'a>, AlliumError>)
        ensures
            self.spec_end() + count > usize::MAX ==> r == Err::<SourceSpan<'a>, AlliumError>(
                AlliumError::SeekOverflow,
            ),
            self.spec_end() + count <= usize::MAX && self.spec_end() + count
                >= self.spec_file().text().len() ==> r == Err::<SourceSpan<'a>, AlliumError>(
                self.spec_file().invalid((self.spec_end() + count) as usize),
            ),
            self.spec_end() + count < self.spec_file().text().len() ==> (r matches Ok(s)
                && s.spec_file() == self.spec_file() && s.spec_start() == self.spec_start() + count
                && s.spec_end() == self.spec_end() + count),
    {
        proof {
            use_type_invariant(self);
        }
        match self.end.checked_add(count) {
            None => Err(AlliumError::SeekOverflow),
            Some(end) => if end >= self.file.chars.len() {
                Err(AlliumError::InvalidPosition(end, self.file.path.clone(), self.file.chars.len()))
            } else {
                Ok(SourceSpan { file: self.file, start: self.start + count, end })
            },
        }
    }

    /// The span with its start moved `count` scalars to the left.
    pub fn grow_left(&self, count: usize) -> (r: Result<SourceSpan<'a>, AlliumError>)
        ensures
            count > self.spec_start() ==> r == Err::<SourceSpan<'a>, AlliumError>(
                AlliumError::SeekOverflow,
            ),
            count <= self.spec_start() ==> (r matches Ok(s) && s.spec_file() == self.spec_file()
                && s.spec_start() == self.spec_start() - count && s.spec_end() == self.spec_end()),
    {
        proof {
            use_type_invariant(self);
        }
        if count > self.start {
            return Err(AlliumError::SeekOverflow);
        }
        Ok(SourceSpan { file: self.file, start: self.start - count, end: self.end })
    }

    /// The span with its end moved `count` scalars to the right.
    pub fn grow_right(&self, count: usize) -> (r: Result<SourceSpan<'a>, AlliumError>)
        ensures
            self.spec_end() + count > usize::MAX ==> r == Err::<SourceSpan<'a>, AlliumError>(
                AlliumError::SeekOverflow,
            ),
            self.spec_end() + count <= usize::MAX && self.spec_end() + count
                >= self.spec_file().text().len() ==> r == Err::<SourceSpan<'a>, AlliumError>(
                self.spec_file().invalid((self.spec_end() + count) as usize),
            ),
            self.spec_end() + count < self.spec_file().text().len() ==> (r matches Ok(s)
                && s.spec_file() == self.spec_file() && s.spec_start() == self.spec_start()
                && s.spec_end() == self.spec_end() + count),
    {
        proof {
            use_type_invariant(self);
        }
        match self.end.checked_add(count) {
            None => Err(AlliumError::SeekOverflow),
            Some(end) => if end >= self.file.chars.len() {
                Err(AlliumError::InvalidPosition(end, self.file.path.clone(), self.file.chars.len()))
            } else {
                Ok(SourceSpan { file: self.file, start: self.start, end })
            },
        }
    }

    /// The length of the span, in scalars.
    pub fn len(&self) -> (r: usize)
        ensures
            r == self.spec_len(),
            self.spec_start() <= self.spec_end() < self.spec_file().text().len(),
    {
        proof {
            use_type_invariant(self);
        }
        self.end - self.start + 1
    }

    /// Whether the span holds exactly the scalars of `test_str`.
    pub fn is_match(&self, test_str: &str) -> (r: bool)
        ensures
            r == (self.spec_chars() == test_str@),
    {
        let pat = chars_of(test_str);
        self.is_match_chars(&pat)
    }

    fn is_match_chars(&self, pat: &Vec<char>) -> (r: bool)
        ensures
            r == (self.spec_chars() == pat@),
    {
        proof {
            use_type_invariant(self);
        }
        if pat.len() != self.end - self.start + 1 {
            return false;
        }
        matches_at(&self.file.chars, self.start, pat)
    }

    /// The span grown to the right through the first unescaped `stop` after its end. Where
    /// none comes before the end of the source, `match_eof` grows it through the last scalar
    /// instead of failing.
    pub fn grow_until(&self, stop: &str, allow_escape: bool, match_eof: bool) -> (r: Result<
        SourceSpan<'a>,
        AlliumError,
    >)
        ensures
            stop@.len() == 0 ==> r == Err::<SourceSpan<'a>, AlliumError>(AlliumError::ZeroLengthMatch),
            stop@.len() > 0 ==> match until_scan(
                self.spec_file().text(),
                stop@,
                allow_escape,
                self.spec_end() + 1,
                false,
            ) {
                Some(p) => (r matches Ok(s) && s.spec_file() == self.spec_file() && s.spec_start()
                    == self.spec_start() && s.spec_end() == p + stop@.len() - 1),
                None => if match_eof {
                    (r matches Ok(s) && s.spec_file() == self.spec_file() && s.spec_start()
                        == self.spec_start() && s.spec_end() == self.spec_file().text().len() - 1)
                } else {
                    r == Err::<SourceSpan<'a>, AlliumError>(AlliumError::Eof)
                },
            },
    {
        let pat = chars_of(stop);
        if pat.len() == 0 {
            return Err(AlliumError::ZeroLengthMatch);
        }
        self.grow_until_pattern(&pat, allow_escape, match_eof)
    }

    #[verifier::loop_isolation(false)]
    fn grow_until_pattern(&self, stop: &Vec<char>, allow_escape: bool, match_eof: bool) -> (r: Result<
        SourceSpan<'a>,
        AlliumError,
    >)
        requires
            stop@.len() > 0,
        ensures
            match until_scan(self.spec_file().text(), stop@, allow_escape, self.spec_end() + 1, false) {
                Some(p) => (r matches Ok(s) && s.spec_file() == self.spec_file() && s.spec_start()
                    == self.spec_start() && s.spec_end() == p + stop@.len() - 1),
                None => if match_eof {
                    (r matches Ok(s) && s.spec_file() == self.spec_file() && s.spec_start()
                        == self.spec_start() && s.spec_end() == self.spec_file().text().len() - 1)
                } else {
                    r == Err::<SourceSpan<'a>, AlliumError>(AlliumError::Eof)
                },
            },
    {
        proof {
            use_type_invariant(self);
        }
        let text = &self.file.chars;
        let ghost goal = until_scan(text@, stop@, allow_escape, self.end + 1, false);
        let len = text.len();
        let mut p: usize = self.end + 1;
        let mut escaping = false;
        while p <= len && stop.len() <= len - p
            invariant
                self.end < p,
                len == text@.len(),
                text@ == self.spec_file().text(),
                stop@.len() > 0,
                until_scan(text@, stop@, allow_escape, p as int, escaping) == goal,
            decreases len - p,
        {
            if escaping {
                escaping = false;
            } else {
                if matches_at(text, p, stop) {
                    return Ok(SourceSpan { file: self.file, start: self.start, end: p + stop.len() - 1 });
                }
                escaping = allow_escape && text[p] == '\\';
            }
            p = p + 1;
        }
        if match_eof {
            Ok(SourceSpan { file: self.file, start: self.start, end: len - 1 })
        } else {
            Err(AlliumError::Eof)
        }
    }

    /// The span, which must hold exactly `open`, grown through the `close` that balances it;
    /// blocks nest, and with `allow_escape` a backslash escapes the pattern that follows it.
    #[verifier::loop_isolation(false)]
    pub fn grow_until_block_end(&self, open: &str, close: &str, allow_escape: bool) -> (r: Result<
        SourceSpan<'a>,
        AlliumError,
    >)
        ensures
            (open@.len() == 0 || close@.len() == 0) ==> r == Err::<SourceSpan<'a>, AlliumError>(
                AlliumError::ZeroLengthMatch,
            ),
            open@.len() > 0 && close@.len() > 0 && open@.len() != close@.len() ==> r == Err::<
                SourceSpan<'a>,
                AlliumError,
            >(AlliumError::BlockPatternLengthMismatch),
            open@.len() > 0 && open@.len() == close@.len() && open@ == close@ ==> r == Err::<
                SourceSpan<'a>,
                AlliumError,
            >(AlliumError::BlockPatternEquivalency),
            open@.len() > 0 && open@.len() == close@.len() && open@ != close@ && self.spec_chars()
                != open@ ==> r == Err::<SourceSpan<'a>, AlliumError>(AlliumError::BadBlockMatch),
            open@.len() > 0 && open@.len() == close@.len() && open@ != close@ && self.spec_chars()
                == open@ ==> match block_scan(
                self.spec_file().text(),
                open@,
                close@,
                allow_escape,
                self.spec_start() + open@.len(),
                1,
                false,
            ) {
                Some(q) => (r matches Ok(s) && s.spec_file() == self.spec_file() && s.spec_start()
                    == self.spec_start() && s.spec_end() == q),
                None => r == Err::<SourceSpan<'a>, AlliumError>(AlliumError::Eof),
            },
    {
        proof {
            use_type_invariant(self);
        }
        let o = chars_of(open);
        let c = chars_of(close);
        if o.len() == 0 || c.len() == 0 {
            return Err(AlliumError::ZeroLengthMatch);
        }
        if o.len() != c.len() {
            return Err(AlliumError::BlockPatternLengthMismatch);
        }
        if o.len() <= c.len() && matches_at(&c, 0, &o) {
            assert(c@.subrange(0, o@.len() as int) == c@);
            return Err(AlliumError::BlockPatternEquivalency);
        }
        assert(c@.subrange(0, o@.len() as int) == c@);
        if !self.is_match_chars(&o) {
            return Err(AlliumError::BadBlockMatch);
        }
        let text = &self.file.chars;
        let len = text.len();
        let l = o.len();
        let ghost goal = block_scan(text@, o@, c@, allow_escape, self.start + l, 1, false);
        let mut p: usize = self.start + l;
        let mut depth: usize = 1;
        let mut escaping = false;
        while p <= len && l <= len - p
            invariant
                self.start < p,
                1 <= depth <= p,
                len == text@.len(),
                text@ == self.spec_file().text(),
                l == o@.len(),
                l == c@.len(),
                l > 0,
                block_scan(text@, o@, c@, allow_escape, p as int, depth as int, escaping) == goal,
            decreases len - p,
        {
            if escaping {
                escaping = false;
            } else {
                if matches_at(text, p, &o) {
                    depth = depth + 1;
                } else if matches_at(text, p, &c) {
                    depth = depth - 1;
                }
                if depth == 0 {
                    return Ok(SourceSpan { file: self.file, start: self.start, end: p + l - 1 });
                }
                escaping = allow_escape && text[p] == '\\';
            }
            p = p + 1;
        }
        Err(AlliumError::Eof)
    }

    /// The scalars that the span covers, in order.
    #[verifier::loop_isolation(false)]
    pub fn chars(&self) -> (r: Vec<char>)
        ensures
            r@ == self.spec_chars(),
    {
        proof {
            use_type_invariant(self);
        }
        let mut out: Vec<char> = Vec::new();
        let mut k: usize = self.start;
        while k <= self.end
            invariant
                self.start <= k <= self.end + 1,
                self.end < self.file.chars@.len(),
                out@ == self.file.chars@.subrange(self.start as int, k as int),
            decreases self.end + 1 - k,
        {
            out.push(self.file.chars[k]);
            k = k + 1;
            assert(out@ == self.file.chars@.subrange(self.start as int, k as int));
        }
        out
    }

    /// A cursor at the first scalar of the span.
    pub fn start(&self) -> (r: SourceCursor<'a>)
        ensures
            r.spec_file() == self.spec_file(),
            r.spec_pos() == self.spec_start(),
    {
        proof {
            use_type_invariant(self);
        }
        SourceCursor { pos: self.start, file: self.file }
    }

    /// A cursor at the last scalar of the span.
    pub fn end(&self) -> (r: SourceCursor<'a>)
        ensures
            r.spec_file() == self.spec_file(),
            r.spec_pos() == self.spec_end(),
    {
        proof {
            use_type_invariant(self);
        }
        SourceCursor { pos: self.end, file: self.file }
    }
}

/// Cursors over scalar values that can test what stands ahead of them.
pub trait CharCursorExt: Sized {
    /// Whether `pattern` stands at the cursor, and the cursor just after it where there is one.
    fn lookahead_match(&self, pattern: &str) -> (bool, Option<Self>);
}

impl<'a> CharCursorExt for SourceCursor<'a> {
    fn lookahead_match(&self, pattern: &str) -> (bool, Option<SourceCursor<'a>>) {
        SourceCursor::lookahead_match(self, pattern)
    }
}

/// The order of two cursors: by position within one source; cursors of different sources are
/// not ordered.
pub open spec fn cursor_order(a: SourceFile, a_pos: usize, b: SourceFile, b_pos: usize) -> Option<core::cmp::Ordering> {
    if !same_source(a, b) {
        None
    } else if a_pos < b_pos {
        Some(core::cmp::Ordering::Less)
    } else if a_pos == b_pos {
        Some(core::cmp::Ordering::Equal)
    } else {
        Some(core::cmp::Ordering::Greater)
    }
}

impl<'a> PartialEq for SourceCursor<'a> {
    fn eq(&self, other: &SourceCursor<'a>) -> (r: bool) {
        self.pos == other.pos && self.file.same_source(other.file)
    }
}

impl<'a> vstd::std_specs::cmp::PartialEqSpecImpl for SourceCursor<'a> {
    open spec fn obeys_eq_spec() -> bool {
        true
    }

    open spec fn eq_spec(&self, other: &SourceCursor<'a>) -> bool {
        same_source(self.spec_file(), other.spec_file()) && self.spec_pos() == other.spec_pos()
    }
}

impl<'a> Eq for SourceCursor<'a> {
}

impl<'a> PartialOrd for SourceCursor<'a> {
    fn partial_cmp(&self, other: &SourceCursor<'a>) -> (r: Option<core::cmp::Ordering>) {
        if !self.file.same_source(other.file) {
            None
        } else if self.pos < other.pos {
            Some(core::cmp::Ordering::Less)
        } else if self.pos == other.pos {
            Some(core::cmp::Ordering::Equal)
        } else {
            Some(core::cmp::Ordering::Greater)
        }
    }
}

impl<'a> vstd::std_specs::cmp::PartialOrdSpecImpl for SourceCursor<'a> {
    open spec fn obeys_partial_cmp_spec() -> bool {
        true
    }

    open spec fn partial_cmp_spec(&self, other: &SourceCursor<'a>) -> Option<core::cmp::Ordering> {
        cursor_order(self.spec_file(), self.spec_pos(), other.spec_file(), other.spec_pos())
    }
}

/// Cursors of two different sources are never equal and never ordered, whichever way round
/// they are compared.
pub proof fn lemma_sources_do_not_mix<'a>(a: SourceCursor<'a>, b: SourceCursor<'a>)
    requires
        !same_source(a.spec_file(), b.spec_file()),
    ensures
        cursor_order(a.spec_file(), a.spec_pos(), b.spec_file(), b.spec_pos()) is None,
        cursor_order(b.spec_file(), b.spec_pos(), a.spec_file(), a.spec_pos()) is None,
{
}

} // verus!
