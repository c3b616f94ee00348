use vstd::prelude::*;

use crate::error::AlliumError;
use crate::source::SourceCursor;

verus! {

/// The widest line, in scalars, that a diagnostic shows whole; longer lines are cut to a window
/// of this width around the cursor.
pub const MAX_VIEW_WINDOW: usize = 80;

/// Where the window of `width` scalars starts on a line of `len` scalars whose column `col`
/// is shown: at the line's start while the column lies in the first half of the window, else so
/// that the column sits in the middle, but never so far right that the window runs past the
/// line's end.
pub open spec fn window_start(len: int, col: int, width: int) -> int {
    if len <= width || col <= width / 2 {
        0
    } else if col - width / 2 <= len - width {
        col - width / 2
    } else {
        len - width
    }
}

/// What a diagnostic shows of a position: the file, the line and column, and the text around it.
#[derive(Debug, Clone)]
pub struct ErrorCursor {
    pre: Option<String>,
    post: Option<String>,
    path: String,
    line: Vec<char>,
    virt_pos: usize,
    line_num: usize,
    line_pos: usize,
}

impl ErrorCursor {
    pub closed spec fn spec_path(&self) -> String {
        self.path
    }

    pub closed spec fn spec_pre(&self) -> Option<String> {
        self.pre
    }

    pub closed spec fn spec_post(&self) -> Option<String> {
        self.post
    }

    pub closed spec fn spec_line(&self) -> Seq<char> {
        self.line@
    }

    pub closed spec fn spec_line_num(&self) -> usize {
        self.line_num
    }

    pub closed spec fn spec_line_pos(&self) -> usize {
        self.line_pos
    }

    pub closed spec fn spec_virt_pos(&self) -> usize {
        self.virt_pos
    }

    /// The diagnostic for `cursor` with the default window width.
    pub fn new<'a>(cursor: &SourceCursor<'a>, pre: Option<String>, post: Option<String>) -> (r: Result<
        ErrorCursor,
        AlliumError,
    >)
        ensures
            r is Ok,
            r is Ok ==> r->Ok_0.describes(cursor, MAX_VIEW_WINDOW as int),
            r is Ok ==> r->Ok_0.spec_pre() == pre && r->Ok_0.spec_post() == post,
    {
        ErrorCursor::with_width(cursor, pre, post, MAX_VIEW_WINDOW)
    }

    /// Whether this diagnostic shows `cursor` through a window of `width` scalars.
    pub open spec fn describes<'a>(&self, cursor: &SourceCursor<'a>, width: int) -> bool {
        let file = cursor.spec_file();
        let k = (self.spec_line_num() - 1) as int;
        let start = file.line_starts()[k];
        let content = file.text().subrange(start as int, file.line_end(k) + 1);
        let ws = window_start(content.len() as int, self.spec_line_pos() as int, width);
        &&& self.spec_path() == file.spec_path()
        &&& 1 <= self.spec_line_num() <= file.line_starts().len()
        &&& start <= cursor.spec_pos()
        &&& (k + 1 == file.line_starts().len() || cursor.spec_pos() < file.line_starts()[k + 1])
        &&& self.spec_line_pos() == cursor.spec_pos() - start
        &&& self.spec_virt_pos() == self.spec_line_pos() - ws
        &&& self.spec_line() == content.subrange(
            ws,
            if content.len() <= width {
                content.len() as int
            } else {
                ws + width
            },
        )
    }

    /// The diagnostic for `cursor`, showing at most `width` scalars of its line.
    pub fn with_width<'a>(cursor: &SourceCursor<'a>, pre: Option<String>, post: Option<String>, width: usize) -> (r:
        Result<ErrorCursor, AlliumError>)
        requires
            width > 0,
        ensures
            r is Ok,
            r is Ok ==> r->Ok_0.describes(cursor, width as int),
            r is Ok ==> r->Ok_0.spec_pre() == pre && r->Ok_0.spec_post() == post,
    {
        let file = cursor.file();
        let path = file.path();
        let _total = file.len();
        let k = cursor.line_of()?;
        let line_span = file.line(k)?;
        let start = line_span.start().pos();
        let pos = cursor.pos();
        let line_pos = pos - start;
        let text = line_span.chars();
        let len = text.len();
        let ws: usize = if len <= width || line_pos <= width / 2 {
            0
        } else if line_pos - width / 2 <= len - width {
            line_pos - width / 2
        } else {
            len - width
        };
        let stop: usize = if len <= width {
            len
        } else {
            ws + width
        };
        let mut line: Vec<char> = Vec::new();
        let mut j: usize = ws;
        while j < stop
            invariant
                ws <= j <= stop <= len,
                len == text@.len(),
                line@ == text@.subrange(ws as int, j as int),
            decreases stop - j,
        {
            line.push(text[j]);
            j = j + 1;
            assert(line@ == text@.subrange(ws as int, j as int));
        }
        Ok(ErrorCursor { pre, post, path, line, virt_pos: line_pos - ws, line_num: k + 1, line_pos })
    }

    pub fn path(&self) -> (r: String)
        ensures
            r == self.spec_path(),
    {
        self.path.clone()
    }

    /// The shown text of the line, its line feed included where it has one.
    pub fn line(&self) -> (r: Vec<char>)
        ensures
            r@ == self.spec_line(),
    {
        self.line.clone()
    }

    /// The 1-based number of the line.
    pub fn line_num(&self) -> (r: usize)
        ensures
            r == self.spec_line_num(),
    {
        self.line_num
    }

    /// The 0-based column of the cursor within its line.
    pub fn line_pos(&self) -> (r: usize)
        ensures
            r == self.spec_line_pos(),
    {
        self.line_pos
    }

    /// The column of the cursor within the shown text.
    pub fn virt_pos(&self) -> (r: usize)
        ensures
            r == self.spec_virt_pos(),
    {
        self.virt_pos
    }

    pub fn pre(&self) -> (r: Option<String>)
        ensures
            r == self.spec_pre(),
    {
        self.pre.clone()
    }

    pub fn post(&self) -> (r: Option<String>)
        ensures
            r == self.spec_post(),
    {
        self.post.clone()
    }
}

} // verus!
