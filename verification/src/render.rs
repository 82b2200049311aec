//! Rendering: each frame redraws the whole buffer. Every line is drawn as
//! plain text except the cursor's line, which is drawn as highlighted token
//! spans; the terminal cursor then goes back to the editing position. The
//! frame says exactly what to draw; emitting it to a terminal lives outside
//! this crate.

use vstd::prelude::*;

use crate::editor::Editor;
use crate::highlight::{highlight_line, spans_of, token_spans};

verus! {

/// One screen line: plain text, or the cursor line's highlighted spans.
pub enum RenderLine {
    Plain(Vec<char>),
    Highlighted(Vec<(Vec<char>, bool)>),
}

/// How line `l` must be drawn: highlighted exactly when it is the cursor's
/// line, and then as its token spans; otherwise verbatim.
pub open spec fn rendered_as(rl: RenderLine, l: Seq<char>, is_cursor_line: bool) -> bool {
    match rl {
        RenderLine::Plain(p) => !is_cursor_line && p@ == l,
        RenderLine::Highlighted(sp) => is_cursor_line && spans_of(sp@) == token_spans(l),
    }
}

/// A full redraw: one render line per buffer line, and the position the
/// terminal cursor ends on.
pub struct Frame {
    pub lines: Vec<RenderLine>,
    pub cursor_row: usize,
    pub cursor_col: usize,
}

/// Copy a line's characters.
fn copy_chars(v: &Vec<char>) -> (r: Vec<char>)
    ensures
        r@ == v@,
{
    let mut r: Vec<char> = Vec::new();
    let mut i: usize = 0;
    while i < v.len()
        invariant
            i <= v.len(),
            r@ == v@.take(i as int),
        decreases v.len() - i,
    {
        r.push(v[i]);
        proof {
            assert(v@.take(i + 1) =~= v@.take(i as int).push(v@[i as int]));
        }
        i = i + 1;
    }
    proof {
        assert(v@.take(v@.len() as int) =~= v@);
    }
    r
}

impl Editor {
    /// Compute one frame: every buffer line in order, the cursor's line as
    /// highlighted spans and every other line verbatim, with the cursor
    /// position to restore afterwards.
    pub fn render_frame(&self) -> (f: Frame)
        requires
            self@.wf(),
        ensures
            f.lines@.len() == self@.lines.len(),
            forall|y: int| 0 <= y < f.lines@.len() ==> rendered_as(
                #[trigger] f.lines@[y],
                self@.lines[y],
                y == self@.row,
            ),
            f.cursor_row == self@.row,
            f.cursor_col == self@.col,
    {
        let mut lines: Vec<RenderLine> = Vec::new();
        let mut y: usize = 0;
        while y < self.buffer.len()
            invariant
                y <= self.buffer.len(),
                lines@.len() == y,
                self@.wf(),
                forall|j: int| 0 <= j < y ==> rendered_as(
                    #[trigger] lines@[j],
                    self@.lines[j],
                    j == self@.row,
                ),
            decreases self.buffer.len() - y,
        {
            if y == self.row {
                lines.push(RenderLine::Highlighted(highlight_line(&self.buffer[y])));
            } else {
                lines.push(RenderLine::Plain(copy_chars(&self.buffer[y])));
            }
            y = y + 1;
        }
        Frame { lines, cursor_row: self.row, cursor_col: self.col }
    }
}

} // verus!
