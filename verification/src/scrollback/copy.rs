//! Copying the selection of the scrollback buffer to the clipboard.
use vstd::prelude::*;
use super::{ScrollbackBuffer, BufferState};
use crate::pager::min;
use crate::selection::Selection;
use crate::term::{TermCommand, TermOp, emit, ops};
use crate::text::{push_char, push_chars};

verus! {

/// Text copied from line `start.y + i` of a selection whose last line is
/// `start.y + last`.
pub open spec fn copy_piece(s: BufferState, sel: Selection, i: int, last: int) -> Seq<char> {
    let t = s.text_lines[sel.start.y + i];
    let a = min(sel.start.x as int, t.len() as int);
    let b = min(sel.end.x + 1, t.len() as int);
    if i == 0 && i == last {
        t.subrange(a, b)
    } else if i == 0 {
        t.skip(a) + seq!['\n']
    } else if i == last {
        t.take(b) + seq!['\n']
    } else {
        t + seq!['\n']
    }
}

/// Text copied from the first `k` lines of a selection.
pub open spec fn copy_pieces(s: BufferState, sel: Selection, k: int, last: int) -> Seq<char>
    decreases k,
{
    if k <= 0 {
        seq![]
    } else {
        copy_pieces(s, sel, k - 1, last) + copy_piece(s, sel, k - 1, last)
    }
}

/// Text that copying the selection puts on the clipboard.
pub open spec fn copy_text(s: BufferState, sel: Selection) -> Seq<char> {
    let last = sel.end.y - sel.start.y;
    copy_pieces(s, sel, last + 1, last)
}

/// Commands of a copy: the text to the clipboard, then a flush; nothing
/// without a selection.
pub open spec fn copy_ops(s: BufferState) -> Seq<TermOp> {
    match s.selection {
        Some(sel) => seq![TermOp::CopyToClipboard(copy_text(s, sel)), TermOp::Flush],
        None => seq![],
    }
}

impl ScrollbackBuffer {
    /// Copies the selection to the clipboard, whole characters from its
    /// start to its end, both included.
    pub(crate) fn copy_selection(&self, out: &mut Vec<TermCommand>)
        requires
            self.wf(),
        ensures
            ops(final(out)@) == ops(old(out)@) + copy_ops(self@),
    {
        let ghost s = self@;
        let ghost o0 = ops(out@);
        let sel = match self.selection {
            Some(sel) => sel,
            None => {
                assert(ops(out@) =~= o0 + copy_ops(s));
                return;
            },
        };
        let n = self.lines.len();
        let end_y = if sel.end.y < n - 1 { sel.end.y } else { n - 1 };
        let last_i = end_y - sel.start.y;
        let mut text = String::new();
        let mut i: usize = 0;
        while i < last_i + 1
            invariant
                self.wf(),
                s == self@,
                self@.selection == Some(sel),
                n == s.lines.len(),
                end_y == sel.end.y,
                sel.start.y <= end_y < n,
                last_i == end_y - sel.start.y,
                i <= last_i + 1,
                text@ == copy_pieces(s, sel, i as int, last_i as int),
            decreases last_i + 1 - i,
        {
            let chars = self.text_chars(sel.start.y + i);
            let len = chars.len();
            let a = if sel.start.x < len { sel.start.x } else { len };
            let b = if sel.end.x + 1 < len { sel.end.x + 1 } else { len };
            let ghost before = text@;
            if i == 0 && i == last_i {
                push_chars(&mut text, &chars, a, b);
            } else if i == 0 {
                push_chars(&mut text, &chars, a, len);
                push_char(&mut text, '\n');
            } else if i == last_i {
                push_chars(&mut text, &chars, 0, b);
                push_char(&mut text, '\n');
            } else {
                push_chars(&mut text, &chars, 0, len);
                push_char(&mut text, '\n');
            }
            assert(text@ =~= before + copy_piece(s, sel, i as int, last_i as int));
            i += 1;
        }
        emit(out, TermCommand::CopyToClipboard(text));
        emit(out, TermCommand::Flush);
        assert(ops(out@) =~= o0 + copy_ops(s));
    }
}

} // verus!
