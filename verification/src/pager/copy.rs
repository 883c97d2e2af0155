//! The visual selection: following the cursor, and copying its text.
use vstd::prelude::*;
use super::{Pager, PagerState, line_text, min, max_text_len};
use super::rendering::chars_range;
use crate::selection::{Selection, SelectedEnd, Vec2, expanded, lemma_expand_follows_cursor};
use crate::term::{TermCommand, TermOp, emit, ops};
use crate::text::{push_char, push_chars, push_str, string_from_chars};

verus! {

/// The selection of the pager once brought to its cursor.
pub open spec fn expand_opt(s: PagerState) -> Option<Selection> {
    match s.selection {
        Some(sel) => Some(expanded(sel, s.cursor_x, s.logical_y)),
        None => None,
    }
}

/// Text copied from line `start.y + i` of a selection whose last line is
/// `start.y + last`: a line selected whole is copied raw, escape codes
/// included; the first and last lines are cut at the selected columns of
/// the text without escape codes.
pub open spec fn copy_piece(s: PagerState, sel: Selection, i: int, last: int) -> Seq<char> {
    let t = line_text(s, sel.start.y + i);
    let a = min(sel.start.x as int, t.len() as int);
    let b = min(sel.end.x + 1, t.len() as int);
    if i == 0 && i == last {
        t.subrange(a, b)
    } else if i == 0 {
        t.skip(a) + seq!['\n']
    } else if i == last {
        t.take(b) + seq!['\n']
    } else {
        s.lines[sel.start.y + i].raw_text() + seq!['\n']
    }
}

/// Text copied from the first `k` lines of a selection.
pub open spec fn copy_pieces(s: PagerState, sel: Selection, k: int, last: int) -> Seq<char>
    decreases k,
{
    if k <= 0 {
        seq![]
    } else {
        copy_pieces(s, sel, k - 1, last) + copy_piece(s, sel, k - 1, last)
    }
}

/// Text that copying the selection puts on the clipboard, in whole
/// characters: one character when both ends are the same; else from `start`
/// to `end` included, on one line without a newline, over several lines with
/// each line ended by a newline.
pub open spec fn copy_text(s: PagerState, sel: Selection) -> Seq<char> {
    if sel.start == sel.end {
        chars_range(line_text(s, sel.start.y as int), sel.start.x as int, sel.start.x + 1)
    } else {
        let last = min(sel.end.y as int, s.lines.len() - 1) - sel.start.y;
        copy_pieces(s, sel, last + 1, last)
    }
}

/// Commands of a copy: the text to the clipboard, then a flush; nothing
/// without a selection.
pub open spec fn copy_ops(s: PagerState) -> Seq<TermOp> {
    match s.selection {
        Some(sel) => seq![TermOp::CopyToClipboard(copy_text(s, sel)), TermOp::Flush],
        None => seq![],
    }
}

/// The first piece of a selection leads the text of its first `k` lines.
proof fn lemma_pieces_lead(s: PagerState, sel: Selection, k: int, last: int)
    requires
        k >= 1,
    ensures
        copy_pieces(s, sel, k, last).len() >= copy_piece(s, sel, 0, last).len(),
        copy_pieces(s, sel, k, last).subrange(0, copy_piece(s, sel, 0, last).len() as int)
            == copy_piece(s, sel, 0, last),
    decreases k,
{
    let p0 = copy_piece(s, sel, 0, last);
    if k == 1 {
        assert(copy_pieces(s, sel, 0, last) == Seq::<char>::empty());
        assert(copy_pieces(s, sel, 1, last) =~= p0);
    } else {
        lemma_pieces_lead(s, sel, k - 1, last);
        let a = copy_pieces(s, sel, k - 1, last);
        let b = copy_piece(s, sel, k - 1, last);
        assert((a + b).subrange(0, p0.len() as int) =~= a.subrange(0, p0.len() as int));
    }
}

/// Copying a selection over several lines: the clipboard text begins with
/// the first line from the selected start column to its end, then a newline,
/// and ends with the last line up to the selected end column included (held
/// to the line's length), then a newline; nothing after the end column of
/// the last line is copied.
pub proof fn lemma_copy_multiline_ends(s: PagerState, sel: Selection)
    requires
        s.selection == Some(sel),
        sel.start.y < sel.end.y < s.lines.len(),
    ensures
        ({
            let first = line_text(s, sel.start.y as int);
            let lastl = line_text(s, sel.end.y as int);
            let head = first.skip(min(sel.start.x as int, first.len() as int)) + seq!['\n'];
            let tail = lastl.take(min(sel.end.x + 1, lastl.len() as int)) + seq!['\n'];
            copy_ops(s).len() == 2 && copy_ops(s)[1] == TermOp::Flush && match copy_ops(s)[0] {
                TermOp::CopyToClipboard(c) => c.len() >= head.len() + tail.len() && c.subrange(
                    0,
                    head.len() as int,
                ) == head && c.subrange(c.len() - tail.len(), c.len() as int) == tail,
                _ => false,
            }
        }),
{
    let last = sel.end.y - sel.start.y;
    let c = copy_text(s, sel);
    assert(min(sel.end.y as int, s.lines.len() - 1) == sel.end.y);
    let rest = copy_pieces(s, sel, last, last);
    let p = copy_piece(s, sel, last, last);
    assert(c == rest + p);
    lemma_pieces_lead(s, sel, last, last);
    let head = copy_piece(s, sel, 0, last);
    assert(c.subrange(0, head.len() as int) =~= rest.subrange(0, head.len() as int));
    assert(c.subrange(c.len() - p.len(), c.len() as int) =~= p);
}

/// Copying a selection within one line, with distinct ends: the clipboard
/// text is that line from the start column to the end column included, each
/// held to the line's length, with no newline.
pub proof fn lemma_copy_single_line(s: PagerState, sel: Selection)
    requires
        s.selection == Some(sel),
        sel.start.y == sel.end.y < s.lines.len(),
        sel.start.x != sel.end.x,
    ensures
        ({
            let t = line_text(s, sel.start.y as int);
            copy_ops(s) == seq![
                TermOp::CopyToClipboard(
                    t.subrange(min(sel.start.x as int, t.len() as int), min(sel.end.x + 1, t.len() as int)),
                ),
                TermOp::Flush,
            ]
        }),
{
    assert(min(sel.end.y as int, s.lines.len() - 1) == sel.end.y);
    assert(copy_pieces(s, sel, 0, 0) == Seq::<char>::empty());
    assert(copy_text(s, sel) =~= copy_piece(s, sel, 0, 0));
}

impl Pager {
    /// Copies the selection to the clipboard.
    pub(crate) fn copy_selection(&self, out: &mut Vec<TermCommand>)
        requires
            self.wf(),
        ensures
            ops(final(out)@) == ops(old(out)@) + copy_ops(self@),
    {
        let ghost s = self@;
        let ghost o0 = ops(out@);
        let sel = match self.selection {
            Some(sel) => sel,
            None => {
                assert(ops(out@) =~= o0 + copy_ops(s));
                return;
            },
        };
        if sel.start == sel.end {
            let chars = self.line_chars(sel.start.y);
            let len = chars.len();
            let a = if sel.start.x < len { sel.start.x } else { len };
            let b = if sel.start.x + 1 < len { sel.start.x + 1 } else { len };
            let text = string_from_chars(&chars, a, b);
            emit(out, TermCommand::CopyToClipboard(text));
            emit(out, TermCommand::Flush);
            assert(ops(out@) =~= o0 + copy_ops(s));
            return;
        }
        let n = self.lines.len();
        let end_y = if sel.end.y < n - 1 { sel.end.y } else { n - 1 };
        let last_i = end_y - sel.start.y;
        let mut text = String::new();
        let mut i: usize = 0;
        while i < last_i + 1
            invariant
                self.wf(),
                s == self@,
                self@.selection == Some(sel),
                sel.start != sel.end,
                n == s.lines.len(),
                end_y == sel.end.y,
                sel.start.y <= end_y < n,
                last_i == end_y - sel.start.y,
                i <= last_i + 1,
                text@ == copy_pieces(s, sel, i as int, last_i as int),
            decreases last_i + 1 - i,
        {
            let chars = self.line_chars(sel.start.y + i);
            let len = chars.len();
            let a = if sel.start.x < len { sel.start.x } else { len };
            let b = if sel.end.x + 1 < len { sel.end.x + 1 } else { len };
            let ghost before = text@;
            if i == 0 && i == last_i {
                push_chars(&mut text, &chars, a, b);
            } else if i == 0 {
                push_chars(&mut text, &chars, a, len);
                push_char(&mut text, '\n');
            } else if i == last_i {
                push_chars(&mut text, &chars, 0, b);
                push_char(&mut text, '\n');
            } else {
                push_str(&mut text, self.lines[sel.start.y + i].raw());
                push_char(&mut text, '\n');
            }
            assert(text@ =~= before + copy_piece(s, sel, i as int, last_i as int));
            i += 1;
        }
        emit(out, TermCommand::CopyToClipboard(text));
        emit(out, TermCommand::Flush);
        assert(ops(out@) =~= o0 + copy_ops(s));
    }
    /// Brings the moving end of the selection to the cursor.
    pub(crate) fn expand_selection(&mut self)
        requires
            old(self).wf(),
        ensures
            final(self).wf(),
            final(self)@ == (PagerState { selection: expand_opt(old(self)@), ..old(self)@ }),
    {
        let y = self.logical_y;
        let cx = self.cursor_x;
        match self.selection {
            Some(sel) => {
                proof {
                    lemma_expand_follows_cursor(sel, cx, y);
                }
                let mut sel = sel;
                match sel.sel_end {
                    SelectedEnd::Start => {
                        if y > sel.end.y || (y == sel.end.y && cx > sel.end.x) {
                            sel.swap_ends_to(cx, y);
                            sel.sel_end = SelectedEnd::End;
                        } else {
                            sel.start = Vec2::new(cx, y);
                        }
                    },
                    SelectedEnd::End => {
                        if y < sel.start.y || (y == sel.start.y && cx < sel.start.x) {
                            sel.swap_ends_to(cx, y);
                            sel.sel_end = SelectedEnd::Start;
                        } else {
                            sel.end = Vec2::new(cx, y);
                        }
                    },
                }
                self.selection = Some(sel);
            },
            None => {},
        }
    }
}

} // verus!
