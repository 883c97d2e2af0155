//! Moving the cursor of the scrollback buffer, and the viewport that follows
//! it. Every move ends by drawing; a move reports `false` when that drawing
//! fails, and stops there.
use vstd::prelude::*;
use super::{ScrollbackBuffer, BufferState, buffer_wf, text_len, buffer_draw, buffer_cursor, SCROLLOFF};
use crate::pager::{sat_add, sat_sub, min, max_text_len};
use crate::pager::movement::{sat_add_signed, saturating_add_signed};
use crate::selection::{Selection, SelectedEnd, Vec2, expanded, lemma_expand_follows_cursor};
use crate::term::{TermCommand, TermOp, ops};

verus! {

/// The viewport after the cursor moved: the first line shown, the last line
/// shown, and whether it moved. It scrolls so that `SCROLLOFF` lines stay
/// visible past the cursor.
pub open spec fn viewport_after(s: BufferState) -> (usize, usize, bool) {
    let ly = s.logical_y as int;
    let so = SCROLLOFF as int;
    let vs = s.viewport_start as int;
    let ve = s.viewport_end as int;
    if sat_add(ly, so) > ve {
        let ve2 = min(sat_add(ly, so), s.lines.len() - 1);
        (sat_add(vs, ve2 - ve) as usize, ve2 as usize, true)
    } else if sat_sub(ly, so) < vs {
        let vs2 = sat_sub(ly, so);
        (vs2 as usize, sat_sub(ve, vs - vs2) as usize, true)
    } else {
        (s.viewport_start, s.viewport_end, false)
    }
}

/// The buffer with its viewport scrolled after a move.
pub open spec fn scrolled(s: BufferState) -> BufferState {
    let (vs, ve, _moved) = viewport_after(s);
    BufferState { viewport_start: vs, viewport_end: ve, ..s }
}

/// The selection of the buffer once brought to its cursor.
pub open spec fn expand_opt(s: BufferState) -> Option<Selection> {
    match s.selection {
        Some(sel) => Some(expanded(sel, s.cursor_x, s.logical_y)),
        None => None,
    }
}

/// What follows every move: when asked to, scroll the viewport; then draw
/// everything again when it moved or when there is a selection (first
/// brought to the cursor), else only put the cursor in place.
#[verifier::opaque]
pub open spec fn suffix(s: BufferState, rerender: bool) -> (BufferState, Seq<TermOp>, bool) {
    let moved = rerender && viewport_after(s).2;
    let s1 = if rerender {
        scrolled(s)
    } else {
        s
    };
    if moved || s1.selection is Some {
        let s2 = BufferState { selection: expand_opt(s1), ..s1 };
        (s2, buffer_draw(s2).0, buffer_draw(s2).1)
    } else {
        (s1, buffer_cursor(s1).0, buffer_cursor(s1).1)
    }
}

/// Two steps in a row; the second runs only when the first could draw.
pub open spec fn chained(
    a: (BufferState, Seq<TermOp>, bool),
    b: (BufferState, Seq<TermOp>, bool),
) -> (BufferState, Seq<TermOp>, bool) {
    if a.2 {
        (b.0, a.1 + b.1, b.2)
    } else {
        a
    }
}

/// The cursor put on line `y` and column `x`, each held to the text.
pub open spec fn moved_to(s: BufferState, x: int, y: int) -> BufferState {
    let ly = min(y, s.lines.len() - 1);
    let cx = min(x, sat_sub(text_len(s, ly) as int, 1));
    BufferState { logical_y: ly as usize, cursor_x: cx as usize, ..s }
}

/// `move_to`: the cursor to `(x, y)`, then the suffix.
pub open spec fn move_to_spec(s: BufferState, x: int, y: int) -> (BufferState, Seq<TermOp>, bool) {
    suffix(moved_to(s, x, y), true)
}

/// `move_vertically_by`: `amount` lines down (up when negative), back to
/// the wished column as far as the line allows.
pub open spec fn vert_by(s: BufferState, amount: int) -> (BufferState, Seq<TermOp>, bool) {
    let ly = min(sat_add_signed(s.logical_y as int, amount), s.lines.len() - 1);
    let cx = min(s.wish_cursor_x as int, sat_sub(text_len(s, ly) as int, 1));
    suffix(BufferState { logical_y: ly as usize, cursor_x: cx as usize, ..s }, true)
}

/// `move_vertically_to`: the cursor to line `y`, then back to the wished
/// column.
pub open spec fn vert_to(s: BufferState, y: int) -> (BufferState, Seq<TermOp>, bool) {
    let a = move_to_spec(s, s.cursor_x as int, y);
    let s1 = a.0;
    let cx = min(s1.wish_cursor_x as int, sat_sub(text_len(s1, s1.logical_y as int) as int, 1));
    chained(a, suffix(BufferState { cursor_x: cx as usize, ..s1 }, true))
}

/// `move_horizontally_by`: `amount` columns right (left when negative),
/// held to the line.
pub open spec fn horiz_by(s: BufferState, amount: int) -> (BufferState, Seq<TermOp>, bool) {
    let cx = min(sat_add_signed(s.cursor_x as int, amount), sat_sub(text_len(s, s.logical_y as int) as int, 1));
    suffix(BufferState { cursor_x: cx as usize, wish_cursor_x: cx as usize, ..s }, false)
}

/// `move_horizontally_to`: the cursor to column `x` of its line.
pub open spec fn horiz_to(s: BufferState, x: int) -> (BufferState, Seq<TermOp>, bool) {
    let a = move_to_spec(s, x, s.logical_y as int);
    chained(a, suffix(BufferState { wish_cursor_x: a.0.cursor_x, ..a.0 }, false))
}

/// Wrapping to the next line: to its start when there is one, then the
/// suffix.
pub open spec fn wrap_next(s: BufferState) -> (BufferState, Seq<TermOp>, bool) {
    let wrapped = s.logical_y + 1 < s.lines.len();
    let s1 = if wrapped {
        BufferState { logical_y: (s.logical_y + 1) as usize, cursor_x: 0, ..s }
    } else {
        s
    };
    suffix(s1, wrapped)
}

/// Wrapping to the previous line: to its last character when there is one,
/// then the suffix.
pub open spec fn wrap_prev(s: BufferState) -> (BufferState, Seq<TermOp>, bool) {
    let wrapped = s.logical_y > 0;
    let y = s.logical_y - 1;
    let s1 = if wrapped {
        BufferState { logical_y: y as usize, cursor_x: sat_sub(text_len(s, y) as int, 1) as usize, ..s }
    } else {
        s
    };
    suffix(s1, wrapped)
}

/// Scrolling keeps the buffer well formed and never changes the height of a
/// viewport that shows at least one line; it keeps the viewport still when
/// the cursor is at least `SCROLLOFF` lines inside it; and when the viewport
/// is taller than `SCROLLOFF` lines, the cursor line ends up inside it.
pub proof fn lemma_scroll_follows_cursor(s: BufferState)
    requires
        buffer_wf(s),
    ensures
        buffer_wf(scrolled(s)),
        s.viewport_start <= s.viewport_end ==> scrolled(s).viewport_end - scrolled(s).viewport_start
            == s.viewport_end - s.viewport_start,
        s.logical_y + SCROLLOFF <= s.viewport_end && s.viewport_start + SCROLLOFF <= s.logical_y
            ==> scrolled(s) == s,
        s.viewport_end - s.viewport_start >= SCROLLOFF ==> scrolled(s).viewport_start <= s.logical_y
            <= scrolled(s).viewport_end,
{
}

impl ScrollbackBuffer {
    /// Characters in the cursor's line.
    pub(crate) fn current_line_len(&self) -> (n: usize)
        requires
            self.wf(),
        ensures
            n == text_len(self@, self@.logical_y as int),
            n <= max_text_len(),
    {
        let v = self.text_chars(self.logical_y);
        v.len()
    }

    /// Scrolls the viewport after a move; returns whether it moved.
    pub(crate) fn move_viewport(&mut self) -> (moved: bool)
        requires
            old(self).wf(),
        ensures
            final(self).wf(),
            final(self)@ == scrolled(old(self)@),
            moved == viewport_after(old(self)@).2,
    {
        proof {
            lemma_scroll_follows_cursor(self@);
        }
        let n = self.lines.len();
        let upper_bound = self.logical_y.saturating_add(SCROLLOFF);
        if upper_bound > self.viewport_end {
            let mut movement = self.viewport_end;
            self.viewport_end = if upper_bound < n - 1 { upper_bound } else { n - 1 };
            movement = self.viewport_end - movement;
            self.viewport_start = self.viewport_start.saturating_add(movement);
            return true;
        }
        if self.logical_y.saturating_sub(SCROLLOFF) < self.viewport_start {
            let mut movement = self.viewport_start;
            self.viewport_start = self.logical_y.saturating_sub(SCROLLOFF);
            movement = movement - self.viewport_start;
            self.viewport_end = self.viewport_end.saturating_sub(movement);
            return true;
        }
        false
    }

    /// Brings the moving end of the selection to the cursor.
    pub(crate) fn expand_selection(&mut self)
        requires
            old(self).wf(),
        ensures
            final(self).wf(),
            final(self)@ == (BufferState { selection: expand_opt(old(self)@), ..old(self)@ }),
    {
        let y = self.logical_y;
        let cx = self.cursor_x;
        match self.selection {
            Some(sel) => {
                proof {
                    lemma_expand_follows_cursor(sel, cx, y);
                }
                let mut sel = sel;
                match sel.sel_end {
                    SelectedEnd::Start => {
                        if y > sel.end.y || (y == sel.end.y && cx > sel.end.x) {
                            sel.swap_ends_to(cx, y);
                            sel.sel_end = SelectedEnd::End;
                        } else {
                            sel.start = Vec2::new(cx, y);
                        }
                    },
                    SelectedEnd::End => {
                        if y < sel.start.y || (y == sel.start.y && cx < sel.start.x) {
                            sel.swap_ends_to(cx, y);
                            sel.sel_end = SelectedEnd::Start;
                        } else {
                            sel.end = Vec2::new(cx, y);
                        }
                    },
                }
                self.selection = Some(sel);
            },
            None => {},
        }
    }

    /// What follows every move: scroll when asked to, then draw.
    pub(crate) fn movement_suffix(&mut self, rerender: bool, out: &mut Vec<TermCommand>) -> (ok: bool)
        requires
            old(self).wf(),
        ensures
            final(self).wf(),
            ok == suffix(old(self)@, rerender).2,
            ok ==> final(self)@ == suffix(old(self)@, rerender).0,
            ok ==> ops(final(out)@) == ops(old(out)@) + suffix(old(self)@, rerender).1,
    {
        reveal(suffix);
        if (rerender && self.move_viewport()) || self.selection.is_some() {
            self.expand_selection();
            self.draw(out)
        } else {
            self.draw_cursor(out)
        }
    }
    /// Puts the cursor on line `y` and column `x`, each held to the text.
    pub(crate) fn move_to(&mut self, x: usize, y: usize, out: &mut Vec<TermCommand>) -> (ok: bool)
        requires
            old(self).wf(),
        ensures
            final(self).wf(),
            ok == move_to_spec(old(self)@, x as int, y as int).2,
            ok ==> final(self)@ == move_to_spec(old(self)@, x as int, y as int).0,
            ok ==> ops(final(out)@) == ops(old(out)@) + move_to_spec(old(self)@, x as int, y as int).1,
    {
        let n = self.lines.len();
        self.logical_y = if y < n - 1 { y } else { n - 1 };
        let line_len = self.current_line_len();
        let last = line_len.saturating_sub(1);
        self.cursor_x = if x < last { x } else { last };
        self.movement_suffix(true, out)
    }

    /// Goes to the start of the next line, if there is one.
    pub(crate) fn wrap_to_next(&mut self, out: &mut Vec<TermCommand>) -> (ok: bool)
        requires
            old(self).wf(),
        ensures
            final(self).wf(),
            ok == wrap_next(old(self)@).2,
            ok ==> final(self)@ == wrap_next(old(self)@).0,
            ok ==> ops(final(out)@) == ops(old(out)@) + wrap_next(old(self)@).1,
    {
        let mut wrapped = false;
        if self.logical_y < self.lines.len() - 1 {
            self.logical_y = self.logical_y + 1;
            self.cursor_x = 0;
            wrapped = true;
        }
        self.movement_suffix(wrapped, out)
    }

    /// Goes to the last character of the previous line, if there is one.
    pub(crate) fn wrap_to_previous(&mut self, out: &mut Vec<TermCommand>) -> (ok: bool)
        requires
            old(self).wf(),
        ensures
            final(self).wf(),
            ok == wrap_prev(old(self)@).2,
            ok ==> final(self)@ == wrap_prev(old(self)@).0,
            ok ==> ops(final(out)@) == ops(old(out)@) + wrap_prev(old(self)@).1,
    {
        let mut wrapped = false;
        if self.logical_y > 0 {
            self.logical_y = self.logical_y - 1;
            self.cursor_x = self.current_line_len().saturating_sub(1);
            wrapped = true;
        }
        self.movement_suffix(wrapped, out)
    }

    /// Moves the cursor `amount` lines down (up when negative).
    pub(crate) fn move_vertically_by(&mut self, amount: isize, out: &mut Vec<TermCommand>) -> (ok: bool)
        requires
            old(self).wf(),
        ensures
            final(self).wf(),
            ok == vert_by(old(self)@, amount as int).2,
            ok ==> final(self)@ == vert_by(old(self)@, amount as int).0,
            ok ==> ops(final(out)@) == ops(old(out)@) + vert_by(old(self)@, amount as int).1,
    {
        let n = self.lines.len();
        let y = saturating_add_signed(self.logical_y, amount);
        self.logical_y = if y < n - 1 { y } else { n - 1 };
        let line_len = self.current_line_len();
        let last = line_len.saturating_sub(1);
        self.cursor_x = if self.wish_cursor_x < last { self.wish_cursor_x } else { last };
        self.movement_suffix(true, out)
    }

    /// Moves the cursor to line `y`, back to its wished column.
    pub(crate) fn move_vertically_to(&mut self, y: usize, out: &mut Vec<TermCommand>) -> (ok: bool)
        requires
            old(self).wf(),
        ensures
            final(self).wf(),
            ok == vert_to(old(self)@, y as int).2,
            ok ==> final(self)@ == vert_to(old(self)@, y as int).0,
            ok ==> ops(final(out)@) == ops(old(out)@) + vert_to(old(self)@, y as int).1,
    {
        let ghost s = self@;
        let ghost o0 = ops(out@);
        if !self.move_to(self.cursor_x, y, out) {
            return false;
        }
        let line_len = self.current_line_len();
        let last = line_len.saturating_sub(1);
        self.cursor_x = if self.wish_cursor_x < last { self.wish_cursor_x } else { last };
        let ok = self.movement_suffix(true, out);
        assert(ok ==> ops(out@) =~= o0 + vert_to(s, y as int).1);
        ok
    }

    /// Moves the cursor `amount` columns right (left when negative).
    pub(crate) fn move_horizontally_by(&mut self, amount: isize, out: &mut Vec<TermCommand>) -> (ok: bool)
        requires
            old(self).wf(),
        ensures
            final(self).wf(),
            ok == horiz_by(old(self)@, amount as int).2,
            ok ==> final(self)@ == horiz_by(old(self)@, amount as int).0,
            ok ==> ops(final(out)@) == ops(old(out)@) + horiz_by(old(self)@, amount as int).1,
    {
        let line_len = self.current_line_len();
        let last = line_len.saturating_sub(1);
        let x = saturating_add_signed(self.cursor_x, amount);
        self.cursor_x = if x < last { x } else { last };
        self.wish_cursor_x = self.cursor_x;
        self.movement_suffix(false, out)
    }

    /// Moves the cursor to column `x` of its line.
    pub(crate) fn move_horizontally_to(&mut self, x: usize, out: &mut Vec<TermCommand>) -> (ok: bool)
        requires
            old(self).wf(),
        ensures
            final(self).wf(),
            ok == horiz_to(old(self)@, x as int).2,
            ok ==> final(self)@ == horiz_to(old(self)@, x as int).0,
            ok ==> ops(final(out)@) == ops(old(out)@) + horiz_to(old(self)@, x as int).1,
    {
        let ghost s = self@;
        let ghost o0 = ops(out@);
        if !self.move_to(x, self.logical_y, out) {
            return false;
        }
        self.wish_cursor_x = self.cursor_x;
        let ok = self.movement_suffix(false, out);
        assert(ok ==> ops(out@) =~= o0 + horiz_to(s, x as int).1);
        ok
    }
}

} // verus!
