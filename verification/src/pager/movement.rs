//! Moving the cursor, and the viewport that follows it.
use vstd::prelude::*;
use super::{Pager, PagerState, pager_wf, line_len, sat_add, sat_sub, min};
use super::copy::expand_opt;
use super::motions::{Motion, motion_w, motion_b, motion_e};
use super::rendering::{draw_all, status_draw, search_draw, cursor_ops};
use crate::term::{TermCommand, TermOp, ops};

verus! {

/// `a` moved by the signed amount `d`, held between zero and `usize::MAX`.
pub open spec fn sat_add_signed(a: int, d: int) -> int {
    if d >= 0 {
        sat_add(a, d)
    } else {
        sat_sub(a, -d)
    }
}

/// `usize::saturating_add_signed`.
pub fn saturating_add_signed(a: usize, d: isize) -> (r: usize)
    ensures
        r == sat_add_signed(a as int, d as int),
{
    if d >= 0 {
        a.saturating_add(d as usize)
    } else {
        let m: usize = ((-(d + 1)) as usize) + 1;
        a.saturating_sub(m)
    }
}

/// The viewport after the cursor moved: the first line shown, the last line
/// shown, and whether it moved. It scrolls so that `scrolloff` lines stay
/// visible past the cursor, without changing its height.
pub open spec fn viewport_after(s: PagerState) -> (usize, usize, bool) {
    let ly = s.logical_y as int;
    let so = s.settings.scrolloff as int;
    let vs = s.viewport_start as int;
    let ve = s.viewport_end as int;
    if sat_add(ly, so) > ve {
        let ve2 = min(sat_add(ly, so), s.lines.len() - 1);
        (sat_add(vs, ve2 - ve) as usize, ve2 as usize, true)
    } else if sat_sub(ly, so) < vs {
        let vs2 = sat_sub(ly, so);
        (vs2 as usize, sat_sub(ve, vs - vs2) as usize, true)
    } else {
        (s.viewport_start, s.viewport_end, false)
    }
}

/// The pager with its viewport scrolled after a move.
pub open spec fn scrolled(s: PagerState) -> PagerState {
    let (vs, ve, _moved) = viewport_after(s);
    PagerState { viewport_start: vs, viewport_end: ve, ..s }
}

/// What follows every move: scroll the viewport, then draw everything again
/// when asked to and the viewport moved, or when there is a selection (which
/// is first brought to the cursor); else draw the status line, the search
/// and the cursor.
#[verifier::opaque]
pub open spec fn suffix(s: PagerState, rerender: bool) -> (PagerState, Seq<TermOp>) {
    let moved = viewport_after(s).2;
    let s1 = scrolled(s);
    if (rerender && moved) || s1.selection is Some {
        draw_all(PagerState { selection: expand_opt(s1), ..s1 })
    } else {
        let (s3, o3) = status_draw(s1);
        let (s4, o4) = search_draw(s3, true);
        (s4, o3 + o4 + cursor_ops(s4))
    }
}

/// The cursor put on line `y` and column `x`, each held to the text.
pub open spec fn moved_to(s: PagerState, x: int, y: int) -> PagerState {
    let ly = min(y, s.lines.len() - 1);
    let cx = min(x, sat_sub(line_len(s, ly) as int, 1));
    PagerState { logical_y: ly as usize, cursor_x: cx as usize, wish_cursor_x: cx as usize, ..s }
}

/// `move_to`: the cursor to `(x, y)`, then the suffix.
pub open spec fn move_to_spec(s: PagerState, x: int, y: int) -> (PagerState, Seq<TermOp>) {
    suffix(moved_to(s, x, y), true)
}

/// `move_vertically_by`: `amount` lines down (up when negative), back to
/// the wished column as far as the line allows.
pub open spec fn vert_by(s: PagerState, amount: int) -> (PagerState, Seq<TermOp>) {
    let ly = min(sat_add_signed(s.logical_y as int, amount), s.lines.len() - 1);
    let s1 = PagerState { logical_y: ly as usize, ..s };
    let cx = min(s.wish_cursor_x as int, sat_sub(line_len(s1, ly) as int, 1));
    suffix(PagerState { cursor_x: cx as usize, ..s1 }, true)
}

/// `move_vertically_to`: the cursor to line `y`, then back to the wished
/// column.
pub open spec fn vert_to(s: PagerState, y: int) -> (PagerState, Seq<TermOp>) {
    let (s1, o1) = move_to_spec(s, s.cursor_x as int, y);
    let cx = min(s1.wish_cursor_x as int, sat_sub(line_len(s1, s1.logical_y as int) as int, 1));
    let (s2, o2) = suffix(PagerState { cursor_x: cx as usize, ..s1 }, true);
    (s2, o1 + o2)
}

/// `move_horizontally_by`: `amount` columns right (left when negative),
/// held to the line.
pub open spec fn horiz_by(s: PagerState, amount: int) -> (PagerState, Seq<TermOp>) {
    let cx = min(
        sat_add_signed(s.cursor_x as int, amount),
        sat_sub(line_len(s, s.logical_y as int) as int, 1),
    );
    suffix(PagerState { cursor_x: cx as usize, wish_cursor_x: cx as usize, ..s }, false)
}

/// `move_horizontally_to`: the cursor to column `x` of its line.
pub open spec fn horiz_to(s: PagerState, x: int) -> (PagerState, Seq<TermOp>) {
    let (s1, o1) = move_to_spec(s, x, s.logical_y as int);
    let (s2, o2) = suffix(PagerState { wish_cursor_x: s1.cursor_x, ..s1 }, false);
    (s2, o1 + o2)
}

/// Wrapping to the next line: to its start when there is one, the suffix,
/// then the motion again on that line.
#[verifier::opaque]
pub open spec fn wrap_next(s: PagerState, ws: bool, m: Motion) -> (PagerState, Seq<TermOp>)
    decreases 1int,
{
    let wrapped = s.logical_y + 1 < s.lines.len();
    let s1 = if wrapped {
        PagerState { logical_y: (s.logical_y + 1) as usize, cursor_x: 0, ..s }
    } else {
        s
    };
    let (s2, o2) = suffix(s1, wrapped);
    let (s3, o3) = match m {
        Motion::W => motion_w(s2, ws, true),
        Motion::B => motion_b(s2, ws, true),
        Motion::E => motion_e(s2, ws, true),
    };
    (s3, o2 + o3)
}

/// Wrapping to the previous line: to its last character when there is one,
/// the suffix, then the motion again on that line.
#[verifier::opaque]
pub open spec fn wrap_prev(s: PagerState, ws: bool, m: Motion) -> (PagerState, Seq<TermOp>)
    decreases 1int,
{
    let wrapped = s.logical_y > 0;
    let y = s.logical_y - 1;
    let s1 = if wrapped {
        PagerState { logical_y: y as usize, cursor_x: sat_sub(line_len(s, y) as int, 1) as usize, ..s }
    } else {
        s
    };
    let (s2, o2) = suffix(s1, wrapped);
    let (s3, o3) = match m {
        Motion::W => motion_w(s2, ws, true),
        Motion::B => motion_b(s2, ws, true),
        Motion::E => motion_e(s2, ws, true),
    };
    (s3, o2 + o3)
}

/// Scrolling never changes the height of a viewport that shows at least one
/// line; it keeps the viewport still when the cursor is at least `scrolloff`
/// lines inside it; and when the viewport is taller than `scrolloff` lines,
/// the cursor line ends up inside it.
pub proof fn lemma_viewport_follows_cursor(s: PagerState)
    requires
        pager_wf(s),
    ensures
        s.viewport_start <= s.viewport_end ==> scrolled(s).viewport_end - scrolled(s).viewport_start
            == s.viewport_end - s.viewport_start,
        pager_wf(scrolled(s)),
        s.logical_y + s.settings.scrolloff <= s.viewport_end && s.viewport_start + s.settings.scrolloff
            <= s.logical_y ==> scrolled(s) == s,
        s.viewport_end - s.viewport_start >= s.settings.scrolloff ==> scrolled(s).viewport_start
            <= s.logical_y <= scrolled(s).viewport_end,
{
}

/// A move to `(x, y)` lands on an existing line, on a character of it (or
/// on its first column when it is empty), and makes that column the wished
/// one.
pub proof fn lemma_move_to_in_bounds(s: PagerState, x: int, y: int)
    requires
        pager_wf(s),
        0 <= x <= usize::MAX,
        0 <= y <= usize::MAX,
    ensures
        moved_to(s, x, y).logical_y < s.lines.len(),
        moved_to(s, x, y).cursor_x == 0 || moved_to(s, x, y).cursor_x < line_len(
            s,
            moved_to(s, x, y).logical_y as int,
        ),
        moved_to(s, x, y).wish_cursor_x == moved_to(s, x, y).cursor_x,
        0 <= y < s.lines.len() ==> moved_to(s, x, y).logical_y == y,
        0 <= x < line_len(s, min(y, s.lines.len() - 1)) ==> moved_to(s, x, y).cursor_x == x,
{
}

/// Scrolling and drawing after a move leave the lines and the cursor where
/// the move put them, and keep a search if there is one.
pub proof fn lemma_suffix_keeps_cursor(s: PagerState, rerender: bool)
    ensures
        suffix(s, rerender).0.lines == s.lines,
        suffix(s, rerender).0.logical_y == s.logical_y,
        suffix(s, rerender).0.cursor_x == s.cursor_x,
        suffix(s, rerender).0.search is Some <==> s.search is Some,
{
    reveal(suffix);
    reveal(draw_all);
    reveal(status_draw);
    reveal(search_draw);
}

impl Pager {
    /// Scrolls the viewport after a move; returns whether it moved.
    pub(crate) fn move_viewport(&mut self) -> (moved: bool)
        requires
            old(self).wf(),
        ensures
            final(self).wf(),
            final(self)@ == scrolled(old(self)@),
            moved == viewport_after(old(self)@).2,
    {
        let so = self.settings.scrolloff;
        let n = self.lines.len();
        let upper_bound = self.logical_y.saturating_add(so);
        if upper_bound > self.viewport_end {
            let mut movement = self.viewport_end;
            self.viewport_end = if upper_bound < n - 1 { upper_bound } else { n - 1 };
            movement = self.viewport_end - movement;
            self.viewport_start = self.viewport_start.saturating_add(movement);
            return true;
        }
        if self.logical_y.saturating_sub(so) < self.viewport_start {
            let mut movement = self.viewport_start;
            self.viewport_start = self.logical_y.saturating_sub(so);
            movement = movement - self.viewport_start;
            self.viewport_end = self.viewport_end.saturating_sub(movement);
            return true;
        }
        false
    }

    /// What follows every move: scroll, then draw.
    pub(crate) fn movement_suffix(&mut self, rerender: bool, out: &mut Vec<TermCommand>)
        requires
            old(self).wf(),
        ensures
            final(self).wf(),
            final(self)@ == suffix(old(self)@, rerender).0,
            ops(final(out)@) == ops(old(out)@) + suffix(old(self)@, rerender).1,
    {
        reveal(suffix);
        let ghost s = self@;
        let ghost o0 = ops(out@);
        let viewport_moved = self.move_viewport();
        if (rerender && viewport_moved) || self.selection.is_some() {
            self.expand_selection();
            self.draw(out);
        } else {
            self.draw_status_line(out);
            self.draw_search(true, out);
            self.draw_cursor(out);
            assert(ops(out@) =~= o0 + suffix(s, rerender).1);
        }
    }

    /// Puts the cursor on line `y` and column `x`, each held to the text.
    pub(crate) fn move_to(&mut self, x: usize, y: usize, out: &mut Vec<TermCommand>)
        requires
            old(self).wf(),
        ensures
            final(self).wf(),
            final(self)@ == move_to_spec(old(self)@, x as int, y as int).0,
            ops(final(out)@) == ops(old(out)@) + move_to_spec(old(self)@, x as int, y as int).1,
    {
        let n = self.lines.len();
        self.logical_y = if y < n - 1 { y } else { n - 1 };
        let line_len = self.current_line_len();
        let last = line_len.saturating_sub(1);
        self.cursor_x = if x < last { x } else { last };
        self.wish_cursor_x = self.cursor_x;
        self.movement_suffix(true, out);
    }

    /// Moves the cursor `amount` lines down (up when negative).
    pub(crate) fn move_vertically_by(&mut self, amount: isize, out: &mut Vec<TermCommand>)
        requires
            old(self).wf(),
        ensures
            final(self).wf(),
            final(self)@ == vert_by(old(self)@, amount as int).0,
            ops(final(out)@) == ops(old(out)@) + vert_by(old(self)@, amount as int).1,
    {
        let n = self.lines.len();
        let y = saturating_add_signed(self.logical_y, amount);
        self.logical_y = if y < n - 1 { y } else { n - 1 };
        let line_len = self.current_line_len();
        let last = line_len.saturating_sub(1);
        self.cursor_x = if self.wish_cursor_x < last { self.wish_cursor_x } else { last };
        self.movement_suffix(true, out);
    }

    /// Moves the cursor to line `y`, back to its wished column.
    pub(crate) fn move_vertically_to(&mut self, y: usize, out: &mut Vec<TermCommand>)
        requires
            old(self).wf(),
        ensures
            final(self).wf(),
            final(self)@ == vert_to(old(self)@, y as int).0,
            ops(final(out)@) == ops(old(out)@) + vert_to(old(self)@, y as int).1,
    {
        let ghost s = self@;
        let ghost o0 = ops(out@);
        self.move_to(self.cursor_x, y, out);
        let line_len = self.current_line_len();
        let last = line_len.saturating_sub(1);
        self.cursor_x = if self.wish_cursor_x < last { self.wish_cursor_x } else { last };
        self.movement_suffix(true, out);
        assert(ops(out@) =~= o0 + vert_to(s, y as int).1);
    }

    /// Moves the cursor `amount` columns right (left when negative).
    pub(crate) fn move_horizontally_by(&mut self, amount: isize, out: &mut Vec<TermCommand>)
        requires
            old(self).wf(),
        ensures
            final(self).wf(),
            final(self)@ == horiz_by(old(self)@, amount as int).0,
            ops(final(out)@) == ops(old(out)@) + horiz_by(old(self)@, amount as int).1,
    {
        let line_len = self.current_line_len();
        let last = line_len.saturating_sub(1);
        let x = saturating_add_signed(self.cursor_x, amount);
        self.cursor_x = if x < last { x } else { last };
        self.wish_cursor_x = self.cursor_x;
        self.movement_suffix(false, out);
    }

    /// Moves the cursor to column `x` of its line.
    pub(crate) fn move_horizontally_to(&mut self, x: usize, out: &mut Vec<TermCommand>)
        requires
            old(self).wf(),
        ensures
            final(self).wf(),
            final(self)@ == horiz_to(old(self)@, x as int).0,
            ops(final(out)@) == ops(old(out)@) + horiz_to(old(self)@, x as int).1,
    {
        let ghost s = self@;
        let ghost o0 = ops(out@);
        self.move_to(x, self.logical_y, out);
        self.wish_cursor_x = self.cursor_x;
        self.movement_suffix(false, out);
        assert(ops(out@) =~= o0 + horiz_to(s, x as int).1);
    }

    /// Goes to the start of the next line, if any, then runs motion `m`
    /// again there.
    pub(crate) fn wrap_to_next(&mut self, whitespace: bool, m: Motion, out: &mut Vec<TermCommand>)
        requires
            old(self).wf(),
        ensures
            final(self).wf(),
            final(self)@ == wrap_next(old(self)@, whitespace, m).0,
            ops(final(out)@) == ops(old(out)@) + wrap_next(old(self)@, whitespace, m).1,
        decreases 1int,
    {
        reveal(wrap_next);
        let ghost s = self@;
        let ghost o0 = ops(out@);
        let mut wrapped = false;
        if self.logical_y < self.lines.len() - 1 {
            self.logical_y = self.logical_y + 1;
            self.cursor_x = 0;
            wrapped = true;
        }
        self.movement_suffix(wrapped, out);
        match m {
            Motion::W => self.movement_w(whitespace, true, out),
            Motion::B => self.movement_b(whitespace, true, out),
            Motion::E => self.movement_e(whitespace, true, out),
        }
        assert(ops(out@) =~= o0 + wrap_next(s, whitespace, m).1);
    }

    /// Goes to the last character of the previous line, if there is one,
    /// then runs motion `m` again there.
    pub(crate) fn wrap_to_previous(&mut self, whitespace: bool, m: Motion, out: &mut Vec<TermCommand>)
        requires
            old(self).wf(),
        ensures
            final(self).wf(),
            final(self)@ == wrap_prev(old(self)@, whitespace, m).0,
            ops(final(out)@) == ops(old(out)@) + wrap_prev(old(self)@, whitespace, m).1,
        decreases 1int,
    {
        reveal(wrap_prev);
        let ghost s = self@;
        let ghost o0 = ops(out@);
        let mut wrapped = false;
        if self.logical_y > 0 {
            self.logical_y = self.logical_y - 1;
            self.cursor_x = self.current_line_len().saturating_sub(1);
            wrapped = true;
        }
        self.movement_suffix(wrapped, out);
        match m {
            Motion::W => self.movement_w(whitespace, true, out),
            Motion::B => self.movement_b(whitespace, true, out),
            Motion::E => self.movement_e(whitespace, true, out),
        }
        assert(ops(out@) =~= o0 + wrap_prev(s, whitespace, m).1);
    }
}

} // verus!
