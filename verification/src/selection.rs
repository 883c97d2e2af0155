//! Visual selections: two positions, one of which follows the cursor.
use vstd::prelude::*;

verus! {

/// A position or size with two coordinates.
#[derive(Clone, Copy, Debug, PartialEq, Eq, Structural)]
pub struct Vec2<T> {
    pub x: T,
    pub y: T,
}

impl<T> Vec2<T> {
    /// The pair `(x, y)`.
    pub fn new(x: T, y: T) -> (r: Self)
        ensures
            r.x == x,
            r.y == y,
    {
        Vec2 { x, y }
    }
}

/// Which end of a selection moves with the cursor.
#[derive(Clone, Copy, Debug, PartialEq, Eq, Structural)]
pub enum SelectedEnd {
    Start,
    End,
}

/// A selection from `start` to `end`, both included; `sel_end` names the end
/// that follows the cursor.
#[derive(Clone, Copy, Debug, PartialEq, Eq, Structural)]
pub struct Selection {
    pub start: Vec2<usize>,
    pub end: Vec2<usize>,
    pub sel_end: SelectedEnd,
}

/// Whether position `a` comes no later than `b` in reading order
/// (line first, then column).
pub open spec fn pos_le(a: Vec2<usize>, b: Vec2<usize>) -> bool {
    a.y < b.y || (a.y == b.y && a.x <= b.x)
}

/// The end of `sel` that follows the cursor.
pub open spec fn moving_end(sel: Selection) -> Vec2<usize> {
    match sel.sel_end {
        SelectedEnd::Start => sel.start,
        SelectedEnd::End => sel.end,
    }
}

/// The end of `sel` that stays where the selection began.
pub open spec fn anchor(sel: Selection) -> Vec2<usize> {
    match sel.sel_end {
        SelectedEnd::Start => sel.end,
        SelectedEnd::End => sel.start,
    }
}

impl Selection {
    /// A selection from `start` to `end` whose end follows the cursor.
    pub fn new(start: Vec2<usize>, end: Vec2<usize>) -> (r: Self)
        ensures
            r.start == start,
            r.end == end,
            r.sel_end == SelectedEnd::End,
    {
        Selection { start, end, sel_end: SelectedEnd::End }
    }

    /// A selection from `(start_x, start_y)` to `(end_x, end_y)` whose end
    /// follows the cursor.
    pub fn with_coords(start_x: usize, start_y: usize, end_x: usize, end_y: usize) -> (r: Self)
        ensures
            r.start == (Vec2 { x: start_x, y: start_y }),
            r.end == (Vec2 { x: end_x, y: end_y }),
            r.sel_end == SelectedEnd::End,
    {
        Selection {
            start: Vec2::new(start_x, start_y),
            end: Vec2::new(end_x, end_y),
            sel_end: SelectedEnd::End,
        }
    }

    /// Makes the selected end the anchor and puts the other end at
    /// `(to_x, to_y)`; `sel_end` is left as it was.
    pub fn swap_ends_to(&mut self, to_x: usize, to_y: usize)
        ensures
            final(self).sel_end == old(self).sel_end,
            match old(self).sel_end {
                SelectedEnd::Start => final(self).start == old(self).end && final(self).end == (
                Vec2 { x: to_x, y: to_y }),
                SelectedEnd::End => final(self).end == old(self).start && final(self).start == (
                Vec2 { x: to_x, y: to_y }),
            },
    {
        match self.sel_end {
            SelectedEnd::Start => {
                self.start = self.end;
                self.end = Vec2::new(to_x, to_y);
            },
            SelectedEnd::End => {
                self.end = self.start;
                self.start = Vec2::new(to_x, to_y);
            },
        }
    }
}

/// The selection once its moving end is brought to the cursor `(cx, y)`:
/// when the cursor passes the anchor, the ends are swapped so that `start`
/// stays before `end`.
pub open spec fn expanded(sel: Selection, cx: usize, y: usize) -> Selection {
    let cur = Vec2 { x: cx, y: y };
    match sel.sel_end {
        SelectedEnd::Start => if y > sel.end.y || (y == sel.end.y && cx > sel.end.x) {
            Selection { start: sel.end, end: cur, sel_end: SelectedEnd::End }
        } else {
            Selection { start: cur, ..sel }
        },
        SelectedEnd::End => if y < sel.start.y || (y == sel.start.y && cx < sel.start.x) {
            Selection { start: cur, end: sel.start, sel_end: SelectedEnd::Start }
        } else {
            Selection { end: cur, ..sel }
        },
    }
}

/// Expanding a selection to the cursor keeps its anchor, puts its moving end
/// on the cursor, and leaves `start` no later than `end`: the selection is
/// always the text between the anchor and the cursor.
pub proof fn lemma_expand_follows_cursor(sel: Selection, cx: usize, y: usize)
    ensures
        anchor(expanded(sel, cx, y)) == anchor(sel),
        moving_end(expanded(sel, cx, y)) == (Vec2 { x: cx, y: y }),
        pos_le(expanded(sel, cx, y).start, expanded(sel, cx, y).end),
{
}

/// `sel` with its other end made the one that follows the cursor.
pub open spec fn switched(sel: Selection) -> Selection {
    Selection {
        sel_end: match sel.sel_end {
            SelectedEnd::Start => SelectedEnd::End,
            SelectedEnd::End => SelectedEnd::Start,
        },
        ..sel
    }
}

/// Switching the ends of a selection keeps the text it covers, turns its
/// anchor into its moving end and back, and undoes itself; bringing the
/// switched selection to its new moving end changes nothing.
pub proof fn lemma_switch_ends(sel: Selection)
    requires
        pos_le(sel.start, sel.end),
    ensures
        switched(sel).start == sel.start && switched(sel).end == sel.end,
        anchor(switched(sel)) == moving_end(sel),
        moving_end(switched(sel)) == anchor(sel),
        switched(switched(sel)) == sel,
        expanded(switched(sel), anchor(sel).x, anchor(sel).y) == switched(sel),
{
}

} // verus!
