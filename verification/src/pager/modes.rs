//! Keys: what each key does outside of typing a search.
use vstd::prelude::*;
use super::{Pager, PagerState, line_text, line_len, min};
use crate::utils::is_whitespace_char;
use super::copy::copy_ops;
use super::motions::{Motion, line_of, w_hits, w_jump, lemma_no_hit, lemma_first_hit, motion_w, motion_b, motion_e, motion_underscore, motion_dollar, motion_big_g, motion_gg};
use super::movement::{vert_by, horiz_by, horiz_to, suffix, wrap_next, lemma_suffix_keeps_cursor};
use super::rendering::draw_all;
use super::search::{SearchView, SearchState, search_mode_spec, next_match, prev_match, prev_match_panics};
use crate::selection::{Selection, SelectedEnd, Vec2, anchor, switched, lemma_switch_ends};
use super::movement::move_to_spec;
use crate::term::{Key, TermCommand, TermOp, ops};

verus! {

/// Whether `key` would make the pager fail outside of search typing: `N`
/// over a stale current match, or `v` with the cursor on the last `usize`
/// column, whose selection cannot be drawn (its end column plus one
/// overflows).
pub open spec fn key_panics(s: PagerState, key: Key) -> bool {
    (key == Key::Char('N') && prev_match_panics(s)) || (key == Key::Char('v') && s.cursor_x
        == usize::MAX)
}

/// The pager after `Esc`: the selection is dropped if there is one, else the
/// search is hidden.
pub open spec fn escaped(s: PagerState) -> PagerState {
    if s.selection is Some {
        PagerState { selection: None, ..s }
    } else {
        match s.search {
            Some(se) => PagerState {
                search: Some(SearchView { state: SearchState::Hidden, ..se }),
                ..s
            },
            None => s,
        }
    }
}

/// `o` in visual mode: the cursor goes to the other end of the selection,
/// which then follows it; without a selection the key is only recorded.
pub open spec fn switch_spec(s: PagerState, key: Key) -> (PagerState, Seq<TermOp>) {
    match s.selection {
        Some(sel) => {
            let a = anchor(sel);
            move_to_spec(PagerState { selection: Some(switched(sel)), ..s }, a.x as int, a.y as int)
        },
        None => (PagerState { input_buffer: s.input_buffer.push(key), ..s }, seq![]),
    }
}

/// What a key does outside of search typing: the pager afterwards, the
/// commands, and whether the pager quits.
#[verifier::opaque]
pub open spec fn normal_spec(s: PagerState, key: Key) -> (PagerState, Seq<TermOp>, bool) {
    let jump = s.settings.scroll_jump as int;
    match key {
        Key::Char('q') => (s, seq![], true),
        Key::Char('j') => (vert_by(s, 1).0, vert_by(s, 1).1, false),
        Key::Char('k') => (vert_by(s, -1).0, vert_by(s, -1).1, false),
        Key::Char('d') => (vert_by(s, jump).0, vert_by(s, jump).1, false),
        Key::Char('u') => (vert_by(s, -jump).0, vert_by(s, -jump).1, false),
        Key::Char('h') => (horiz_by(s, -1).0, horiz_by(s, -1).1, false),
        Key::Char('l') => (horiz_by(s, 1).0, horiz_by(s, 1).1, false),
        Key::Down => (vert_by(s, 1).0, vert_by(s, 1).1, false),
        Key::Up => (vert_by(s, -1).0, vert_by(s, -1).1, false),
        Key::Left => (horiz_by(s, -1).0, horiz_by(s, -1).1, false),
        Key::Right => (horiz_by(s, 1).0, horiz_by(s, 1).1, false),
        Key::Char('o') => (switch_spec(s, key).0, switch_spec(s, key).1, false),
        Key::Char('0') => (horiz_to(s, 0).0, horiz_to(s, 0).1, false),
        Key::Char('_') => (motion_underscore(s).0, motion_underscore(s).1, false),
        Key::Char('^') => (motion_underscore(s).0, motion_underscore(s).1, false),
        Key::Char('$') => (motion_dollar(s).0, motion_dollar(s).1, false),
        Key::Char('w') => (motion_w(s, false, false).0, motion_w(s, false, false).1, false),
        Key::Char('W') => (motion_w(s, true, false).0, motion_w(s, true, false).1, false),
        Key::Char('b') => (motion_b(s, false, false).0, motion_b(s, false, false).1, false),
        Key::Char('B') => (motion_b(s, true, false).0, motion_b(s, true, false).1, false),
        Key::Char('e') => (motion_e(s, false, false).0, motion_e(s, false, false).1, false),
        Key::Char('E') => (motion_e(s, true, false).0, motion_e(s, true, false).1, false),
        Key::Char('G') => (motion_big_g(s).0, motion_big_g(s).1, false),
        Key::Char('g') => {
            let (s1, o1, moved) = motion_gg(s);
            let (s2, o2) = if moved {
                suffix(s1, true)
            } else {
                (s1, seq![])
            };
            (PagerState { input_buffer: s2.input_buffer.push(key), ..s2 }, o1 + o2, false)
        },
        Key::Char('v') => (
            PagerState {
                selection: Some(
                    Selection {
                        start: Vec2 { x: s.cursor_x, y: s.logical_y },
                        end: Vec2 { x: s.cursor_x, y: s.logical_y },
                        sel_end: SelectedEnd::End,
                    },
                ),
                ..s
            },
            seq![],
            false,
        ),
        Key::Char('y') => (s, copy_ops(s), true),
        Key::Enter => (s, copy_ops(s), true),
        Key::Esc => (draw_all(escaped(s)).0, draw_all(escaped(s)).1, false),
        Key::Char('/') => (search_mode_spec(s, key).0, search_mode_spec(s, key).1, false),
        Key::Char('n') => (next_match(s).0, next_match(s).1, false),
        Key::Char('N') => (prev_match(s).0, prev_match(s).1, false),
        _ => (PagerState { input_buffer: s.input_buffer.push(key), ..s }, seq![], false),
    }
}

/// `w`/`W` from the last word of a line: when only blanks follow the cursor
/// on its line and the next line starts with a non-blank character, the
/// cursor lands on that character, at the start of the next line (for the
/// motion and for the `w`/`W` key alike).
pub proof fn lemma_w_wraps_to_next_line_start(s: PagerState, ws: bool)
    requires
        s.logical_y + 1 < s.lines.len() <= usize::MAX,
        s.cursor_x < line_len(s, s.logical_y as int),
        forall|j: int|
            s.cursor_x < j < line_len(s, s.logical_y as int) ==> is_whitespace_char(
                #[trigger] line_text(s, s.logical_y as int)[j],
            ),
        line_len(s, s.logical_y + 1) > 0,
        !is_whitespace_char(line_text(s, s.logical_y + 1)[0]),
    ensures
        motion_w(s, ws, false).0.logical_y == s.logical_y + 1,
        motion_w(s, ws, false).0.cursor_x == 0,
        normal_spec(s, Key::Char(if ws { 'W' } else { 'w' })).0.logical_y == s.logical_y + 1,
        normal_spec(s, Key::Char(if ws { 'W' } else { 'w' })).0.cursor_x == 0,
{
    reveal(normal_spec);
    reveal(motion_w);
    reveal(wrap_next);
    let t = line_of(s);
    let cx = s.cursor_x as int;
    let hit = w_hits(t, cx, ws, false);
    assert forall|i: int| 0 <= i < t.len() - min(cx, t.len() as int) implies !#[trigger] hit(i) by {
        if i > 0 {
            assert(is_whitespace_char(t[cx + i]));
        }
    }
    lemma_no_hit(t.len() - min(cx, t.len() as int), hit);
    let s1 = PagerState { logical_y: (s.logical_y + 1) as usize, cursor_x: 0, ..s };
    lemma_suffix_keeps_cursor(s1, true);
    let s2 = suffix(s1, true).0;
    let t2 = line_of(s2);
    let hit2 = w_hits(t2, 0, ws, true);
    assert(hit2(0));
    lemma_first_hit(t2.len() as int, hit2, 0);
    assert(w_jump(t2, 0, ws, true) == Some(0int));
    let s3 = PagerState { cursor_x: 0, wish_cursor_x: 0, ..s2 };
    lemma_suffix_keeps_cursor(s3, false);
    assert(line_len(s2, s2.logical_y as int) > 0);
    assert(horiz_by(s2, 0) == suffix(s3, false));
    assert(motion_w(s2, ws, true) == horiz_by(s2, 0));
    assert(wrap_next(s, ws, Motion::W).0 == motion_w(s2, ws, true).0);
    assert(motion_w(s, ws, false) == wrap_next(s, ws, Motion::W));
}

impl Pager {
    /// A key outside of search typing; returns whether the pager quits.
    pub(crate) fn normal_mode(&mut self, key: Key, out: &mut Vec<TermCommand>) -> (quit: bool)
        requires
            old(self).wf(),
            !key_panics(old(self)@, key),
        ensures
            final(self).wf(),
            final(self)@ == normal_spec(old(self)@, key).0,
            ops(final(out)@) == ops(old(out)@) + normal_spec(old(self)@, key).1,
            quit == normal_spec(old(self)@, key).2,
    {
        reveal(normal_spec);
        let ghost s = self@;
        let ghost o0 = ops(out@);
        let jump = self.settings.scroll_jump as isize;
        match key {
            Key::Char('q') => {
                assert(ops(out@) =~= o0 + seq![]);
                return true;
            },
            Key::Char('j') => self.move_vertically_by(1, out),
            Key::Char('k') => self.move_vertically_by(-1, out),
            Key::Char('d') => self.move_vertically_by(jump, out),
            Key::Char('u') => self.move_vertically_by(-jump, out),
            Key::Char('h') => self.move_horizontally_by(-1, out),
            Key::Char('l') => self.move_horizontally_by(1, out),
            Key::Down => self.move_vertically_by(1, out),
            Key::Up => self.move_vertically_by(-1, out),
            Key::Left => self.move_horizontally_by(-1, out),
            Key::Right => self.move_horizontally_by(1, out),
            Key::Char('o') => {
                match self.selection {
                    Some(sel) => {
                        proof {
                            lemma_switch_ends(sel);
                        }
                        let mut sel = sel;
                        let a = match sel.sel_end {
                            SelectedEnd::Start => sel.end,
                            SelectedEnd::End => sel.start,
                        };
                        sel.sel_end = match sel.sel_end {
                            SelectedEnd::Start => SelectedEnd::End,
                            SelectedEnd::End => SelectedEnd::Start,
                        };
                        self.selection = Some(sel);
                        self.move_to(a.x, a.y, out);
                    },
                    None => {
                        self.input_buffer.push_back(key);
                        assert(ops(out@) =~= o0 + seq![]);
                    },
                }
            },
            Key::Char('0') => self.move_horizontally_to(0, out),
            Key::Char('_') => self.movement_underscore(out),
            Key::Char('^') => self.movement_underscore(out),
            Key::Char('$') => self.movement_dollar(out),
            Key::Char('w') => self.movement_w(false, false, out),
            Key::Char('W') => self.movement_w(true, false, out),
            Key::Char('b') => self.movement_b(false, false, out),
            Key::Char('B') => self.movement_b(true, false, out),
            Key::Char('e') => self.movement_e(false, false, out),
            Key::Char('E') => self.movement_e(true, false, out),
            Key::Char('G') => self.movement_G(out),
            Key::Char('g') => {
                if self.movement_gg(out) {
                    self.movement_suffix(true, out);
                } else {
                    assert(ops(out@) =~= o0 + seq![]);
                }
                self.input_buffer.push_back(key);
            },
            Key::Char('v') => {
                self.selection = Some(
                    Selection::with_coords(
                        self.cursor_x,
                        self.logical_y,
                        self.cursor_x,
                        self.logical_y,
                    ),
                );
                assert(ops(out@) =~= o0 + seq![]);
            },
            Key::Char('y') => {
                self.copy_selection(out);
                return true;
            },
            Key::Enter => {
                self.copy_selection(out);
                return true;
            },
            Key::Esc => {
                if self.selection.is_some() {
                    self.selection = None;
                } else {
                    let taken = self.search.take();
                    match taken {
                        Some(mut se) => {
                            se.state = SearchState::Hidden;
                            self.search = Some(se);
                        },
                        None => {},
                    }
                }
                assert(self@ == escaped(s));
                self.draw(out);
            },
            Key::Char('/') => {
                let _ = self.search_mode(key, out);
            },
            Key::Char('n') => self.move_to_next_match(out),
            Key::Char('N') => self.move_to_prev_match(out),
            _ => {
                self.input_buffer.push_back(key);
                assert(ops(out@) =~= o0 + seq![]);
            },
        }
        false
    }
}

} // verus!
