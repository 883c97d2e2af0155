//! Vim motions of the scrollback buffer: word jumps, line starts and ends,
//! top and bottom. A word motion that finds nothing on the line goes to the
//! next (or previous) line and stops there.
use vstd::prelude::*;
use super::{ScrollbackBuffer, BufferState, text_len};
use super::movement::{horiz_by, horiz_to, move_to_spec, wrap_next, wrap_prev};
use crate::pager::{sat_sub, min, max_text_len};
use crate::pager::motions::{char_or_a, first_hit, lemma_first_hit, lemma_no_hit, non_blank, opt_int, underscore_target};
use crate::term::{Key, TermCommand, TermOp, ops};
use crate::utils::{VimCharExt, is_whitespace, is_whitespace_char, is_ascii_punctuation_char};

verus! {

/// Characters of the cursor's line.
pub open spec fn cur_text(s: BufferState) -> Seq<char> {
    s.text_lines[s.logical_y as int]
}

/// Number of characters after column `cx` of `t`.
pub open spec fn after_count(t: Seq<char>, cx: int) -> int {
    if cx + 1 < t.len() {
        t.len() - cx - 1
    } else {
        0
    }
}

/// Whether `c` starts a word right after `prev`: `c` is not blank, and
/// `prev` is blank or, unless only whitespace separates words, of the other
/// kind (punctuation next to anything else).
pub open spec fn starts_word(prev: char, c: char, ws: bool) -> bool {
    !is_whitespace_char(c) && (is_whitespace_char(prev) || (!ws && is_ascii_punctuation_char(prev)
        != is_ascii_punctuation_char(c)))
}

/// Whether `w` stops at the `i`-th character after the cursor: a word starts
/// there.
pub open spec fn w_stop(t: Seq<char>, cx: int, ws: bool, i: int) -> bool {
    starts_word(t[cx + i], t[cx + 1 + i], ws)
}

/// The stops of `w` as a predicate.
pub open spec fn w_stops(t: Seq<char>, cx: int, ws: bool) -> spec_fn(int) -> bool {
    |i: int| w_stop(t, cx, ws, i)
}

/// `w`/`W`: right to the start of the next word on the line, else to the
/// next line.
pub open spec fn motion_w(s: BufferState, ws: bool) -> (BufferState, Seq<TermOp>, bool) {
    let t = cur_text(s);
    let cx = s.cursor_x as int;
    match first_hit(after_count(t, cx), w_stops(t, cx, ws)) {
        Some(i) => horiz_by(s, i + 1),
        None => wrap_next(s),
    }
}

/// Whether `b` stops at the `i`-th character before the cursor (column
/// `min(cx, len) - 1 - i`): a word starts there, or it is the first
/// character of the line and not blank.
pub open spec fn b_stop(t: Seq<char>, cx: int, ws: bool, i: int) -> bool {
    let j = min(cx, t.len() as int) - 1 - i;
    if j == 0 {
        !is_whitespace_char(t[0])
    } else {
        starts_word(t[j - 1], t[j], ws)
    }
}

/// The stops of `b` as a predicate.
pub open spec fn b_stops(t: Seq<char>, cx: int, ws: bool) -> spec_fn(int) -> bool {
    |i: int| b_stop(t, cx, ws, i)
}

/// `b`/`B`: left to the start of the word before the cursor on the line,
/// else to the previous line.
pub open spec fn motion_b(s: BufferState, ws: bool) -> (BufferState, Seq<TermOp>, bool) {
    let t = cur_text(s);
    let cx = s.cursor_x as int;
    let k = min(cx, t.len() as int);
    match first_hit(k, b_stops(t, cx, ws)) {
        Some(i) => horiz_by(s, -(cx - (k - 1 - i))),
        None => wrap_prev(s),
    }
}

/// Whether `e` stops at the `i`-th character after the cursor: a word ends
/// there, at the end of the line or before a blank or (unless only
/// whitespace separates words) a character of the other kind.
pub open spec fn e_stop(t: Seq<char>, cx: int, ws: bool, i: int) -> bool {
    let c = t[cx + 1 + i];
    !is_whitespace_char(c) && (cx + 2 + i >= t.len() || starts_word(c, t[cx + 2 + i], ws)
        || is_whitespace_char(t[cx + 2 + i]))
}

/// The stops of `e` as a predicate.
pub open spec fn e_stops(t: Seq<char>, cx: int, ws: bool) -> spec_fn(int) -> bool {
    |i: int| e_stop(t, cx, ws, i)
}

/// `e`/`E`: right to the end of the word after the cursor on the line, else
/// to the next line.
pub open spec fn motion_e(s: BufferState, ws: bool) -> (BufferState, Seq<TermOp>, bool) {
    let t = cur_text(s);
    let cx = s.cursor_x as int;
    match first_hit(after_count(t, cx), e_stops(t, cx, ws)) {
        Some(i) => horiz_by(s, i + 1),
        None => wrap_next(s),
    }
}

/// `_`: to the first non-blank character of the line.
pub open spec fn motion_underscore(s: BufferState) -> (BufferState, Seq<TermOp>, bool) {
    horiz_to(s, underscore_target(cur_text(s)))
}

/// `$`: to the last character of the line.
pub open spec fn motion_dollar(s: BufferState) -> (BufferState, Seq<TermOp>, bool) {
    horiz_to(s, sat_sub(cur_text(s).len() as int, 1))
}

/// `G`: to the last line, at the wished column.
pub open spec fn motion_big_g(s: BufferState) -> (BufferState, Seq<TermOp>, bool) {
    move_to_spec(s, s.wish_cursor_x as int, s.lines.len() - 1)
}

/// Whether the key typed just before is `g`.
pub open spec fn last_key_is_g(s: BufferState) -> bool {
    s.input_buffer.len() > 0 && s.input_buffer.last() == Key::Char('g')
}

/// The second `g` of `gg`: to the first line, at the wished column, when
/// the key typed before was `g`; and whether it moved.
pub open spec fn motion_gg(s: BufferState) -> ((BufferState, Seq<TermOp>, bool), bool) {
    if last_key_is_g(s) {
        (move_to_spec(s, s.wish_cursor_x as int, 0), true)
    } else {
        ((s, seq![], true), false)
    }
}

/// Whether `c` starts a word right after `prev`.
fn starts_word_exec(prev: char, c: char, ws: bool) -> (r: bool)
    ensures
        r == starts_word(prev, c, ws),
{
    !is_whitespace(c) && (is_whitespace(prev) || (!ws && prev.is_vim_punctuation()
        != c.is_vim_punctuation()))
}

impl ScrollbackBuffer {
    /// The first stop of `w` after the cursor, if any.
    fn find_w_stop(&self, whitespace: bool) -> (r: Option<usize>)
        requires
            self.wf(),
        ensures
            opt_int(r) == first_hit(
                after_count(cur_text(self@), self@.cursor_x as int),
                w_stops(cur_text(self@), self@.cursor_x as int, whitespace),
            ),
            r matches Some(i) ==> i < max_text_len(),
    {
        let ghost t = cur_text(self@);
        let ghost hit = w_stops(t, self@.cursor_x as int, whitespace);
        let line = self.text_chars(self.logical_y);
        let n = line.len();
        let cx = self.cursor_x;
        let m = if cx < n && cx + 1 < n { n - cx - 1 } else { 0 };
        let mut i: usize = 0;
        while i < m
            invariant
                t == cur_text(self@),
                line@ == t,
                n == t.len(),
                n <= max_text_len(),
                cx == self@.cursor_x,
                m == after_count(t, cx as int),
                i <= m,
                hit == w_stops(t, cx as int, whitespace),
                forall|j: int| 0 <= j < i ==> !#[trigger] hit(j),
            decreases m - i,
        {
            if starts_word_exec(line[cx + i], line[cx + 1 + i], whitespace) {
                assert(hit(i as int));
                proof {
                    lemma_first_hit(m as int, hit, i as int);
                }
                return Some(i);
            }
            assert(!hit(i as int));
            i += 1;
        }
        proof {
            lemma_no_hit(m as int, hit);
        }
        None
    }

    /// `w`/`W`: jumps to the start of the next word, or to the next line.
    pub(crate) fn movement_w(&mut self, whitespace: bool, out: &mut Vec<TermCommand>) -> (ok: bool)
        requires
            old(self).wf(),
        ensures
            final(self).wf(),
            ok == motion_w(old(self)@, whitespace).2,
            ok ==> final(self)@ == motion_w(old(self)@, whitespace).0,
            ok ==> ops(final(out)@) == ops(old(out)@) + motion_w(old(self)@, whitespace).1,
    {
        match self.find_w_stop(whitespace) {
            Some(i) => self.move_horizontally_by((i + 1) as isize, out),
            None => self.wrap_to_next(out),
        }
    }

    /// The first stop of `b` before the cursor, if any.
    fn find_b_stop(&self, whitespace: bool) -> (r: Option<usize>)
        requires
            self.wf(),
        ensures
            opt_int(r) == first_hit(
                min(self@.cursor_x as int, cur_text(self@).len() as int),
                b_stops(cur_text(self@), self@.cursor_x as int, whitespace),
            ),
            r matches Some(i) ==> i < min(self@.cursor_x as int, cur_text(self@).len() as int),
    {
        let ghost t = cur_text(self@);
        let ghost hit = b_stops(t, self@.cursor_x as int, whitespace);
        let line = self.text_chars(self.logical_y);
        let n = line.len();
        let cx = self.cursor_x;
        let k = if cx < n { cx } else { n };
        let mut i: usize = 0;
        while i < k
            invariant
                t == cur_text(self@),
                line@ == t,
                n == t.len(),
                cx == self@.cursor_x,
                k == min(cx as int, n as int),
                i <= k,
                hit == b_stops(t, cx as int, whitespace),
                forall|j: int| 0 <= j < i ==> !#[trigger] hit(j),
            decreases k - i,
        {
            let j = k - 1 - i;
            let stop = if j == 0 {
                !is_whitespace(line[0])
            } else {
                starts_word_exec(line[j - 1], line[j], whitespace)
            };
            if stop {
                assert(hit(i as int));
                proof {
                    lemma_first_hit(k as int, hit, i as int);
                }
                return Some(i);
            }
            assert(!hit(i as int));
            i += 1;
        }
        proof {
            lemma_no_hit(k as int, hit);
        }
        None
    }

    /// `b`/`B`: jumps back to the start of a word, or to the previous line.
    pub(crate) fn movement_b(&mut self, whitespace: bool, out: &mut Vec<TermCommand>) -> (ok: bool)
        requires
            old(self).wf(),
        ensures
            final(self).wf(),
            ok == motion_b(old(self)@, whitespace).2,
            ok ==> final(self)@ == motion_b(old(self)@, whitespace).0,
            ok ==> ops(final(out)@) == ops(old(out)@) + motion_b(old(self)@, whitespace).1,
    {
        let n = self.current_line_len();
        let cx = self.cursor_x;
        let k = if cx < n { cx } else { n };
        match self.find_b_stop(whitespace) {
            Some(i) => {
                let amount = cx - (k - 1 - i);
                self.move_horizontally_by(-(amount as isize), out)
            },
            None => self.wrap_to_previous(out),
        }
    }

    /// The first stop of `e` after the cursor, if any.
    fn find_e_stop(&self, whitespace: bool) -> (r: Option<usize>)
        requires
            self.wf(),
        ensures
            opt_int(r) == first_hit(
                after_count(cur_text(self@), self@.cursor_x as int),
                e_stops(cur_text(self@), self@.cursor_x as int, whitespace),
            ),
            r matches Some(i) ==> i < max_text_len(),
    {
        let ghost t = cur_text(self@);
        let ghost hit = e_stops(t, self@.cursor_x as int, whitespace);
        let line = self.text_chars(self.logical_y);
        let n = line.len();
        let cx = self.cursor_x;
        let m = if cx < n && cx + 1 < n { n - cx - 1 } else { 0 };
        let mut i: usize = 0;
        while i < m
            invariant
                t == cur_text(self@),
                line@ == t,
                n == t.len(),
                n <= max_text_len(),
                cx == self@.cursor_x,
                m == after_count(t, cx as int),
                i <= m,
                hit == e_stops(t, cx as int, whitespace),
                forall|j: int| 0 <= j < i ==> !#[trigger] hit(j),
            decreases m - i,
        {
            let c = line[cx + 1 + i];
            let stop = !is_whitespace(c) && (cx + 2 + i >= n || starts_word_exec(
                c,
                line[cx + 2 + i],
                whitespace,
            ) || is_whitespace(line[cx + 2 + i]));
            if stop {
                assert(hit(i as int));
                proof {
                    lemma_first_hit(m as int, hit, i as int);
                }
                return Some(i);
            }
            assert(!hit(i as int));
            i += 1;
        }
        proof {
            lemma_no_hit(m as int, hit);
        }
        None
    }

    /// `e`/`E`: jumps to the end of the word, or to the next line.
    pub(crate) fn movement_e(&mut self, whitespace: bool, out: &mut Vec<TermCommand>) -> (ok: bool)
        requires
            old(self).wf(),
        ensures
            final(self).wf(),
            ok == motion_e(old(self)@, whitespace).2,
            ok ==> final(self)@ == motion_e(old(self)@, whitespace).0,
            ok ==> ops(final(out)@) == ops(old(out)@) + motion_e(old(self)@, whitespace).1,
    {
        match self.find_e_stop(whitespace) {
            Some(i) => self.move_horizontally_by((i + 1) as isize, out),
            None => self.wrap_to_next(out),
        }
    }

    /// `_`: jumps to the first non-blank character of the line.
    pub(crate) fn movement_underscore(&mut self, out: &mut Vec<TermCommand>) -> (ok: bool)
        requires
            old(self).wf(),
        ensures
            final(self).wf(),
            ok == motion_underscore(old(self)@).2,
            ok ==> final(self)@ == motion_underscore(old(self)@).0,
            ok ==> ops(final(out)@) == ops(old(out)@) + motion_underscore(old(self)@).1,
    {
        let ghost t = cur_text(self@);
        let ghost hit = non_blank(t);
        assert(self.text_lines@[self.logical_y as int]@ == t);
        let jmp = match crate::utils::first_non_whitespace_idx_on(self.text_lines[self.logical_y].as_str()) {
            Some(i) => {
                proof {
                    lemma_first_hit(t.len() as int, hit, i as int);
                }
                i
            },
            None => {
                proof {
                    lemma_no_hit(t.len() as int, hit);
                }
                0
            },
        };
        self.move_horizontally_to(jmp, out)
    }

    /// `$`: jumps to the last character of the line.
    pub(crate) fn movement_dollar(&mut self, out: &mut Vec<TermCommand>) -> (ok: bool)
        requires
            old(self).wf(),
        ensures
            final(self).wf(),
            ok == motion_dollar(old(self)@).2,
            ok ==> final(self)@ == motion_dollar(old(self)@).0,
            ok ==> ops(final(out)@) == ops(old(out)@) + motion_dollar(old(self)@).1,
    {
        let x = self.current_line_len().saturating_sub(1);
        self.move_horizontally_to(x, out)
    }

    /// `G`: jumps to the last line, at the wished column.
    #[allow(non_snake_case)]
    pub(crate) fn movement_G(&mut self, out: &mut Vec<TermCommand>) -> (ok: bool)
        requires
            old(self).wf(),
        ensures
            final(self).wf(),
            ok == motion_big_g(old(self)@).2,
            ok ==> final(self)@ == motion_big_g(old(self)@).0,
            ok ==> ops(final(out)@) == ops(old(out)@) + motion_big_g(old(self)@).1,
    {
        let y = self.lines.len() - 1;
        self.move_to(self.wish_cursor_x, y, out)
    }

    /// The second `g` of `gg`: jumps to the first line when the key typed
    /// before was `g`; returns whether drawing worked and whether it moved.
    pub(crate) fn movement_gg(&mut self, out: &mut Vec<TermCommand>) -> (r: (bool, bool))
        requires
            old(self).wf(),
        ensures
            final(self).wf(),
            r.0 == motion_gg(old(self)@).0.2,
            r.1 == motion_gg(old(self)@).1,
            r.0 ==> final(self)@ == motion_gg(old(self)@).0.0,
            r.0 ==> ops(final(out)@) == ops(old(out)@) + motion_gg(old(self)@).0.1,
    {
        let len = self.input_buffer.len();
        if len > 0 && self.input_buffer[len - 1] == Key::Char('g') {
            let ok = self.move_to(self.wish_cursor_x, 0, out);
            return (ok, true);
        }
        assert(ops(out@) =~= ops(old(out)@) + seq![]);
        (true, false)
    }
}

} // verus!
