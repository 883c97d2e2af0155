//! Vim motions: word jumps, line starts and ends, top and bottom.
use vstd::prelude::*;
use super::{Pager, PagerState, line_text, line_len, sat_add, sat_sub, min, max_text_len};
use super::movement::{horiz_by, horiz_to, move_to_spec, suffix, wrap_next, wrap_prev, lemma_suffix_keeps_cursor};
use crate::term::{Key, TermCommand, TermOp, ops};
use crate::utils::{VimCharExt, is_whitespace, is_whitespace_char, is_ascii_punctuation_char};

verus! {

/// The word motions that wrap to another line.
#[derive(Clone, Copy, Debug, PartialEq, Eq, Structural)]
pub enum Motion {
    W,
    B,
    E,
}

/// Character `k` of `t`, or `'a'` past its end.
pub open spec fn char_or_a(t: Seq<char>, k: int) -> char {
    if 0 <= k < t.len() {
        t[k]
    } else {
        'a'
    }
}

/// A word boundary between `c` and `peek`: punctuation next to
/// non-punctuation, or a letter next to punctuation.
pub open spec fn jump_cond(c: char, peek: char) -> bool {
    (is_ascii_punctuation_char(c) && !is_ascii_punctuation_char(peek)) || (
    !is_ascii_punctuation_char(c) && !is_whitespace_char(c) && is_ascii_punctuation_char(peek))
}

/// First index in `0..n` at which `hit` holds.
pub open spec fn first_hit(n: int, hit: spec_fn(int) -> bool) -> Option<int> {
    if exists|i: int| 0 <= i < n && #[trigger] hit(i) {
        Some(choose|i: int| 0 <= i < n && #[trigger] hit(i) && forall|j: int| 0 <= j < i ==> !#[trigger] hit(j))
    } else {
        None
    }
}

/// A least index at which `hit` holds is the first hit.
pub proof fn lemma_first_hit(n: int, hit: spec_fn(int) -> bool, i: int)
    requires
        0 <= i < n,
        hit(i),
        forall|j: int| 0 <= j < i ==> !#[trigger] hit(j),
    ensures
        first_hit(n, hit) == Some(i),
{
    let k = choose|k: int| 0 <= k < n && #[trigger] hit(k) && forall|j: int| 0 <= j < k ==> !#[trigger] hit(j);
    assert(0 <= k < n && hit(k) && forall|j: int| 0 <= j < k ==> !#[trigger] hit(j));
    if k < i {
        assert(!hit(k));
    }
    if i < k {
        assert(!hit(i));
    }
}

/// No hit means no first hit.
pub proof fn lemma_no_hit(n: int, hit: spec_fn(int) -> bool)
    requires
        forall|j: int| 0 <= j < n ==> !#[trigger] hit(j),
    ensures
        first_hit(n, hit) is None,
{
}

/// What the first hit is: the least index that hits, or none when no index
/// in `0..n` hits.
pub proof fn lemma_first_hit_spec(n: int, hit: spec_fn(int) -> bool)
    ensures
        match first_hit(n, hit) {
            Some(i) => 0 <= i < n && hit(i) && forall|j: int| 0 <= j < i ==> !#[trigger] hit(j),
            None => forall|j: int| 0 <= j < n ==> !#[trigger] hit(j),
        },
{
    if exists|i: int| 0 <= i < n && #[trigger] hit(i) {
        let i = choose|i: int| 0 <= i < n && #[trigger] hit(i) && forall|j: int| 0 <= j < i ==> !#[trigger] hit(j);
        lemma_least_hit_exists(n, hit);
    }
}

/// When some index hits, a least one does.
proof fn lemma_least_hit_exists(n: int, hit: spec_fn(int) -> bool)
    requires
        exists|i: int| 0 <= i < n && #[trigger] hit(i),
    ensures
        exists|i: int| 0 <= i < n && #[trigger] hit(i) && forall|j: int| 0 <= j < i ==> !#[trigger] hit(j),
    decreases n,
{
    if n > 0 && exists|i: int| 0 <= i < n - 1 && #[trigger] hit(i) {
        lemma_least_hit_exists(n - 1, hit);
        let i = choose|i: int| 0 <= i < n - 1 && #[trigger] hit(i) && forall|j: int| 0 <= j < i ==> !#[trigger] hit(j);
        assert(0 <= i < n && hit(i));
    } else {
        assert(hit(n - 1));
        assert forall|j: int| 0 <= j < n - 1 implies !#[trigger] hit(j) by {}
    }
}

/// Whether `w` stops `i` characters after the cursor.
pub open spec fn w_hit(t: Seq<char>, cx: int, ws_only: bool, wrapped: bool, i: int) -> bool {
    let st = min(cx, t.len() as int);
    let c = t[st + i];
    let prev = char_or_a(t, sat_add(cx, sat_sub(i, 1)));
    let idx = sat_add(cx, i);
    (!is_whitespace_char(c) && (is_whitespace_char(prev) || (idx == 0 && wrapped))) || (!ws_only
        && jump_cond(c, prev))
}

/// The stops of `w` as a predicate.
pub open spec fn w_hits(t: Seq<char>, cx: int, ws_only: bool, wrapped: bool) -> spec_fn(int) -> bool {
    |i: int| w_hit(t, cx, ws_only, wrapped, i)
}

/// How far right `w` jumps on text `t` from column `cx`, if it stays on the
/// line.
pub open spec fn w_jump(t: Seq<char>, cx: int, ws_only: bool, wrapped: bool) -> Option<int> {
    first_hit(t.len() - min(cx, t.len() as int), w_hits(t, cx, ws_only, wrapped))
}

/// Whether `b` stops at the `i`-th character before the cursor.
pub open spec fn b_hit(t: Seq<char>, cx: int, ws_only: bool, wrapped: bool, i: int) -> bool {
    let search_end = if wrapped {
        sat_add(cx, 1)
    } else {
        cx
    };
    let m = min(search_end, t.len() as int);
    let c = t[m - 1 - i];
    let target = sat_sub(sat_sub(search_end, 1), i);
    let prev = if target == 0 {
        'a'
    } else {
        char_or_a(t, target - 1)
    };
    (!is_whitespace_char(c) && (is_whitespace_char(prev) || (target == 0 && cx != 0))) || (!ws_only
        && jump_cond(c, prev))
}

/// Where `b` stops, counted backwards from the cursor.
pub open spec fn b_index(t: Seq<char>, cx: int, ws_only: bool, wrapped: bool) -> Option<int> {
    let search_end = if wrapped {
        sat_add(cx, 1)
    } else {
        cx
    };
    first_hit(min(search_end, t.len() as int), b_hits(t, cx, ws_only, wrapped))
}

/// The stops of `b` as a predicate.
pub open spec fn b_hits(t: Seq<char>, cx: int, ws_only: bool, wrapped: bool) -> spec_fn(int) -> bool {
    |i: int| b_hit(t, cx, ws_only, wrapped, i)
}

/// How far left `b` jumps on text `t` from column `cx`, if it stays on the
/// line.
pub open spec fn b_jump(t: Seq<char>, cx: int, ws_only: bool, wrapped: bool) -> Option<int> {
    match b_index(t, cx, ws_only, wrapped) {
        Some(i) => {
            let search_end = if wrapped {
                sat_add(cx, 1)
            } else {
                cx
            };
            Some(sat_sub(cx, sat_sub(sat_sub(search_end, 1), i)))
        },
        None => None,
    }
}

/// First column that `e` looks at.
pub open spec fn e_start(cx: int, wrapped: bool) -> int {
    if wrapped {
        0
    } else {
        sat_add(cx, 1)
    }
}

/// Whether `e` stops `i` characters after where it starts looking: on the
/// last character, or on a non-blank character that ends a word (before a
/// blank, or, unless only whitespace counts, before a character of the
/// other kind).
pub open spec fn e_hit(t: Seq<char>, cx: int, ws_only: bool, wrapped: bool, i: int) -> bool {
    let ss = min(e_start(cx, wrapped), t.len() as int);
    let rest = t.skip(ss);
    let c = rest[i];
    let peek = char_or_a(rest, i + 1);
    i == sat_sub(rest.len() as int, 1) || (!is_whitespace_char(c) && is_whitespace_char(peek)) || (
    !ws_only && !is_whitespace_char(c) && jump_cond(peek, c))
}

/// The stops of `e` as a predicate.
pub open spec fn e_hits(t: Seq<char>, cx: int, ws_only: bool, wrapped: bool) -> spec_fn(int) -> bool {
    |i: int| e_hit(t, cx, ws_only, wrapped, i)
}

/// How far right `e` jumps on text `t` from column `cx`, if it stays on the
/// line.
pub open spec fn e_jump(t: Seq<char>, cx: int, ws_only: bool, wrapped: bool) -> Option<int> {
    let ss = min(e_start(cx, wrapped), t.len() as int);
    match first_hit(t.len() - ss, e_hits(t, cx, ws_only, wrapped)) {
        Some(i) => Some(sat_sub(sat_add(e_start(cx, wrapped), i), cx)),
        None => None,
    }
}

/// The jump of the cursor's line.
pub open spec fn line_of(s: PagerState) -> Seq<char> {
    line_text(s, s.logical_y as int)
}

/// `w`/`W`: to the start of the next word, wrapping once to the next line.
#[verifier::opaque]
pub open spec fn motion_w(s: PagerState, ws: bool, wrapped: bool) -> (PagerState, Seq<TermOp>)
    decreases (if wrapped {
        0int
    } else {
        2int
    }),
{
    match w_jump(line_of(s), s.cursor_x as int, ws, wrapped) {
        Some(j) => horiz_by(s, j),
        None => if !wrapped {
            wrap_next(s, ws, Motion::W)
        } else {
            (s, seq![])
        },
    }
}

/// `b`/`B`: to the start of the previous word, wrapping once to the
/// previous line.
#[verifier::opaque]
pub open spec fn motion_b(s: PagerState, ws: bool, wrapped: bool) -> (PagerState, Seq<TermOp>)
    decreases (if wrapped {
        0int
    } else {
        2int
    }),
{
    match b_jump(line_of(s), s.cursor_x as int, ws, wrapped) {
        Some(j) => horiz_by(s, -j),
        None => if !wrapped {
            wrap_prev(s, ws, Motion::B)
        } else {
            (s, seq![])
        },
    }
}

/// `e`/`E`: to the end of the word, wrapping once to the next line.
#[verifier::opaque]
pub open spec fn motion_e(s: PagerState, ws: bool, wrapped: bool) -> (PagerState, Seq<TermOp>)
    decreases (if wrapped {
        0int
    } else {
        2int
    }),
{
    match e_jump(line_of(s), s.cursor_x as int, ws, wrapped) {
        Some(j) => horiz_by(s, j),
        None => if !wrapped {
            wrap_next(s, ws, Motion::E)
        } else {
            (s, seq![])
        },
    }
}

/// Whether character `i` of `t` is not blank, as a predicate.
pub open spec fn non_blank(t: Seq<char>) -> spec_fn(int) -> bool {
    |i: int| !is_whitespace_char(t[i])
}

/// Column of the first non-blank character of `t`, or zero.
pub open spec fn underscore_target(t: Seq<char>) -> int {
    match first_hit(t.len() as int, non_blank(t)) {
        Some(i) => i,
        None => 0,
    }
}

/// `_`/`^`: to the first non-blank character of the line.
pub open spec fn motion_underscore(s: PagerState) -> (PagerState, Seq<TermOp>) {
    horiz_to(s, underscore_target(line_of(s)))
}

/// `$`: to the last character of the line.
pub open spec fn motion_dollar(s: PagerState) -> (PagerState, Seq<TermOp>) {
    horiz_to(s, sat_sub(line_len(s, s.logical_y as int) as int, 1))
}

/// `G`: to the last line, at the wished column.
pub open spec fn motion_big_g(s: PagerState) -> (PagerState, Seq<TermOp>) {
    move_to_spec(s, s.wish_cursor_x as int, s.lines.len() - 1)
}

/// Whether the key typed just before is `g`.
pub open spec fn last_key_is_g(s: PagerState) -> bool {
    s.input_buffer.len() > 0 && s.input_buffer.last() == Key::Char('g')
}

/// The second `g` of `gg`: to the first line, at the wished column, when
/// the key typed before was `g`.
pub open spec fn motion_gg(s: PagerState) -> (PagerState, Seq<TermOp>, bool) {
    if last_key_is_g(s) {
        let (s1, o1) = move_to_spec(s, s.wish_cursor_x as int, 0);
        (s1, o1, true)
    } else {
        (s, seq![], false)
    }
}

/// Both ends of a word boundary.
fn jump_condition(c: char, peek: char) -> (r: bool)
    ensures
        r == jump_cond(c, peek),
{
    (c.is_vim_punctuation() && !peek.is_vim_punctuation()) || (!c.is_vim_punctuation()
        && !is_whitespace(c) && peek.is_vim_punctuation())
}

/// An optional index as an optional integer.
pub open spec fn opt_int(o: Option<usize>) -> Option<int> {
    match o {
        Some(i) => Some(i as int),
        None => None,
    }
}

impl Pager {
    /// How far right `w` jumps on the cursor's line, if it stays on it.
    fn find_w_jump(&self, whitespace_only: bool, already_wrapped: bool) -> (r: Option<usize>)
        requires
            self.wf(),
        ensures
            opt_int(r) == w_jump(line_of(self@), self@.cursor_x as int, whitespace_only, already_wrapped),
            r matches Some(j) ==> j <= max_text_len(),
    {
        let ghost t = line_of(self@);
        let ghost hit = w_hits(t, self@.cursor_x as int, whitespace_only, already_wrapped);
        let line = self.line_chars(self.logical_y);
        let n = line.len();
        let cx = self.cursor_x;
        let st = if cx < n { cx } else { n };
        let mut i: usize = 0;
        while i < n - st
            invariant
                t == line_of(self@),
                line@ == t,
                n == t.len(),
                n <= max_text_len(),
                cx == self@.cursor_x,
                st == min(cx as int, n as int),
                i <= n - st,
                hit == w_hits(t, cx as int, whitespace_only, already_wrapped),
                forall|j: int| 0 <= j < i ==> !#[trigger] hit(j),
            decreases n - st - i,
        {
            let c = line[st + i];
            let pk = cx.saturating_add(i.saturating_sub(1));
            let prev = if pk < n { line[pk] } else { 'a' };
            let idx = cx.saturating_add(i);
            if (!is_whitespace(c) && (is_whitespace(prev) || (idx == 0 && already_wrapped))) || (
            !whitespace_only && jump_condition(c, prev)) {
                assert(hit(i as int));
                proof {
                    lemma_first_hit((n - st) as int, hit, i as int);
                }
                assert(w_jump(t, cx as int, whitespace_only, already_wrapped) == Some(i as int));
                return Some(i);
            }
            assert(!hit(i as int));
            i += 1;
        }
        proof {
            lemma_no_hit((n - st) as int, hit);
        }
        None
    }

    /// `w`/`W`: jumps to the start of the next word, wrapping once to the next
    /// line.
    pub(crate) fn movement_w(&mut self, whitespace_only: bool, already_wrapped: bool, out: &mut Vec<TermCommand>)
        requires
            old(self).wf(),
        ensures
            final(self).wf(),
            final(self)@ == motion_w(old(self)@, whitespace_only, already_wrapped).0,
            ops(final(out)@) == ops(old(out)@) + motion_w(old(self)@, whitespace_only, already_wrapped).1,
        decreases (if already_wrapped {
            0int
        } else {
            2int
        }),
    {
        reveal(motion_w);
        match self.find_w_jump(whitespace_only, already_wrapped) {
            Some(jump) => {
                self.move_horizontally_by(jump as isize, out);
            },
            None => {
                if !already_wrapped {
                    self.wrap_to_next(whitespace_only, Motion::W, out);
                } else {
                    assert(ops(out@) =~= ops(old(out)@) + seq![]);
                }
            },
        }
    }
    /// How far left `b` jumps on the cursor's line, if it stays on it.
    fn find_b_jump(&self, whitespace_only: bool, already_wrapped: bool) -> (r: Option<usize>)
        requires
            self.wf(),
        ensures
            opt_int(r) == b_jump(line_of(self@), self@.cursor_x as int, whitespace_only, already_wrapped),
            r matches Some(j) ==> j <= self@.cursor_x && j <= max_text_len(),
    {
        let ghost t = line_of(self@);
        let ghost hit = b_hits(t, self@.cursor_x as int, whitespace_only, already_wrapped);
        let line = self.line_chars(self.logical_y);
        let n = line.len();
        let cx = self.cursor_x;
        let search_end = if already_wrapped { cx.saturating_add(1) } else { cx };
        let m = if search_end < n { search_end } else { n };
        let mut i: usize = 0;
        while i < m
            invariant
                t == line_of(self@),
                line@ == t,
                n == t.len(),
                n <= max_text_len(),
                cx == self@.cursor_x,
                search_end == (if already_wrapped { sat_add(cx as int, 1) } else { cx as int }),
                m == min(search_end as int, n as int),
                i <= m,
                hit == b_hits(t, cx as int, whitespace_only, already_wrapped),
                forall|j: int| 0 <= j < i ==> !#[trigger] hit(j),
            decreases m - i,
        {
            let c = line[m - 1 - i];
            let target = search_end.saturating_sub(1).saturating_sub(i);
            let prev = if target == 0 {
                'a'
            } else if target - 1 < n {
                line[target - 1]
            } else {
                'a'
            };
            if (!is_whitespace(c) && (is_whitespace(prev) || (target == 0 && cx != 0))) || (
            !whitespace_only && jump_condition(c, prev)) {
                assert(hit(i as int));
                proof {
                    lemma_first_hit(m as int, hit, i as int);
                }
                return Some(cx.saturating_sub(target));
            }
            assert(!hit(i as int));
            i += 1;
        }
        proof {
            lemma_no_hit(m as int, hit);
        }
        None
    }

    /// `b`/`B`: jumps to the start of the previous word, wrapping once to the
    /// previous line.
    pub(crate) fn movement_b(&mut self, whitespace_only: bool, already_wrapped: bool, out: &mut Vec<TermCommand>)
        requires
            old(self).wf(),
        ensures
            final(self).wf(),
            final(self)@ == motion_b(old(self)@, whitespace_only, already_wrapped).0,
            ops(final(out)@) == ops(old(out)@) + motion_b(old(self)@, whitespace_only, already_wrapped).1,
        decreases (if already_wrapped {
            0int
        } else {
            2int
        }),
    {
        reveal(motion_b);
        match self.find_b_jump(whitespace_only, already_wrapped) {
            Some(jump) => {
                self.move_horizontally_by(-(jump as isize), out);
            },
            None => {
                if !already_wrapped {
                    self.wrap_to_previous(whitespace_only, Motion::B, out);
                } else {
                    assert(ops(out@) =~= ops(old(out)@) + seq![]);
                }
            },
        }
    }

    /// How far right `e` jumps on the cursor's line, if it stays on it.
    fn find_e_jump(&self, whitespace_only: bool, already_wrapped: bool) -> (r: Option<usize>)
        requires
            self.wf(),
        ensures
            opt_int(r) == e_jump(line_of(self@), self@.cursor_x as int, whitespace_only, already_wrapped),
            r matches Some(j) ==> j <= max_text_len(),
    {
        let ghost t = line_of(self@);
        let ghost hit = e_hits(t, self@.cursor_x as int, whitespace_only, already_wrapped);
        let line = self.line_chars(self.logical_y);
        let n = line.len();
        let cx = self.cursor_x;
        let search_start = if already_wrapped { 0 } else { cx.saturating_add(1) };
        let ss = if search_start < n { search_start } else { n };
        let m = n - ss;
        let last = m.saturating_sub(1);
        let ghost rest = t.skip(ss as int);
        let mut i: usize = 0;
        while i < m
            invariant
                t == line_of(self@),
                line@ == t,
                n == t.len(),
                n <= max_text_len(),
                cx == self@.cursor_x,
                search_start == e_start(cx as int, already_wrapped),
                ss == min(search_start as int, n as int),
                m == n - ss,
                last == sat_sub(m as int, 1),
                rest == t.skip(ss as int),
                i <= m,
                hit == e_hits(t, cx as int, whitespace_only, already_wrapped),
                forall|j: int| 0 <= j < i ==> !#[trigger] hit(j),
            decreases m - i,
        {
            let c = line[ss + i];
            let peek = if i + 1 < m { line[ss + i + 1] } else { 'a' };
            assert(c == rest[i as int]);
            assert(peek == char_or_a(rest, i + 1));
            if i == last || (!is_whitespace(c) && is_whitespace(peek)) || (!whitespace_only
                && !is_whitespace(c) && jump_condition(peek, c)) {
                assert(hit(i as int));
                proof {
                    lemma_first_hit(m as int, hit, i as int);
                }
                let target = search_start.saturating_add(i);
                return Some(target.saturating_sub(cx));
            }
            assert(!hit(i as int));
            i += 1;
        }
        proof {
            lemma_no_hit(m as int, hit);
        }
        None
    }

    /// `e`/`E`: jumps to the end of the word, wrapping once to the next line.
    pub(crate) fn movement_e(&mut self, whitespace_only: bool, already_wrapped: bool, out: &mut Vec<TermCommand>)
        requires
            old(self).wf(),
        ensures
            final(self).wf(),
            final(self)@ == motion_e(old(self)@, whitespace_only, already_wrapped).0,
            ops(final(out)@) == ops(old(out)@) + motion_e(old(self)@, whitespace_only, already_wrapped).1,
        decreases (if already_wrapped {
            0int
        } else {
            2int
        }),
    {
        reveal(motion_e);
        match self.find_e_jump(whitespace_only, already_wrapped) {
            Some(jump) => {
                self.move_horizontally_by(jump as isize, out);
            },
            None => {
                if !already_wrapped {
                    self.wrap_to_next(whitespace_only, Motion::E, out);
                } else {
                    assert(ops(out@) =~= ops(old(out)@) + seq![]);
                }
            },
        }
    }

    /// `_`/`^`: jumps to the first non-blank character of the line.
    pub(crate) fn movement_underscore(&mut self, out: &mut Vec<TermCommand>)
        requires
            old(self).wf(),
        ensures
            final(self).wf(),
            final(self)@ == motion_underscore(old(self)@).0,
            ops(final(out)@) == ops(old(out)@) + motion_underscore(old(self)@).1,
    {
        let ghost t = line_of(self@);
        let ghost hit = non_blank(t);
        let jmp = match crate::utils::first_non_whitespace_idx_on(self.current_line()) {
            Some(i) => {
                proof {
                    lemma_first_hit(t.len() as int, hit, i as int);
                }
                i
            },
            None => {
                proof {
                    lemma_no_hit(t.len() as int, hit);
                }
                0
            },
        };
        assert(jmp == underscore_target(t));
        self.move_horizontally_to(jmp, out);
    }

    /// `$`: jumps to the last character of the line.
    pub(crate) fn movement_dollar(&mut self, out: &mut Vec<TermCommand>)
        requires
            old(self).wf(),
        ensures
            final(self).wf(),
            final(self)@ == motion_dollar(old(self)@).0,
            ops(final(out)@) == ops(old(out)@) + motion_dollar(old(self)@).1,
    {
        let x = self.current_line_len().saturating_sub(1);
        self.move_horizontally_to(x, out);
    }

    /// `G`: jumps to the last line, at the wished column.
    #[allow(non_snake_case)]
    pub(crate) fn movement_G(&mut self, out: &mut Vec<TermCommand>)
        requires
            old(self).wf(),
        ensures
            final(self).wf(),
            final(self)@ == motion_big_g(old(self)@).0,
            ops(final(out)@) == ops(old(out)@) + motion_big_g(old(self)@).1,
    {
        let y = self.lines.len() - 1;
        self.move_to(self.wish_cursor_x, y, out);
    }

    /// The second `g` of `gg`: jumps to the first line when the key typed
    /// before was `g`; returns whether it did.
    pub(crate) fn movement_gg(&mut self, out: &mut Vec<TermCommand>) -> (moved: bool)
        requires
            old(self).wf(),
        ensures
            final(self).wf(),
            final(self)@ == motion_gg(old(self)@).0,
            ops(final(out)@) == ops(old(out)@) + motion_gg(old(self)@).1,
            moved == motion_gg(old(self)@).2,
    {
        let len = self.input_buffer.len();
        if len > 0 && self.input_buffer[len - 1] == Key::Char('g') {
            self.move_to(self.wish_cursor_x, 0, out);
            return true;
        }
        assert(ops(out@) =~= ops(old(out)@) + seq![]);
        false
    }
}

} // verus!
