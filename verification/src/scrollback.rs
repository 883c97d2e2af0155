//! A plain scrollback buffer: vim motions and a visual selection over the
//! captured scrollback, without search or status line. Where the buffer
//! fails while drawing (a row counter that overflows), its operations report
//! it by returning `false` (or `None`), after the commands queued until then.
use vstd::prelude::*;
use std::collections::VecDeque;
use crate::pager::{sat_add, sat_sub, min, max_text_len, kept_lines};
use crate::pager::rendering::chars_range;
use crate::selection::{Selection, SelectedEnd, Vec2, pos_le, expanded, lemma_expand_follows_cursor};
use crate::term::{Color, Key, TermCommand, TermOp, emit, emit_print, ops};
use crate::text::{bounded_char_count, byte_len, char_count, chars_of, lossy_decode, ansi_stripped, strip_ansi, string_from_chars, string_of, utf8_lossy};
use vstd::utf8::encode_utf8;

use self::movement::{chained, suffix, vert_by, horiz_by, horiz_to};
use self::motions::{motion_w, motion_b, motion_e, motion_underscore, motion_dollar, motion_big_g, motion_gg};
use self::copy::copy_ops;

pub mod settings;
pub mod movement;
pub mod motions;
pub mod copy;

verus! {

/// Columns between the end of the last line and the initial cursor.
pub const PROMPT_CURSOR_OFFSET: usize = 1;

/// Lines kept visible above and below the cursor.
pub const SCROLLOFF: usize = 4;

/// Lines moved by `d` and `u`.
pub const SCROLL_JUMP: usize = 10;

/// Capacity reserved for the keys typed so far.
pub const INPUT_BUFFER_SIZE: usize = 4;

/// Everything the buffer holds, with texts taken as characters.
pub struct BufferState {
    pub lines: Seq<Seq<char>>,
    pub text_lines: Seq<Seq<char>>,
    pub cursor_x: usize,
    pub wish_cursor_x: usize,
    pub logical_y: usize,
    pub term_height: usize,
    pub viewport_start: usize,
    pub viewport_end: usize,
    pub input_buffer: Seq<Key>,
    pub selection: Option<Selection>,
}

/// The scrollback buffer.
pub struct ScrollbackBuffer {
    lines: Vec<String>,
    /// The lines without escape sequences.
    text_lines: Vec<String>,
    /// Column of the cursor, in characters.
    cursor_x: usize,
    wish_cursor_x: usize,
    logical_y: usize,
    term_height: usize,
    viewport_start: usize,
    viewport_end: usize,
    input_buffer: VecDeque<Key>,
    selection: Option<Selection>,
}

/// The characters of each text.
pub open spec fn texts(v: Seq<String>) -> Seq<Seq<char>> {
    v.map_values(|s: String| s@)
}

impl View for ScrollbackBuffer {
    type V = BufferState;

    closed spec fn view(&self) -> BufferState {
        BufferState {
            lines: texts(self.lines@),
            text_lines: texts(self.text_lines@),
            cursor_x: self.cursor_x,
            wish_cursor_x: self.wish_cursor_x,
            logical_y: self.logical_y,
            term_height: self.term_height,
            viewport_start: self.viewport_start,
            viewport_end: self.viewport_end,
            input_buffer: self.input_buffer@,
            selection: self.selection,
        }
    }
}

/// The invariant of the buffer.
pub open spec fn buffer_wf(s: BufferState) -> bool {
    &&& s.lines.len() >= 1
    &&& s.text_lines.len() == s.lines.len()
    &&& s.logical_y < s.lines.len()
    &&& s.viewport_end < s.lines.len()
    &&& s.viewport_start <= s.viewport_end + 1
    &&& s.viewport_end + 1 <= s.viewport_start + s.term_height
    &&& 1 <= s.term_height <= u16::MAX
    &&& forall|i: int| 0 <= i < s.text_lines.len() ==> (#[trigger] s.text_lines[i]).len() <= max_text_len()
    &&& s.cursor_x <= max_text_len()
    &&& (s.selection matches Some(sel) ==> {
        &&& pos_le(sel.start, sel.end)
        &&& sel.end.y < s.lines.len()
        &&& sel.start.x < usize::MAX
        &&& sel.end.x < usize::MAX
    })
}

/// Number of characters of text line `y`.
pub open spec fn text_len(s: BufferState, y: int) -> nat {
    s.text_lines[y].len()
}

/// Row of the cursor on the screen.
pub open spec fn cursor_row(s: BufferState) -> int {
    sat_sub(s.logical_y as int, s.viewport_start as int)
}

/// Rows `lo..hi` of the viewport, as printed.
pub open spec fn raw_rows(s: BufferState, lo: int, hi: int) -> Seq<TermOp>
    decreases hi - lo,
{
    if hi <= lo {
        seq![]
    } else {
        raw_rows(s, lo, hi - 1) + seq![
            TermOp::MoveTo(0, (hi - 1 - s.viewport_start) as usize),
            TermOp::Print(s.lines[hi - 1]),
        ]
    }
}

/// Screen row of whole line `k` of a selection whose first whole line is on
/// row `y0`, as the buffer computes it: a selection starting above the
/// viewport starts from a negative row that wraps around.
pub open spec fn wrapped_row(y0: int, k: int) -> int {
    if y0 < 0 {
        y0 + usize::MAX + 1 + k
    } else {
        y0 + k
    }
}

/// Whole lines `lo..hi` of a selection, the first one on row `y0`.
pub open spec fn selection_rows(s: BufferState, lo: int, hi: int, y0: int) -> Seq<TermOp>
    decreases hi - lo,
{
    if hi <= lo {
        seq![]
    } else {
        selection_rows(s, lo, hi - 1, y0) + seq![
            TermOp::MoveTo(0, wrapped_row(y0, hi - 1 - lo) as usize),
            TermOp::Print(s.text_lines[hi - 1]),
        ]
    }
}

/// First line that the selection prints whole.
pub open spec fn sel_loop_start(s: BufferState, sel: Selection) -> int {
    if sel.start.y < s.viewport_start {
        s.viewport_start as int
    } else {
        sel.start.y + 1
    }
}

/// Line after the last one that the selection prints whole.
pub open spec fn sel_loop_end(s: BufferState, sel: Selection) -> int {
    let pe = sel.end.y - s.viewport_start;
    if pe < s.term_height {
        sel.end.y as int
    } else {
        sel.end.y - (pe - s.term_height)
    }
}

/// First screen row of a selection over several lines: the row after its
/// first line, or, when it starts above the viewport, that negative offset.
pub open spec fn sel_first_row(s: BufferState, sel: Selection) -> int {
    if sel.start.y >= s.viewport_start {
        sel.start.y - s.viewport_start + 1
    } else {
        sel.start.y - s.viewport_start
    }
}

/// Whether drawing the selection overflows its row counter: it starts above
/// the viewport and has more whole lines to draw than lines above.
pub open spec fn selection_overflows(s: BufferState, sel: Selection) -> bool {
    &&& sel.end.y >= s.viewport_start
    &&& sel.start.y <= s.viewport_end
    &&& sel.start.y != sel.end.y
    &&& sel.start.y < s.viewport_start
    &&& sel_loop_end(s, sel) - sel_loop_start(s, sel) > s.viewport_start - sel.start.y
}

/// Commands that draw the selection in black on yellow.
pub open spec fn selection_draw_ops(s: BufferState, sel: Selection) -> Seq<TermOp> {
    let vs = s.viewport_start as int;
    if !(sel.end.y >= vs && sel.start.y <= s.viewport_end) {
        seq![]
    } else {
        let pe = sel.end.y - vs;
        let head = seq![
            if sel.start.y < vs {
                TermOp::MoveTo(0, 0)
            } else {
                TermOp::MoveTo(sel.start.x, (sel.start.y - vs) as usize)
            },
            TermOp::SetForeground(Color::Black),
            TermOp::SetBackground(Color::Yellow),
        ];
        let tail = seq![TermOp::SetForeground(Color::Reset), TermOp::SetBackground(Color::Reset)];
        if sel.start.y == sel.end.y {
            head + seq![TermOp::Print(chars_range(s.text_lines[sel.start.y as int], sel.start.x as int, sel.end.x + 1))] + tail
        } else {
            let first = if sel.start.y >= vs {
                let t = s.text_lines[sel.start.y as int];
                seq![TermOp::Print(chars_range(t, sel.start.x as int, t.len() as int))]
            } else {
                seq![]
            };
            let last = if pe < s.term_height {
                seq![
                    TermOp::MoveTo(0, pe as usize),
                    TermOp::Print(chars_range(s.text_lines[sel.end.y as int], 0, sel.end.x + 1)),
                ]
            } else {
                seq![]
            };
            head + first + selection_rows(s, sel_loop_start(s, sel), sel_loop_end(s, sel), sel_first_row(s, sel)) + last + tail
        }
    }
}

/// Commands of the selection, if any, and whether they can be drawn.
pub open spec fn selection_part(s: BufferState) -> (Seq<TermOp>, bool) {
    match s.selection {
        Some(sel) => (selection_draw_ops(s, sel), !selection_overflows(s, sel)),
        None => (seq![], true),
    }
}

/// Drawing the buffer: the commands, and whether they can all be drawn.
pub open spec fn buffer_draw(s: BufferState) -> (Seq<TermOp>, bool) {
    let (so, ok) = selection_part(s);
    (
        seq![TermOp::ClearAll] + raw_rows(s, s.viewport_start as int, s.viewport_end + 1) + so + seq![
            TermOp::MoveTo(s.cursor_x, cursor_row(s) as usize),
            TermOp::Flush,
        ],
        ok,
    )
}

/// Drawing the cursor: the commands, and whether they can all be drawn.
pub open spec fn buffer_cursor(s: BufferState) -> (Seq<TermOp>, bool) {
    let (so, ok) = selection_part(s);
    (seq![TermOp::MoveTo(s.cursor_x, cursor_row(s) as usize)] + so + seq![TermOp::Flush], ok)
}

/// A step as the key handler reports it: `Some(false)` (go on) when it
/// could draw, else `None`.
pub open spec fn step(r: (BufferState, Seq<TermOp>, bool)) -> (BufferState, Seq<TermOp>, Option<bool>) {
    (r.0, r.1, if r.2 { Some(false) } else { None })
}

/// What a key does: the buffer afterwards, the commands, and `Some` of
/// whether the buffer quits, or `None` when drawing failed.
#[verifier::opaque]
pub open spec fn key_spec(s: BufferState, key: Key) -> (BufferState, Seq<TermOp>, Option<bool>) {
    let jump = SCROLL_JUMP as int;
    match key {
        Key::Char('q') => (s, seq![], Some(true)),
        Key::Char('j') => step(vert_by(s, 1)),
        Key::Char('k') => step(vert_by(s, -1)),
        Key::Char('d') => step(vert_by(s, jump)),
        Key::Char('u') => step(vert_by(s, -jump)),
        Key::Char('h') => step(horiz_by(s, -1)),
        Key::Char('l') => step(horiz_by(s, 1)),
        Key::Char('0') => step(horiz_to(s, 0)),
        Key::Char('_') => step(motion_underscore(s)),
        Key::Char('$') => step(motion_dollar(s)),
        Key::Char('w') => step(motion_w(s, false)),
        Key::Char('W') => step(motion_w(s, true)),
        Key::Char('b') => step(motion_b(s, false)),
        Key::Char('B') => step(motion_b(s, true)),
        Key::Char('e') => step(motion_e(s, false)),
        Key::Char('E') => step(motion_e(s, true)),
        Key::Char('G') => step(motion_big_g(s)),
        Key::Char('g') => {
            let (a, moved) = motion_gg(s);
            let b = if moved {
                chained(a, suffix(a.0, true))
            } else {
                a
            };
            if b.2 {
                (BufferState { input_buffer: b.0.input_buffer.push(key), ..b.0 }, b.1, Some(false))
            } else {
                (b.0, b.1, None)
            }
        },
        Key::Char('v') => (
            BufferState {
                selection: Some(
                    Selection {
                        start: Vec2 { x: s.cursor_x, y: s.logical_y },
                        end: Vec2 { x: s.cursor_x, y: s.logical_y },
                        sel_end: SelectedEnd::End,
                    },
                ),
                ..s
            },
            seq![],
            Some(false),
        ),
        Key::Char('y') => (s, copy_ops(s), Some(true)),
        Key::Enter => (s, copy_ops(s), Some(true)),
        Key::Esc => {
            let s1 = BufferState { selection: None, ..s };
            (s1, buffer_draw(s1).0, if buffer_draw(s1).1 { Some(false) } else { None })
        },
        _ => (BufferState { input_buffer: s.input_buffer.push(key), ..s }, seq![], Some(false)),
    }
}

/// A line without its ANSI escape codes, the bytes left decoded.
pub open spec fn stripped_text(raw: Seq<char>) -> Seq<char> {
    lossy_decode(ansi_stripped(encode_utf8(raw)))
}

/// The buffer when it starts on `input` and a terminal of `th` rows: the
/// lines up to the last non-empty one (the first line is always kept), the
/// cursor on the last line, `PROMPT_CURSOR_OFFSET` columns past its last
/// character, and the viewport ending there.
pub open spec fn initial_buffer(b: BufferState, input: Seq<String>, th: u16) -> bool {
    let raw = texts(input);
    let k = kept_lines(raw, input.len() as int);
    &&& b.lines == raw.take(k)
    &&& b.text_lines == Seq::new(k as nat, |i: int| stripped_text(raw[i]))
    &&& b.cursor_x == (if k == 0 {
        0
    } else {
        sat_sub(stripped_text(raw[k - 1]).len() as int, 1)
    }) + PROMPT_CURSOR_OFFSET
    &&& b.wish_cursor_x == b.cursor_x
    &&& b.logical_y == sat_sub(k, 1)
    &&& b.term_height == th
    &&& b.viewport_start == sat_sub(k, th as int)
    &&& b.viewport_end == sat_sub(k, 1)
    &&& b.input_buffer.len() == 0
    &&& b.selection is None
}

impl ScrollbackBuffer {
    /// The invariant of the buffer.
    pub open spec fn wf(&self) -> bool {
        buffer_wf(self@)
    }

    /// The characters of text line `y`.
    pub(crate) fn text_chars(&self, y: usize) -> (v: Vec<char>)
        requires
            self.wf(),
            y < self@.lines.len(),
        ensures
            v@ == self@.text_lines[y as int],
            v@.len() <= max_text_len(),
    {
        chars_of(self.text_lines[y].as_str())
    }

    /// Row of the cursor on the screen.
    fn get_physical_cursor_y(&self) -> (y: usize)
        requires
            self.wf(),
        ensures
            y == cursor_row(self@),
    {
        self.logical_y.saturating_sub(self.viewport_start)
    }

    /// Prints whole lines `ls..le` of a selection from row `y_idx` on,
    /// the row counting as the buffer counts it.
    fn draw_selection_rows(&self, ls: usize, le: usize, y0: Ghost<int>, y_idx: usize, out: &mut Vec<TermCommand>)
        requires
            self.wf(),
            ls <= le <= self@.lines.len(),
            y0@ < 0 ==> y_idx == y0@ + usize::MAX + 1 && le - ls <= -y0@,
            y0@ >= 0 ==> y_idx == y0@ && y_idx + le - ls <= usize::MAX,
        ensures
            ops(final(out)@) == ops(old(out)@) + selection_rows(self@, ls as int, le as int, y0@),
    {
        let ghost s = self@;
        let ghost o0 = ops(out@);
        let mut i = ls;
        while i < le
            invariant
                self.wf(),
                s == self@,
                ls <= i <= le <= s.lines.len(),
                y0@ < 0 ==> y_idx == y0@ + usize::MAX + 1 && le - ls <= -y0@,
                y0@ >= 0 ==> y_idx == y0@ && y_idx + le - ls <= usize::MAX,
                ops(out@) == o0 + selection_rows(s, ls as int, i as int, y0@),
            decreases le - i,
        {
            assert(s.text_lines.len() == self.text_lines.len());
            emit(out, TermCommand::MoveTo(0, y_idx + (i - ls)));
            emit_print(out, string_of(self.text_lines[i].as_str()));
            assert(o0 + selection_rows(s, ls as int, i + 1, y0@) =~= o0 + selection_rows(
                s,
                ls as int,
                i as int,
                y0@,
            ) + seq![
                TermOp::MoveTo(0, wrapped_row(y0@, (i - ls) as int) as usize),
                TermOp::Print(s.text_lines[i as int]),
            ]);
            i += 1;
        }
    }

    /// Draws `sel` in black on yellow; `false` when its row counter would
    /// overflow, before the whole lines are drawn.
    #[verifier::rlimit(50)]
    #[verifier::spinoff_prover]
    fn draw_selection(&self, sel: Selection, out: &mut Vec<TermCommand>) -> (ok: bool)
        requires
            self.wf(),
            pos_le(sel.start, sel.end),
            sel.end.y < self@.lines.len(),
            sel.end.x < usize::MAX,
        ensures
            ok == !selection_overflows(self@, sel),
            ok ==> ops(final(out)@) == ops(old(out)@) + selection_draw_ops(self@, sel),
    {
        let ghost s = self@;
        let ghost o0 = ops(out@);
        let vs = self.viewport_start;
        let th = self.term_height;
        assert(s.lines.len() == self.text_lines.len());
        if !(sel.end.y >= vs && sel.start.y <= self.viewport_end) {
            assert(ops(out@) =~= o0 + selection_draw_ops(s, sel));
            return true;
        }
        let pe = sel.end.y - vs;
        if sel.start.y < vs {
            emit(out, TermCommand::MoveTo(0, 0));
        } else {
            emit(out, TermCommand::MoveTo(sel.start.x, sel.start.y - vs));
        }
        emit(out, TermCommand::SetForeground(Color::Black));
        emit(out, TermCommand::SetBackground(Color::Yellow));
        let ghost o1 = ops(out@);
        if sel.start.y == sel.end.y {
            let chars = self.text_chars(sel.start.y);
            let len = chars.len();
            let a = if sel.start.x < len { sel.start.x } else { len };
            let b = if sel.end.x + 1 < len { sel.end.x + 1 } else { len };
            emit_print(out, string_from_chars(&chars, a, b));
            emit(out, TermCommand::SetForeground(Color::Reset));
            emit(out, TermCommand::SetBackground(Color::Reset));
            assert(ops(out@) =~= o0 + selection_draw_ops(s, sel));
            return true;
        }
        if sel.start.y >= vs {
            let chars = self.text_chars(sel.start.y);
            let len = chars.len();
            let a = if sel.start.x < len { sel.start.x } else { len };
            emit_print(out, string_from_chars(&chars, a, len));
        }
        let ls = if sel.start.y < vs { vs } else { sel.start.y + 1 };
        let le = if pe < th { sel.end.y } else { sel.end.y - (pe - th) };
        assert(ls == sel_loop_start(s, sel));
        assert(le == sel_loop_end(s, sel));
        if sel.start.y < vs {
            let above = vs - sel.start.y;
            if le - ls > above {
                return false;
            }
            let y_idx = usize::MAX - above + 1;
            self.draw_selection_rows(ls, le, Ghost(sel.start.y - vs), y_idx, out);
        } else {
            let y_idx = sel.start.y - vs + 1;
            self.draw_selection_rows(ls, le, Ghost(y_idx as int), y_idx, out);
        }
        if pe < th {
            emit(out, TermCommand::MoveTo(0, pe));
            let chars = self.text_chars(sel.end.y);
            let len = chars.len();
            let b = if sel.end.x + 1 < len { sel.end.x + 1 } else { len };
            emit_print(out, string_from_chars(&chars, 0, b));
        }
        emit(out, TermCommand::SetForeground(Color::Reset));
        emit(out, TermCommand::SetBackground(Color::Reset));
        assert(ops(out@) =~= o0 + selection_draw_ops(s, sel));
        true
    }

    /// Draws the selection, if any; `false` when it cannot be drawn.
    fn draw_selection_part(&self, out: &mut Vec<TermCommand>) -> (ok: bool)
        requires
            self.wf(),
        ensures
            ok == selection_part(self@).1,
            ok ==> ops(final(out)@) == ops(old(out)@) + selection_part(self@).0,
    {
        match self.selection {
            Some(sel) => self.draw_selection(sel, out),
            None => {
                assert(ops(out@) =~= ops(old(out)@) + selection_part(self@).0);
                true
            },
        }
    }

    /// Draws the lines of the viewport, the selection and the cursor;
    /// `false` when the selection cannot be drawn.
    pub fn draw(&self, out: &mut Vec<TermCommand>) -> (ok: bool)
        requires
            self.wf(),
        ensures
            ok == buffer_draw(self@).1,
            ok ==> ops(final(out)@) == ops(old(out)@) + buffer_draw(self@).0,
    {
        let ghost s = self@;
        let ghost o0 = ops(out@);
        emit(out, TermCommand::ClearAll);
        let ghost base = ops(out@);
        let vs = self.viewport_start;
        assert(s.lines.len() == self.lines.len());
        let hi = self.viewport_end + 1;
        let mut i = vs;
        while i < hi
            invariant
                self.wf(),
                s == self@,
                vs == s.viewport_start,
                hi == s.viewport_end + 1,
                vs <= i <= hi <= s.lines.len(),
                ops(out@) == base + raw_rows(s, vs as int, i as int),
            decreases hi - i,
        {
            assert(s.lines.len() == self.lines.len());
            emit(out, TermCommand::MoveTo(0, i - vs));
            emit_print(out, string_of(self.lines[i].as_str()));
            assert(base + raw_rows(s, vs as int, i + 1) =~= base + raw_rows(s, vs as int, i as int)
                + seq![TermOp::MoveTo(0, (i - vs) as usize), TermOp::Print(s.lines[i as int])]);
            i += 1;
        }
        if !self.draw_selection_part(out) {
            return false;
        }
        let y = self.get_physical_cursor_y();
        emit(out, TermCommand::MoveTo(self.cursor_x, y));
        emit(out, TermCommand::Flush);
        assert(ops(out@) =~= o0 + buffer_draw(s).0);
        true
    }

    /// Puts the cursor in place and draws the selection again; `false` when
    /// the selection cannot be drawn.
    fn draw_cursor(&self, out: &mut Vec<TermCommand>) -> (ok: bool)
        requires
            self.wf(),
        ensures
            ok == buffer_cursor(self@).1,
            ok ==> ops(final(out)@) == ops(old(out)@) + buffer_cursor(self@).0,
    {
        let ghost o0 = ops(out@);
        let y = self.get_physical_cursor_y();
        emit(out, TermCommand::MoveTo(self.cursor_x, y));
        if !self.draw_selection_part(out) {
            return false;
        }
        emit(out, TermCommand::Flush);
        assert(ops(out@) =~= o0 + buffer_cursor(self@).0);
        true
    }
    /// The buffer over the lines of `input` on a terminal of `term_height`
    /// rows. Without lines, or without rows, it is built but cannot be drawn
    /// or moved: it is then not well formed.
    pub fn new(input: Vec<String>, term_height: u16) -> (b: ScrollbackBuffer)
        ensures
            initial_buffer(b@, input@, term_height),
            b.wf() <==> input@.len() > 0 && term_height > 0,
    {
        let ghost raw = texts(input@);
        let mut raw_lines: Vec<String> = Vec::new();
        let mut text_lines: Vec<String> = Vec::new();
        let mut i: usize = 0;
        while i < input.len()
            invariant
                i <= input.len(),
                raw == texts(input@),
                raw_lines@.len() == i,
                text_lines@.len() == i,
                forall|j: int| 0 <= j < i ==> (#[trigger] raw_lines@[j])@ == raw[j],
                forall|j: int| 0 <= j < i ==> {
                    &&& (#[trigger] text_lines@[j])@ == stripped_text(raw[j])
                    &&& text_lines@[j]@.len() <= max_text_len()
                },
            decreases input.len() - i,
        {
            let line = input[i].as_str();
            let stripped = strip_ansi(line.as_bytes());
            let text = utf8_lossy(stripped.as_slice());
            let _ = bounded_char_count(text.as_str());
            text_lines.push(text);
            raw_lines.push(string_of(line));
            i += 1;
        }
        let th = term_height as usize;
        if raw_lines.len() == 0 {
            let b = ScrollbackBuffer {
                cursor_x: PROMPT_CURSOR_OFFSET,
                logical_y: 0,
                wish_cursor_x: PROMPT_CURSOR_OFFSET,
                term_height: th,
                viewport_start: 0,
                viewport_end: 0,
                lines: raw_lines,
                text_lines,
                selection: None,
                input_buffer: VecDeque::with_capacity(INPUT_BUFFER_SIZE),
            };
            assert(b@.lines =~= raw.take(0));
            assert(b@.text_lines =~= Seq::new(0, |i: int| stripped_text(raw[i])));
            return b;
        }
        let mut last = raw_lines.len() - 1;
        while last > 0 && raw_lines[last].as_str().is_empty()
            invariant
                last < raw_lines@.len(),
                raw_lines@.len() == input@.len(),
                raw.len() == raw_lines@.len(),
                kept_lines(raw, raw_lines@.len() as int) == kept_lines(raw, last + 1),
                text_lines@.len() == raw_lines@.len(),
                forall|j: int| 0 <= j < raw_lines@.len() ==> (#[trigger] raw_lines@[j])@ == raw[j],
                forall|j: int| 0 <= j < raw_lines@.len() ==> {
                    &&& (#[trigger] text_lines@[j])@ == stripped_text(raw[j])
                    &&& text_lines@[j]@.len() <= max_text_len()
                },
            decreases last,
        {
            last -= 1;
        }
        assert(kept_lines(raw, last + 1) == last + 1);
        raw_lines.truncate(last + 1);
        text_lines.truncate(last + 1);
        let n = raw_lines.len();
        let last_len = char_count(text_lines[n - 1].as_str());
        let cursor_x = last_len.saturating_sub(1) + PROMPT_CURSOR_OFFSET;
        let b = ScrollbackBuffer {
            cursor_x,
            logical_y: n - 1,
            wish_cursor_x: cursor_x,
            term_height: th,
            viewport_start: n.saturating_sub(th),
            viewport_end: n - 1,
            lines: raw_lines,
            text_lines,
            selection: None,
            input_buffer: VecDeque::with_capacity(INPUT_BUFFER_SIZE),
        };
        assert(b@.lines =~= raw.take(n as int));
        assert(b@.text_lines =~= Seq::new(n as nat, |i: int| stripped_text(raw[i])));
        b
    }

    /// A key pressed; returns `Some` of whether the buffer quits, or `None`
    /// when drawing failed, after the commands queued until then.
    #[verifier::rlimit(50)]
    #[verifier::spinoff_prover]
    pub fn handle_key_event(&mut self, key: Key, out: &mut Vec<TermCommand>) -> (r: Option<bool>)
        requires
            old(self).wf(),
        ensures
            final(self).wf(),
            r == key_spec(old(self)@, key).2,
            r is Some ==> final(self)@ == key_spec(old(self)@, key).0,
            r is Some ==> ops(final(out)@) == ops(old(out)@) + key_spec(old(self)@, key).1,
    {
        reveal(key_spec);
        let ghost s = self@;
        let ghost o0 = ops(out@);
        let jump = SCROLL_JUMP as isize;
        let ok = match key {
            Key::Char('q') => {
                assert(ops(out@) =~= o0 + seq![]);
                return Some(true);
            },
            Key::Char('j') => self.move_vertically_by(1, out),
            Key::Char('k') => self.move_vertically_by(-1, out),
            Key::Char('d') => self.move_vertically_by(jump, out),
            Key::Char('u') => self.move_vertically_by(-jump, out),
            Key::Char('h') => self.move_horizontally_by(-1, out),
            Key::Char('l') => self.move_horizontally_by(1, out),
            Key::Char('0') => self.move_horizontally_to(0, out),
            Key::Char('_') => self.movement_underscore(out),
            Key::Char('$') => self.movement_dollar(out),
            Key::Char('w') => self.movement_w(false, out),
            Key::Char('W') => self.movement_w(true, out),
            Key::Char('b') => self.movement_b(false, out),
            Key::Char('B') => self.movement_b(true, out),
            Key::Char('e') => self.movement_e(false, out),
            Key::Char('E') => self.movement_e(true, out),
            Key::Char('G') => self.movement_G(out),
            Key::Char('g') => {
                let (ok1, moved) = self.movement_gg(out);
                if !ok1 {
                    return None;
                }
                if moved {
                    if !self.movement_suffix(true, out) {
                        return None;
                    }
                } else {
                    assert(ops(out@) =~= o0 + seq![]);
                }
                self.input_buffer.push_back(key);
                true
            },
            Key::Char('v') => {
                self.selection = Some(
                    Selection::with_coords(self.cursor_x, self.logical_y, self.cursor_x, self.logical_y),
                );
                assert(ops(out@) =~= o0 + seq![]);
                true
            },
            Key::Char('y') => {
                self.copy_selection(out);
                return Some(true);
            },
            Key::Enter => {
                self.copy_selection(out);
                return Some(true);
            },
            Key::Esc => {
                self.selection = None;
                self.draw(out)
            },
            _ => {
                self.input_buffer.push_back(key);
                assert(ops(out@) =~= o0 + seq![]);
                true
            },
        };
        if ok {
            Some(false)
        } else {
            None
        }
    }
}

} // verus!
