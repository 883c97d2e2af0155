//! Drawing: the commands that show the lines, the selection, the search
//! matches and the status line.
use vstd::prelude::*;
use super::{Pager, PagerState, pager_wf, line_text, line_len, sat_sub, min, max_text_len};
use super::search::{Search, SearchView, SearchState, SearchResult};
use crate::selection::{Vec2, pos_le};
use crate::term::{Color, TermCommand, TermOp, emit, emit_print, ops};
use crate::text::{chars_of, char_count, decimal, display_width, push_decimal, push_str, push_chars, str_width, string_from_chars, string_of};

verus! {

/// Text of the truncation mark of a long search query.
pub const PROMPT_ELIPSIS: &'static str = "... (truncated)";

/// Length of a typical status text, `Ln 123, Col 123`.
pub const STATUS_LINE_AVG_LEN: usize = 15;

/// `t[a..b]` in characters, each bound held to the length of `t`.
pub open spec fn chars_range(t: Seq<char>, a: int, b: int) -> Seq<char> {
    t.subrange(min(a, t.len() as int), min(b, t.len() as int))
}

/// The status text: `Ln {line}, Col {column}`.
pub open spec fn status_text(y: usize, x: usize) -> Seq<char> {
    "Ln "@ + decimal(y as nat) + ", Col "@ + decimal(x as nat)
}

/// The match counter: `[{current}/{count}] `.
pub open spec fn counter_text(current: usize, count: usize) -> Seq<char> {
    "["@ + decimal(current as nat + 1) + "/"@ + decimal(count as nat) + "] "@
}

/// `ceil(q / d)` as the pager computes it; a zero divisor gives zero for a
/// zero dividend and `usize::MAX` otherwise.
pub open spec fn ceil_div(q: int, d: int) -> int {
    if d == 0 {
        if q == 0 {
            0
        } else {
            usize::MAX as int
        }
    } else {
        (q + d - 1) / d
    }
}

/// Column of the cursor on the screen: the width of the text before it.
pub open spec fn physical_x(s: PagerState) -> int {
    let t = line_text(s, s.logical_y as int);
    display_width(t.take(min(s.cursor_x as int, t.len() as int))) as int
}

/// Row of the cursor on the screen.
pub open spec fn physical_y(s: PagerState) -> int {
    sat_sub(s.logical_y as int, s.viewport_start as int)
}

/// Rows `lo..hi` of the viewport, as printed.
pub open spec fn text_rows(s: PagerState, lo: int, hi: int) -> Seq<TermOp>
    decreases hi - lo,
{
    if hi <= lo {
        seq![]
    } else {
        text_rows(s, lo, hi - 1) + seq![
            TermOp::MoveTo(0, (hi - 1 - s.viewport_start) as usize),
            TermOp::Print(s.lines[hi - 1].raw_text()),
        ]
    }
}

/// Commands that clear the screen and print the lines of the viewport.
#[verifier::opaque]
pub open spec fn text_ops(s: PagerState) -> Seq<TermOp> {
    seq![
        TermOp::SetBackground(Color::Reset),
        TermOp::SetForeground(Color::Reset),
        TermOp::ClearAll,
    ] + text_rows(s, s.viewport_start as int, s.viewport_end + 1)
}

/// Text printed for a whole highlighted line: a space for an empty line, to
/// keep the highlight continuous.
pub open spec fn row_text(t: Seq<char>) -> Seq<char> {
    if t.len() == 0 {
        " "@
    } else {
        t
    }
}

/// Whole lines `lo..hi` of a highlight, the first one on screen row `y0`.
pub open spec fn middle_rows(s: PagerState, lo: int, hi: int, y0: int) -> Seq<TermOp>
    decreases hi - lo,
{
    if hi <= lo {
        seq![]
    } else {
        middle_rows(s, lo, hi - 1, y0) + seq![
            TermOp::MoveTo(0, (y0 + (hi - 1 - lo)) as usize),
            TermOp::Print(row_text(line_text(s, hi - 1))),
        ]
    }
}

/// First line that a highlight prints whole.
pub open spec fn loop_start(s: PagerState, start: Vec2<usize>) -> int {
    if start.y < s.viewport_start {
        s.viewport_start as int
    } else {
        start.y + 1
    }
}

/// Line after the last one that a highlight prints whole.
pub open spec fn loop_end(s: PagerState, end: Vec2<usize>) -> int {
    let pe = end.y - s.viewport_start;
    let e = if pe < s.term_height {
        end.y as int
    } else {
        end.y - (pe - s.term_height)
    };
    min(e, s.lines.len() as int)
}

/// Whether a highlight from `start` to `end` shows nothing of the viewport.
pub open spec fn highlight_hidden(s: PagerState, start: Vec2<usize>, end: Vec2<usize>) -> bool {
    end.y < s.viewport_start || start.y > s.viewport_end
}

/// Commands that start a highlight: move to its first visible character and
/// set its colors.
pub open spec fn highlight_head(s: PagerState, start: Vec2<usize>, fg: Color, bg: Color) -> Seq<
    TermOp,
> {
    let first_move = if start.y < s.viewport_start {
        TermOp::MoveTo(0, 0)
    } else {
        TermOp::MoveTo(start.x, (start.y - s.viewport_start) as usize)
    };
    seq![first_move, TermOp::ResetAttributes, TermOp::SetForeground(fg), TermOp::SetBackground(bg)]
}

/// A highlight within one line.
pub open spec fn highlight_single(s: PagerState, start: Vec2<usize>, end: Vec2<usize>) -> Seq<
    TermOp,
> {
    if start.y < s.lines.len() {
        seq![TermOp::Print(chars_range(line_text(s, start.y as int), start.x as int, end.x + 1))]
    } else {
        seq![]
    }
}

/// First line of a highlight over several lines, from `start` to its end.
pub open spec fn highlight_first(s: PagerState, start: Vec2<usize>) -> Seq<TermOp> {
    if start.y >= s.viewport_start && start.y < s.lines.len() {
        let t = line_text(s, start.y as int);
        seq![TermOp::Print(chars_range(t, start.x as int, t.len() as int))]
    } else {
        seq![]
    }
}

/// Screen row of the first line that a highlight prints whole.
pub open spec fn highlight_row(s: PagerState, start: Vec2<usize>) -> int {
    if start.y < s.viewport_start {
        0
    } else {
        start.y - s.viewport_start + 1
    }
}

/// Last line of a highlight over several lines, up to `end`.
pub open spec fn highlight_last(s: PagerState, end: Vec2<usize>) -> Seq<TermOp> {
    let pe = end.y - s.viewport_start;
    if pe < s.term_height && end.y < s.lines.len() {
        seq![
            TermOp::MoveTo(0, pe as usize),
            TermOp::Print(chars_range(line_text(s, end.y as int), 0, end.x + 1)),
        ]
    } else {
        seq![]
    }
}

/// A highlight over several lines.
pub open spec fn highlight_multi(s: PagerState, start: Vec2<usize>, end: Vec2<usize>) -> Seq<
    TermOp,
> {
    highlight_first(s, start) + middle_rows(
        s,
        loop_start(s, start),
        loop_end(s, end),
        highlight_row(s, start),
    ) + highlight_last(s, end)
}

/// Commands that draw the text from `start` to `end` (both included) in the
/// colors `fg` on `bg`, over the part of it that is in the viewport.
#[verifier::opaque]
pub open spec fn highlight_ops(
    s: PagerState,
    start: Vec2<usize>,
    end: Vec2<usize>,
    fg: Color,
    bg: Color,
) -> Seq<TermOp> {
    if highlight_hidden(s, start, end) {
        seq![]
    } else {
        let body = if start.y == end.y {
            highlight_single(s, start, end)
        } else {
            highlight_multi(s, start, end)
        };
        highlight_head(s, start, fg, bg) + body + seq![
            TermOp::SetForeground(Color::Reset),
            TermOp::SetBackground(Color::Reset),
        ]
    }
}

/// The whole lines `lo..hi` come two commands each, in order: a move to the
/// line's screen row, then the line.
proof fn lemma_middle_rows_at(s: PagerState, lo: int, hi: int, y0: int, y: int)
    requires
        lo <= y < hi,
    ensures
        middle_rows(s, lo, hi, y0).len() == 2 * (hi - lo),
        middle_rows(s, lo, hi, y0)[2 * (y - lo)] == TermOp::MoveTo(0, (y0 + (y - lo)) as usize),
        middle_rows(s, lo, hi, y0)[2 * (y - lo) + 1] == TermOp::Print(row_text(line_text(s, y))),
    decreases hi - lo,
{
    if y < hi - 1 {
        lemma_middle_rows_at(s, lo, hi - 1, y0, y);
    } else if hi - 1 > lo {
        lemma_middle_rows_at(s, lo, hi - 1, y0, lo);
    } else {
        assert(middle_rows(s, lo, hi - 1, y0) == Seq::<TermOp>::empty());
    }
}

/// A highlight over several lines draws, in its colors, every line of the
/// viewport strictly between its first and last lines whole, at that line's
/// own screen row (a space for an empty line).
pub proof fn lemma_highlight_prints_middle_lines(
    s: PagerState,
    start: Vec2<usize>,
    end: Vec2<usize>,
    fg: Color,
    bg: Color,
    y: int,
)
    requires
        pager_wf(s),
        start.y < y < end.y < s.lines.len(),
        s.viewport_start <= y <= s.viewport_end,
    ensures
        ({
            let o = highlight_ops(s, start, end, fg, bg);
            let t = line_text(s, y);
            &&& o.len() >= 6
            &&& o[2] == TermOp::SetForeground(fg)
            &&& o[3] == TermOp::SetBackground(bg)
            &&& o[o.len() - 2] == TermOp::SetForeground(Color::Reset)
            &&& o[o.len() - 1] == TermOp::SetBackground(Color::Reset)
            &&& exists|k: int|
                4 <= k && k + 1 < o.len() - 2 && #[trigger] o[k] == TermOp::MoveTo(
                    0,
                    (y - s.viewport_start) as usize,
                ) && o[k + 1] == TermOp::Print(
                    if t.len() == 0 {
                        " "@
                    } else {
                        t
                    },
                )
        }),
{
    reveal(highlight_ops);
    let o = highlight_ops(s, start, end, fg, bg);
    let lo = loop_start(s, start);
    let hi = loop_end(s, end);
    let y0 = highlight_row(s, start);
    assert(!highlight_hidden(s, start, end));
    assert(lo <= y < hi);
    lemma_middle_rows_at(s, lo, hi, y0, y);
    let head = highlight_head(s, start, fg, bg);
    let first = highlight_first(s, start);
    let mid = middle_rows(s, lo, hi, y0);
    let last = highlight_last(s, end);
    let tail = seq![TermOp::SetForeground(Color::Reset), TermOp::SetBackground(Color::Reset)];
    assert(o == head + (first + mid + last) + tail);
    let k = 4 + first.len() + 2 * (y - lo);
    assert(y0 + (y - lo) == y - s.viewport_start);
    assert(o[k] == mid[2 * (y - lo)]);
    assert(o[k + 1] == mid[2 * (y - lo) + 1]);
    assert(o[2] == head[2]);
    assert(o[3] == head[3]);
}

/// Commands that draw the selection, if there is one.
#[verifier::opaque]
pub open spec fn selection_ops(s: PagerState) -> Seq<TermOp> {
    match s.selection {
        Some(sel) => highlight_ops(
            s,
            sel.start,
            sel.end,
            s.settings.selection_fg_color,
            s.settings.selection_bg_color,
        ),
        None => seq![],
    }
}

/// Highlights of the first `k` matches, each `offset + 1` characters long.
pub open spec fn result_highlights(
    s: PagerState,
    results: Seq<SearchResult>,
    offset: int,
    k: int,
) -> Seq<TermOp>
    decreases k,
{
    if k <= 0 {
        seq![]
    } else {
        let r = results[k - 1];
        result_highlights(s, results, offset, k - 1) + highlight_ops(
            s,
            Vec2 { x: r.column_index, y: r.line_index },
            Vec2 { x: (r.column_index + offset) as usize, y: r.line_index },
            s.settings.search_highlight_fg_color,
            s.settings.search_highlight_bg_color,
        )
    }
}

/// Whether the matches of the search are drawn now.
pub open spec fn search_drawn(s: PagerState, se: SearchView, force: bool) -> bool {
    &&& (se.state == SearchState::PendingRedraw || (se.state == SearchState::Typing
        && s.settings.real_time_search) || (force && se.state == SearchState::Highlighted))
    &&& se.error is None
    &&& se.results.len() > 0
}

/// Drawing the search matches: the pager afterwards and the commands.
/// A search that is drawn and not being typed becomes `Highlighted`.
#[verifier::opaque]
pub open spec fn search_draw(s: PagerState, force: bool) -> (PagerState, Seq<TermOp>) {
    match s.search {
        None => (s, seq![]),
        Some(se) => if search_drawn(s, se, force) {
            let offset = sat_sub(se.query.len() as int, 1);
            let se2 = if se.state != SearchState::Typing {
                SearchView { state: SearchState::Highlighted, ..se }
            } else {
                se
            };
            (
                PagerState { search: Some(se2), ..s },
                result_highlights(s, se.results, offset, se.results.len() as int),
            )
        } else {
            (s, seq![])
        },
    }
}

/// Commands that put the status text at the right end of the status line,
/// then the cursor back in place.
pub open spec fn status_tail(s: PagerState, st: Seq<char>) -> Seq<TermOp> {
    seq![
        TermOp::MoveTo(sat_sub(s.term_width as int, display_width(st) as int) as usize, s.term_height),
        TermOp::Print(st),
        TermOp::MoveTo(physical_x(s) as usize, physical_y(s) as usize),
        TermOp::Flush,
    ]
}

/// Commands that start the status line.
pub open spec fn status_head(s: PagerState) -> Seq<TermOp> {
    seq![
        TermOp::MoveTo(0, s.term_height),
        TermOp::SetBackground(s.settings.status_line_bg_color),
        TermOp::SetForeground(s.settings.status_line_fg_color),
        TermOp::ClearLine,
    ]
}

/// The counter of matches shown, or nothing.
pub open spec fn match_counter(se: SearchView) -> Seq<char> {
    if se.error is None && se.results.len() > 0 {
        counter_text(se.current_result_index, se.results.len() as usize)
    } else {
        seq![]
    }
}

/// Whether the query is too wide for the status line.
pub open spec fn query_is_long(s: PagerState, se: SearchView) -> bool {
    let extra = display_width(status_text(s.logical_y, s.cursor_x)) + display_width(
        match_counter(se),
    );
    display_width(se.query) > sat_sub(s.term_width as int, (extra * 2) as int)
}

/// Number of screen lines that the query takes.
pub open spec fn query_lines(s: PagerState, se: SearchView) -> int {
    ceil_div(display_width(se.query) as int, sat_sub(s.term_width as int, 1))
}

/// Error shown once the status line is drawn.
pub open spec fn status_error(s: PagerState, se: SearchView) -> Option<Seq<char>> {
    if query_is_long(s, se) && query_lines(s, se) > s.term_height as int / 2 {
        Some("Search query too long to display"@)
    } else {
        se.error
    }
}

/// Prompt shown for the query: all of it while typing or when it fits, else
/// as many characters as leave room for the counter and the mark.
pub open spec fn prompt_text(s: PagerState, se: SearchView) -> Seq<char> {
    if se.state == SearchState::Typing || !query_is_long(s, se) {
        se.query
    } else {
        let available = sat_sub(
            s.term_width as int,
            STATUS_LINE_AVG_LEN * 2 + display_width(match_counter(se)) + display_width(
                PROMPT_ELIPSIS@,
            ) + 1,
        );
        se.query.take(min(available, se.query.len() as int))
    }
}

/// Commands of the status line when a search is shown without error.
#[verifier::opaque]
pub open spec fn prompt_ops(s: PagerState, se: SearchView) -> Seq<TermOp> {
    let sy = s.term_height as int;
    let st = status_text(s.logical_y, s.cursor_x);
    let counter = match_counter(se);
    let is_long = query_is_long(s, se);
    let qw = display_width(se.query) as int;
    let typing = se.state == SearchState::Typing;
    let pre = if typing && is_long {
        seq![TermOp::MoveTo(0, sat_sub(sy, query_lines(s, se)) as usize)]
    } else {
        seq![]
    };
    let cursor = if typing {
        if is_long {
            TermOp::MoveTo((qw % (s.term_width as int) + 1) as usize, sy as usize)
        } else {
            TermOp::MoveTo((qw + 1) as usize, sy as usize)
        }
    } else {
        TermOp::MoveTo(physical_x(s) as usize, physical_y(s) as usize)
    };
    let mark = if is_long && !typing {
        seq![TermOp::Print(PROMPT_ELIPSIS@)]
    } else {
        seq![]
    };
    let right = if !is_long {
        (if counter.len() > 0 {
            seq![
                TermOp::MoveTo(
                    sat_sub(s.term_width as int, (display_width(st) + display_width(counter)) as int)
                        as usize,
                    sy as usize,
                ),
                TermOp::Print(counter),
            ]
        } else {
            seq![]
        }) + seq![
            TermOp::MoveTo(sat_sub(s.term_width as int, display_width(st) as int) as usize, sy as usize),
            TermOp::Print(st),
        ]
    } else {
        seq![]
    };
    pre + seq![TermOp::MoveTo(0, sy as usize), TermOp::Print("/"@ + prompt_text(s, se))] + mark + right
        + seq![cursor, TermOp::Flush]
}

/// Drawing the status line: the pager afterwards and the commands. A query
/// too long for half the screen becomes an error; `long_search` records
/// whether the query is shown over several lines.
#[verifier::opaque]
pub open spec fn status_draw(s: PagerState) -> (PagerState, Seq<TermOp>) {
    let st = status_text(s.logical_y, s.cursor_x);
    match s.search {
        None => (s, status_head(s) + status_tail(s, st)),
        Some(se) => {
            let err = status_error(s, se);
            let se1 = SearchView { error: err, long_search: query_is_long(s, se) && err is None, ..se };
            let s1 = PagerState { search: Some(se1), ..s };
            match err {
                Some(e) => (
                    s1,
                    status_head(s) + seq![
                        TermOp::SetForeground(s.settings.search_error_fg_color),
                        TermOp::Print(e),
                        TermOp::SetForeground(s.settings.status_line_fg_color),
                        TermOp::MoveTo(physical_x(s) as usize, physical_y(s) as usize),
                        TermOp::Flush,
                    ],
                ),
                None => if se.state == SearchState::Hidden {
                    (s1, status_head(s) + status_tail(s, st))
                } else {
                    (s1, status_head(s) + prompt_ops(s, se))
                },
            }
        },
    }
}

/// Commands that put the cursor in place and draw the selection again.
#[verifier::opaque]
pub open spec fn cursor_ops(s: PagerState) -> Seq<TermOp> {
    seq![TermOp::MoveTo(physical_x(s) as usize, physical_y(s) as usize)] + selection_ops(s) + seq![
        TermOp::Flush,
    ]
}

/// Drawing everything: the pager afterwards and the commands.
#[verifier::opaque]
pub open spec fn draw_all(s: PagerState) -> (PagerState, Seq<TermOp>) {
    let (s3, o3) = search_draw(s, true);
    let (s4, o4) = status_draw(s3);
    (s4, text_ops(s) + selection_ops(s) + o3 + o4 + seq![TermOp::Flush])
}

impl Pager {
    /// Clears the screen and prints the lines of the viewport.
    pub(crate) fn draw_text(&self, out: &mut Vec<TermCommand>)
        requires
            self.wf(),
        ensures
            ops(final(out)@) == ops(old(out)@) + text_ops(self@),
    {
        reveal(text_ops);
        emit(out, TermCommand::SetBackground(Color::Reset));
        emit(out, TermCommand::SetForeground(Color::Reset));
        emit(out, TermCommand::ClearAll);
        let ghost base = ops(out@);
        let vs = self.viewport_start;
        assert(self@.lines.len() == self.lines.len());
        let hi = self.viewport_end + 1;
        let mut i = vs;
        while i < hi
            invariant
                self.wf(),
                vs == self@.viewport_start,
                hi == self@.viewport_end + 1,
                vs <= i <= hi,
                hi <= self@.lines.len(),
                ops(out@) == base + text_rows(self@, vs as int, i as int),
            decreases hi - i,
        {
            emit(out, TermCommand::MoveTo(0, i - vs));
            emit_print(out, string_of(self.lines[i].raw()));
            assert(base + text_rows(self@, vs as int, i + 1) =~= base + text_rows(
                self@,
                vs as int,
                i as int,
            ) + seq![TermOp::MoveTo(0, (i - vs) as usize), TermOp::Print(self@.lines[i as int].raw_text())]);
            i += 1;
        }
        assert(ops(old(out)@) + text_ops(self@) =~= base + text_rows(
            self@,
            vs as int,
            hi as int,
        ));
    }
}

impl Pager {
    /// The characters of line `y`.
    pub(crate) fn line_chars(&self, y: usize) -> (v: Vec<char>)
        requires
            self.wf(),
            y < self@.lines.len(),
        ensures
            v@ == line_text(self@, y as int),
            v@.len() <= max_text_len(),
    {
        chars_of(self.lines[y].display())
    }

    /// Prints the part of a one-line highlight.
    fn draw_highlight_single(&self, start: Vec2<usize>, end: Vec2<usize>, out: &mut Vec<TermCommand>)
        requires
            self.wf(),
            start.x <= end.x < usize::MAX,
        ensures
            ops(final(out)@) == ops(old(out)@) + highlight_single(self@, start, end),
    {
        let ghost o0 = ops(out@);
        if start.y < self.lines.len() {
            let chars = self.line_chars(start.y);
            let len = chars.len();
            let a = if start.x < len { start.x } else { len };
            let b = if end.x + 1 < len { end.x + 1 } else { len };
            emit_print(out, string_from_chars(&chars, a, b));
        }
        assert(ops(out@) =~= o0 + highlight_single(self@, start, end));
    }

    /// Prints the first line of a highlight over several lines.
    fn draw_highlight_first(&self, start: Vec2<usize>, out: &mut Vec<TermCommand>)
        requires
            self.wf(),
        ensures
            ops(final(out)@) == ops(old(out)@) + highlight_first(self@, start),
    {
        let ghost o0 = ops(out@);
        if start.y >= self.viewport_start && start.y < self.lines.len() {
            let chars = self.line_chars(start.y);
            let len = chars.len();
            let a = if start.x < len { start.x } else { len };
            emit_print(out, string_from_chars(&chars, a, len));
        }
        assert(ops(out@) =~= o0 + highlight_first(self@, start));
    }

    /// Prints lines `ls..le` whole, the first one on screen row `y_idx`.
    fn draw_highlight_middle(&self, ls: usize, le: usize, y_idx: usize, out: &mut Vec<TermCommand>)
        requires
            self.wf(),
            ls <= le <= self@.lines.len(),
            le - ls + y_idx <= usize::MAX,
        ensures
            ops(final(out)@) == ops(old(out)@) + middle_rows(self@, ls as int, le as int, y_idx as int),
    {
        let ghost s = self@;
        let ghost o2 = ops(out@);
        let mut i = ls;
        while i < le
            invariant
                self.wf(),
                s == self@,
                ls <= i <= le <= s.lines.len(),
                le - ls + y_idx <= usize::MAX,
                ops(out@) == o2 + middle_rows(s, ls as int, i as int, y_idx as int),
            decreases le - i,
        {
            assert(s.lines.len() == self.lines.len());
            emit(out, TermCommand::MoveTo(0, y_idx + (i - ls)));
            let t = self.lines[i].display();
            if t.is_empty() {
                emit_print(out, string_of(" "));
            } else {
                emit_print(out, string_of(t));
            }
            assert(o2 + middle_rows(s, ls as int, i + 1, y_idx as int) =~= o2 + middle_rows(
                s,
                ls as int,
                i as int,
                y_idx as int,
            ) + seq![
                TermOp::MoveTo(0, (y_idx + (i - ls)) as usize),
                TermOp::Print(row_text(line_text(s, i as int))),
            ]);
            i += 1;
        }
    }

    /// Prints the last line of a highlight over several lines.
    fn draw_highlight_last(&self, end: Vec2<usize>, out: &mut Vec<TermCommand>)
        requires
            self.wf(),
            end.y >= self@.viewport_start,
            end.x < usize::MAX,
        ensures
            ops(final(out)@) == ops(old(out)@) + highlight_last(self@, end),
    {
        let ghost o0 = ops(out@);
        let pe = end.y - self.viewport_start;
        if pe < self.term_height && end.y < self.lines.len() {
            emit(out, TermCommand::MoveTo(0, pe));
            let chars = self.line_chars(end.y);
            let len = chars.len();
            let b = if end.x + 1 < len { end.x + 1 } else { len };
            emit_print(out, string_from_chars(&chars, 0, b));
        }
        assert(ops(out@) =~= o0 + highlight_last(self@, end));
    }

    /// Prints a highlight over several lines.
    fn draw_highlight_multi(&self, start: Vec2<usize>, end: Vec2<usize>, out: &mut Vec<TermCommand>)
        requires
            self.wf(),
            start.y < end.y,
            !highlight_hidden(self@, start, end),
            end.x < usize::MAX,
        ensures
            ops(final(out)@) == ops(old(out)@) + highlight_multi(self@, start, end),
    {
        let ghost s = self@;
        let ghost o0 = ops(out@);
        let vs = self.viewport_start;
        let n = self.lines.len();
        let th = self.term_height;
        assert(s.lines.len() == n);
        let pe = end.y - vs;
        let y_idx = if start.y < vs { 0 } else { start.y - vs + 1 };
        self.draw_highlight_first(start, out);
        let ls = if start.y < vs { vs } else { start.y + 1 };
        let le0 = if pe < th { end.y } else { end.y - (pe - th) };
        let le = if le0 < n { le0 } else { n };
        assert(ls == loop_start(s, start));
        assert(le == loop_end(s, end));
        self.draw_highlight_middle(ls, le, y_idx, out);
        self.draw_highlight_last(end, out);
        assert(ops(out@) =~= o0 + highlight_multi(s, start, end));
    }

    /// Draws the text from `start` to `end` (both included) in `fg` on `bg`,
    /// over the part of it that is in the viewport.
    pub(crate) fn draw_highlight(
        &self,
        start: Vec2<usize>,
        end: Vec2<usize>,
        fg: Color,
        bg: Color,
        out: &mut Vec<TermCommand>,
    )
        requires
            self.wf(),
            pos_le(start, end),
            end.x < usize::MAX,
        ensures
            ops(final(out)@) == ops(old(out)@) + highlight_ops(self@, start, end, fg, bg),
    {
        reveal(highlight_ops);
        let ghost s = self@;
        let ghost o0 = ops(out@);
        let vs = self.viewport_start;
        if end.y < vs || start.y > self.viewport_end {
            assert(ops(out@) =~= o0 + highlight_ops(s, start, end, fg, bg));
            return;
        }
        if start.y < vs {
            emit(out, TermCommand::MoveTo(0, 0));
        } else {
            emit(out, TermCommand::MoveTo(start.x, start.y - vs));
        }
        emit(out, TermCommand::ResetAttributes);
        emit(out, TermCommand::SetForeground(fg));
        emit(out, TermCommand::SetBackground(bg));
        if start.y == end.y {
            self.draw_highlight_single(start, end, out);
        } else {
            self.draw_highlight_multi(start, end, out);
        }
        emit(out, TermCommand::SetForeground(Color::Reset));
        emit(out, TermCommand::SetBackground(Color::Reset));
        assert(ops(out@) =~= o0 + highlight_ops(s, start, end, fg, bg));
    }
}

impl Pager {
    /// Draws the selection, if there is one.
    pub(crate) fn draw_selection(&self, out: &mut Vec<TermCommand>)
        requires
            self.wf(),
        ensures
            ops(final(out)@) == ops(old(out)@) + selection_ops(self@),
    {
        reveal(selection_ops);
        match self.selection {
            Some(sel) => {
                self.draw_highlight(
                    sel.start,
                    sel.end,
                    self.settings.selection_fg_color,
                    self.settings.selection_bg_color,
                    out,
                );
            },
            None => {
                assert(ops(out@) =~= ops(old(out)@) + selection_ops(self@));
            },
        }
    }

    /// Column of the cursor on the screen.
    pub(crate) fn get_physical_cursor_x(&self) -> (x: usize)
        requires
            self.wf(),
        ensures
            x == physical_x(self@),
    {
        let chars = self.line_chars(self.logical_y);
        let len = chars.len();
        let k = if self.cursor_x < len { self.cursor_x } else { len };
        let prefix = string_from_chars(&chars, 0, k);
        assert(prefix@ =~= chars@.take(k as int));
        str_width(&prefix)
    }

    /// Row of the cursor on the screen.
    pub(crate) fn get_physical_cursor_y(&self) -> (y: usize)
        requires
            self.wf(),
        ensures
            y == physical_y(self@),
    {
        self.logical_y.saturating_sub(self.viewport_start)
    }

    /// Puts the cursor in place and draws the selection again.
    pub(crate) fn draw_cursor(&self, out: &mut Vec<TermCommand>)
        requires
            self.wf(),
        ensures
            ops(final(out)@) == ops(old(out)@) + cursor_ops(self@),
    {
        reveal(cursor_ops);
        let ghost o0 = ops(out@);
        let x = self.get_physical_cursor_x();
        let y = self.get_physical_cursor_y();
        emit(out, TermCommand::MoveTo(x, y));
        self.draw_selection(out);
        emit(out, TermCommand::Flush);
        assert(ops(out@) =~= o0 + cursor_ops(self@));
    }

    /// Draws the highlights of the first `results.len()` matches of the
    /// search, each `offset + 1` characters long.
    fn draw_results(&self, results: &Vec<SearchResult>, offset: usize, out: &mut Vec<TermCommand>)
        requires
            self.wf(),
            offset <= max_text_len(),
            forall|i: int|
                0 <= i < results.len() ==> (#[trigger] results@[i]).column_index <= max_text_len(),
        ensures
            ops(final(out)@) == ops(old(out)@) + result_highlights(
                self@,
                results@,
                offset as int,
                results@.len() as int,
            ),
    {
        let ghost o0 = ops(out@);
        let mut k: usize = 0;
        while k < results.len()
            invariant
                self.wf(),
                k <= results.len(),
                offset <= max_text_len(),
                forall|i: int|
                    0 <= i < results.len() ==> (#[trigger] results@[i]).column_index
                        <= max_text_len(),
                ops(out@) == o0 + result_highlights(self@, results@, offset as int, k as int),
            decreases results.len() - k,
        {
            let r = results[k];
            assert(r == results@[k as int]);
            self.draw_highlight(
                Vec2::new(r.column_index, r.line_index),
                Vec2::new(r.column_index + offset, r.line_index),
                self.settings.search_highlight_fg_color,
                self.settings.search_highlight_bg_color,
                out,
            );
            assert(o0 + result_highlights(self@, results@, offset as int, k + 1) =~= o0
                + result_highlights(self@, results@, offset as int, k as int) + highlight_ops(
                self@,
                Vec2 { x: r.column_index, y: r.line_index },
                Vec2 { x: (r.column_index + offset) as usize, y: r.line_index },
                self@.settings.search_highlight_fg_color,
                self@.settings.search_highlight_bg_color,
            ));
            k += 1;
        }
    }

    /// Draws the search matches when they are to be shown; a shown search
    /// that is not being typed becomes `Highlighted`.
    pub(crate) fn draw_search(&mut self, force: bool, out: &mut Vec<TermCommand>)
        requires
            old(self).wf(),
        ensures
            final(self).wf(),
            final(self)@ == search_draw(old(self)@, force).0,
            ops(final(out)@) == ops(old(out)@) + search_draw(old(self)@, force).1,
    {
        reveal(search_draw);
        let ghost s = self@;
        let ghost o0 = ops(out@);
        let drawn = match &self.search {
            None => false,
            Some(se) => (se.state == SearchState::PendingRedraw || (se.state == SearchState::Typing
                && self.settings.real_time_search) || (force && se.state
                == SearchState::Highlighted)) && se.error.is_none() && se.results.len() > 0,
        };
        if !drawn {
            assert(ops(out@) =~= o0 + search_draw(s, force).1);
            return;
        }
        let offset = match &self.search {
            Some(se) => char_count(se.query.as_str()).saturating_sub(1),
            None => 0,
        };
        match &self.search {
            Some(se) => {
                self.draw_results(&se.results, offset, out);
            },
            None => {},
        }
        let taken = self.search.take();
        match taken {
            Some(mut se) => {
                if se.state != SearchState::Typing {
                    se.state = SearchState::Highlighted;
                }
                self.search = Some(se);
            },
            None => {},
        }
        assert(ops(out@) =~= o0 + search_draw(s, force).1);
    }
}

/// The status text `Ln {y}, Col {x}`.
pub fn make_status_text(y: usize, x: usize) -> (s: String)
    ensures
        s@ == status_text(y, x),
        s@.len() <= 49,
{
    let mut s = string_of("Ln ");
    push_decimal(&mut s, y);
    push_str(&mut s, ", Col ");
    push_decimal(&mut s, x);
    proof {
        reveal_strlit("Ln ");
        reveal_strlit(", Col ");
        crate::text::lemma_decimal_len(y as nat);
        crate::text::lemma_decimal_len(x as nat);
    }
    s
}

/// The match counter `[{current + 1}/{count}] `.
pub fn make_counter(current: usize, count: usize) -> (s: String)
    requires
        current < usize::MAX,
    ensures
        s@ == counter_text(current, count),
        s@.len() <= 44,
{
    let mut s = string_of("[");
    push_decimal(&mut s, current + 1);
    push_str(&mut s, "/");
    push_decimal(&mut s, count);
    push_str(&mut s, "] ");
    proof {
        reveal_strlit("[");
        reveal_strlit("/");
        reveal_strlit("] ");
        crate::text::lemma_decimal_len((current + 1) as nat);
        crate::text::lemma_decimal_len(count as nat);
    }
    s
}

/// `ceil(q / d)`, computed without overflow.
pub fn ceil_div_usize(q: usize, d: usize) -> (r: usize)
    ensures
        r == ceil_div(q as int, d as int),
{
    if d == 0 {
        if q == 0 {
            0
        } else {
            usize::MAX
        }
    } else {
        let base = q / d;
        proof {
            lemma_ceil_div(q as int, d as int);
        }
        if q % d != 0 {
            assert(d >= 2) by {
                if d == 1 {
                    assert(q % 1 == 0);
                }
            }
            assert(base <= q / 2) by (nonlinear_arith)
                requires
                    d >= 2,
                    base == q / d,
                    q >= 0,
            ;
            base + 1
        } else {
            base
        }
    }
}

/// Ceiling division through the quotient and the remainder.
proof fn lemma_ceil_div(q: int, d: int)
    requires
        q >= 0,
        d > 0,
    ensures
        (q + d - 1) / d == q / d + if q % d != 0 {
            1int
        } else {
            0int
        },
{
    assert(q == d * (q / d) + q % d) by (nonlinear_arith)
        requires
            d > 0,
    ;
    assert(0 <= q % d < d) by (nonlinear_arith)
        requires
            d > 0,
    ;
    let k = q / d;
    let r = q % d;
    if r != 0 {
        assert((d * k + r + d - 1) / d == k + 1) by (nonlinear_arith)
            requires
                d > 0,
                0 < r < d,
        ;
    } else {
        assert((d * k + d - 1) / d == k) by (nonlinear_arith)
            requires
                d > 0,
        ;
    }
}

/// Puts the status text at the right end of the status line and the cursor
/// back in place.
fn emit_status_tail(tw: usize, sy: usize, st: &String, px: usize, py: usize, out: &mut Vec<TermCommand>)
    requires
        st@.len() <= 49,
    ensures
        ops(final(out)@) == ops(old(out)@) + seq![
            TermOp::MoveTo(sat_sub(tw as int, display_width(st@) as int) as usize, sy),
            TermOp::Print(st@),
            TermOp::MoveTo(px, py),
            TermOp::Flush,
        ],
{
    let ghost o0 = ops(out@);
    let w = str_width(st.as_str());
    emit(out, TermCommand::MoveTo(tw.saturating_sub(w), sy));
    emit_print(out, string_of(st.as_str()));
    emit(out, TermCommand::MoveTo(px, py));
    emit(out, TermCommand::Flush);
    assert(ops(out@) =~= o0 + seq![
        TermOp::MoveTo(sat_sub(tw as int, display_width(st@) as int) as usize, sy),
        TermOp::Print(st@),
        TermOp::MoveTo(px, py),
        TermOp::Flush,
    ]);
}

impl Pager {
    /// Draws the prompt of a search shown without error.
    #[verifier::rlimit(50)]
    #[verifier::spinoff_prover]
    fn draw_prompt(
        &self,
        st: &String,
        counter: &String,
        is_long: bool,
        num_lines: usize,
        px: usize,
        py: usize,
        out: &mut Vec<TermCommand>,
    )
        requires
            self.wf(),
            self@.search is Some,
            st@ == status_text(self@.logical_y, self@.cursor_x),
            st@.len() <= 49,
            counter@ == match_counter(self@.search->0),
            counter@.len() <= 44,
            is_long == query_is_long(self@, self@.search->0),
            num_lines == query_lines(self@, self@.search->0),
            is_long ==> num_lines <= self@.term_height / 2,
            px == physical_x(self@),
            py == physical_y(self@),
        ensures
            ops(final(out)@) == ops(old(out)@) + prompt_ops(self@, self@.search->0),
    {
        reveal(prompt_ops);
        let ghost s = self@;
        let ghost se_v = s.search->0;
        let ghost o0 = ops(out@);
        let tw = self.term_width;
        let sy = self.term_height;
        let se = match &self.search {
            Some(se) => se,
            None => {
                return;
            },
        };
        assert(se@ == se_v);
        let typing = se.state == SearchState::Typing;
        let qw = str_width(se.query.as_str());
        let stw = str_width(st.as_str());
        let cw = str_width(counter.as_str());
        if typing && is_long {
            emit(out, TermCommand::MoveTo(0, sy.saturating_sub(num_lines)));
        }
        let ghost o_pre = ops(out@);
        assert(o_pre =~= o0 + (if typing && is_long {
            seq![TermOp::MoveTo(0, sat_sub(sy as int, query_lines(s, se_v)) as usize)]
        } else {
            seq![]
        }));
        let prompt = if typing || !is_long {
            string_of(se.query.as_str())
        } else {
            let ew = str_width(PROMPT_ELIPSIS);
            proof {
                reveal_strlit("... (truncated)");
            }
            let available = tw.saturating_sub(STATUS_LINE_AVG_LEN * 2 + cw + ew + 1);
            let chars = chars_of(se.query.as_str());
            let k = if available < chars.len() { available } else { chars.len() };
            let p = string_from_chars(&chars, 0, k);
            assert(p@ =~= se_v.query.take(k as int));
            p
        };
        assert(prompt@ == prompt_text(s, se_v));
        let mut line = string_of("/");
        push_str(&mut line, prompt.as_str());
        emit(out, TermCommand::MoveTo(0, sy));
        emit_print(out, line);
        assert(ops(out@) =~= o_pre + seq![TermOp::MoveTo(0, sy), TermOp::Print("/"@ + prompt_text(s, se_v))]);
        if is_long && !typing {
            emit_print(out, string_of(PROMPT_ELIPSIS));
        }
        let ghost o_mark = ops(out@);
        if !is_long {
            if !counter.as_str().is_empty() {
                emit(out, TermCommand::MoveTo(tw.saturating_sub(stw + cw), sy));
                emit_print(out, string_of(counter.as_str()));
            }
            emit(out, TermCommand::MoveTo(tw.saturating_sub(stw), sy));
            emit_print(out, string_of(st.as_str()));
        }
        let ghost o_right = ops(out@);
        if typing {
            if is_long {
                assert(tw > 0);
                emit(out, TermCommand::MoveTo(qw % tw + 1, sy));
            } else {
                emit(out, TermCommand::MoveTo(qw + 1, sy));
            }
        } else {
            emit(out, TermCommand::MoveTo(px, py));
        }
        emit(out, TermCommand::Flush);
        assert(ops(out@) =~= o0 + prompt_ops(s, se_v));
    }
}

impl Pager {
    /// Draws the status line: the search prompt or its error, the match
    /// counter and the position of the cursor.
    #[verifier::rlimit(50)]
    #[verifier::spinoff_prover]
    pub fn draw_status_line(&mut self, out: &mut Vec<TermCommand>)
        requires
            old(self).wf(),
        ensures
            final(self).wf(),
            final(self)@ == status_draw(old(self)@).0,
            ops(final(out)@) == ops(old(out)@) + status_draw(old(self)@).1,
    {
        reveal(status_draw);
        let ghost s = self@;
        let ghost o0 = ops(out@);
        let sy = self.term_height;
        let tw = self.term_width;
        let st = make_status_text(self.logical_y, self.cursor_x);
        emit(out, TermCommand::MoveTo(0, sy));
        emit(out, TermCommand::SetBackground(self.settings.status_line_bg_color));
        emit(out, TermCommand::SetForeground(self.settings.status_line_fg_color));
        emit(out, TermCommand::ClearLine);
        assert(ops(out@) =~= o0 + status_head(s));
        let px = self.get_physical_cursor_x();
        let py = self.get_physical_cursor_y();
        if self.search.is_none() {
            emit_status_tail(tw, sy, &st, px, py, out);
            assert(ops(out@) =~= o0 + status_draw(s).1);
            return;
        }
        let ghost se_v = s.search->0;
        let (counter, is_long, num_lines, too_long, had_error, hidden) = match &self.search {
            Some(se) => {
                assert(se@ == se_v);
                let counter = if se.error.is_none() && se.results.len() > 0 {
                    make_counter(se.current_result_index, se.results.len())
                } else {
                    String::new()
                };
                let stw = str_width(st.as_str());
                let cw = str_width(counter.as_str());
                let qw = str_width(se.query.as_str());
                let threshold = tw.saturating_sub((stw + cw) * 2);
                let is_long = qw > threshold;
                let num_lines = ceil_div_usize(qw, tw.saturating_sub(1));
                let too_long = is_long && num_lines > sy / 2;
                (
                    counter,
                    is_long,
                    num_lines,
                    too_long,
                    se.error.is_some(),
                    se.state == SearchState::Hidden,
                )
            },
            None => {
                return;
            },
        };
        assert(is_long == query_is_long(s, se_v));
        assert(num_lines == query_lines(s, se_v));
        if too_long || had_error {
            let msg = if too_long {
                string_of("Search query too long to display")
            } else {
                match &self.search {
                    Some(se) => match &se.error {
                        Some(e) => string_of(e.as_str()),
                        None => String::new(),
                    },
                    None => String::new(),
                }
            };
            assert(status_error(s, se_v) == Some(msg@));
            emit(out, TermCommand::SetForeground(self.settings.search_error_fg_color));
            emit_print(out, msg);
            emit(out, TermCommand::SetForeground(self.settings.status_line_fg_color));
            emit(out, TermCommand::MoveTo(px, py));
            emit(out, TermCommand::Flush);
        } else if hidden {
            emit_status_tail(tw, sy, &st, px, py, out);
        } else {
            self.draw_prompt(&st, &counter, is_long, num_lines, px, py, out);
        }
        let taken = self.search.take();
        match taken {
            Some(mut se) => {
                if too_long {
                    se.error = Some(string_of("Search query too long to display"));
                }
                se.long_search = is_long && se.error.is_none();
                self.search = Some(se);
            },
            None => {},
        }
        assert(ops(out@) =~= o0 + status_draw(s).1);
    }

    /// Draws everything: the lines, the selection, the search matches and
    /// the status line.
    pub fn draw(&mut self, out: &mut Vec<TermCommand>)
        requires
            old(self).wf(),
        ensures
            final(self).wf(),
            final(self)@ == draw_all(old(self)@).0,
            ops(final(out)@) == ops(old(out)@) + draw_all(old(self)@).1,
    {
        reveal(draw_all);
        let ghost s = self@;
        let ghost o0 = ops(out@);
        self.draw_text(out);
        self.draw_selection(out);
        self.draw_search(true, out);
        self.draw_status_line(out);
        emit(out, TermCommand::Flush);
        assert(ops(out@) =~= o0 + draw_all(s).1);
    }
}

} // verus!
