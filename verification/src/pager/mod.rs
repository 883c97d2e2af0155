//! The pager: the lines of the scrollback, a cursor moved by vim motions, a
//! viewport that follows it, a visual selection and a search.
use vstd::prelude::*;
use std::collections::VecDeque;
use crate::selection::{Selection, pos_le};
use crate::settings::Settings;
use crate::term::Key;
use crate::text::{ansi_stripped, bounded_char_count, byte_len, char_count, chars_of, lossy_decode, push_char, strip_ansi, utf8_len, utf8_lossy};
use crate::term::{TermCommand, TermOp, ops};
use vstd::utf8::encode_utf8;
use self::search::{Search, SearchView, SearchState, opt_search_view, search_mode_spec, searched, with_search, closest_match};
use self::modes::{normal_spec, key_panics};
use self::rendering::draw_all;

pub mod search;
pub mod rendering;
pub mod copy;
pub mod movement;
pub mod motions;
pub mod modes;

verus! {

/// Capacity reserved for the keys typed so far.
pub const INPUT_BUFFER_SIZE: usize = 4;

/// A line of the scrollback. A line without ANSI escape codes is kept once;
/// a line with them keeps its raw text (for printing) and its text without
/// them (for the cursor, selection and search).
pub enum Line {
    /// A line without ANSI escape codes.
    Clean(String),
    /// A line with ANSI escape codes, and that line without them.
    Ansi { raw: String, stripped: String },
}

/// Text shown for a raw line: the raw text when the ANSI stripping changes
/// none of its bytes, else the stripped bytes decoded.
pub open spec fn display_of(raw: Seq<char>) -> Seq<char> {
    let bytes = encode_utf8(raw);
    if ansi_stripped(bytes) == bytes {
        raw
    } else {
        lossy_decode(ansi_stripped(bytes))
    }
}

/// Whether two byte strings are equal.
fn bytes_equal(a: &[u8], b: &[u8]) -> (r: bool)
    ensures
        r == (a@ == b@),
{
    if a.len() != b.len() {
        return false;
    }
    let mut i: usize = 0;
    while i < a.len()
        invariant
            a@.len() == b@.len(),
            i <= a@.len(),
            forall|j: int| 0 <= j < i ==> a@[j] == b@[j],
        decreases a.len() - i,
    {
        if a[i] != b[i] {
            return false;
        }
        i += 1;
    }
    assert(a@ =~= b@);
    true
}

impl Line {
    /// A line from its raw text: kept once when stripping the ANSI escape
    /// codes changes nothing, else kept with its stripped text.
    pub fn new(raw: String) -> (l: Line)
        ensures
            l.raw_text() == raw@,
            l.text() == display_of(raw@),
            (l is Clean) == (ansi_stripped(encode_utf8(raw@)) == encode_utf8(raw@)),
    {
        let stripped = strip_ansi(raw.as_str().as_bytes());
        if stripped.len() == byte_len(raw.as_str()) && bytes_equal(stripped.as_slice(), raw.as_str().as_bytes()) {
            Line::Clean(raw)
        } else {
            let text = utf8_lossy(stripped.as_slice());
            Line::Ansi { raw, stripped: text }
        }
    }

    /// The text shown for the line, without escape codes.
    pub open spec fn text(&self) -> Seq<char> {
        match self {
            Line::Clean(s) => s@,
            Line::Ansi { stripped, .. } => stripped@,
        }
    }

    /// The text of the line as it was read.
    pub open spec fn raw_text(&self) -> Seq<char> {
        match self {
            Line::Clean(s) => s@,
            Line::Ansi { raw, .. } => raw@,
        }
    }

    /// The line without ANSI escape codes.
    pub fn display(&self) -> (r: &str)
        ensures
            r@ == self.text(),
    {
        match self {
            Line::Clean(s) => s.as_str(),
            Line::Ansi { stripped, .. } => stripped.as_str(),
        }
    }

    /// The line as it was read, escape codes included.
    pub fn raw(&self) -> (r: &str)
        ensures
            r@ == self.raw_text(),
    {
        match self {
            Line::Clean(s) => s.as_str(),
            Line::Ansi { raw, .. } => raw.as_str(),
        }
    }

    /// Byte length of the line without escape codes.
    pub fn len(&self) -> (n: usize)
        ensures
            n == utf8_len(self.text()),
    {
        byte_len(self.display())
    }

    /// Whether the line without escape codes is empty.
    pub fn is_empty(&self) -> (r: bool)
        ensures
            r == (self.text().len() == 0),
    {
        self.display().is_empty()
    }
}

/// Everything the pager holds, with texts taken as characters.
pub struct PagerState {
    pub lines: Seq<Line>,
    pub cursor_x: usize,
    pub wish_cursor_x: usize,
    pub logical_y: usize,
    pub term_height: usize,
    pub term_width: usize,
    pub viewport_start: usize,
    pub viewport_end: usize,
    pub input_buffer: Seq<Key>,
    pub selection: Option<Selection>,
    pub search: Option<SearchView>,
    pub settings: Settings,
    pub y_offset: usize,
}

/// The pager.
pub struct Pager {
    pub(crate) lines: Vec<Line>,
    /// Column of the cursor, in characters.
    pub(crate) cursor_x: usize,
    /// Column the cursor goes back to on vertical moves.
    pub(crate) wish_cursor_x: usize,
    /// Line of the cursor.
    pub(crate) logical_y: usize,
    pub(crate) term_height: usize,
    pub(crate) term_width: usize,
    /// First line shown.
    pub(crate) viewport_start: usize,
    /// Last line shown.
    pub(crate) viewport_end: usize,
    pub(crate) input_buffer: VecDeque<Key>,
    pub(crate) selection: Option<Selection>,
    pub(crate) search: Option<Search>,
    pub(crate) settings: Settings,
    /// Number of empty lines that were removed from the end of the input.
    pub(crate) y_offset: usize,
}

impl View for Pager {
    type V = PagerState;

    closed spec fn view(&self) -> PagerState {
        PagerState {
            lines: self.lines@,
            cursor_x: self.cursor_x,
            wish_cursor_x: self.wish_cursor_x,
            logical_y: self.logical_y,
            term_height: self.term_height,
            term_width: self.term_width,
            viewport_start: self.viewport_start,
            viewport_end: self.viewport_end,
            input_buffer: self.input_buffer@,
            selection: self.selection,
            search: opt_search_view(self.search),
            settings: self.settings,
            y_offset: self.y_offset,
        }
    }
}

/// Whether the search is being typed.
pub open spec fn typing(s: PagerState) -> bool {
    s.search matches Some(se) && se.state == SearchState::Typing
}

/// Whether `handle_key_event` would fail on `key`.
pub open spec fn handle_key_panics(s: PagerState, key: Key) -> bool {
    !typing(s) && key_panics(s, key)
}

/// What a key does: the pager afterwards, the commands, and whether the
/// pager quits.
#[verifier::opaque]
pub open spec fn handle_key_spec(s: PagerState, key: Key) -> (PagerState, Seq<TermOp>, bool) {
    if typing(s) {
        let (s1, o1, run) = search_mode_spec(s, key);
        if run {
            let s2 = with_search(s1, |s: PagerState, se: SearchView| searched(s, se));
            let (s3, o3) = if s2.search matches Some(se2) && se2.error is Some {
                draw_all(s2)
            } else {
                (s2, seq![])
            };
            let (s4, o4) = closest_match(s3, true);
            (s4, o1 + o3 + o4, false)
        } else {
            (s1, o1, false)
        }
    } else {
        normal_spec(s, key)
    }
}

/// Largest length of a text that a `String` can hold.
pub open spec fn max_text_len() -> int {
    isize::MAX as int
}

/// Text of line `y`.
pub open spec fn line_text(s: PagerState, y: int) -> Seq<char> {
    s.lines[y].text()
}

/// Number of characters of line `y`.
pub open spec fn line_len(s: PagerState, y: int) -> nat {
    s.lines[y].text().len()
}

/// `a - b`, or zero when `b` is larger.
pub open spec fn sat_sub(a: int, b: int) -> int {
    if a >= b {
        a - b
    } else {
        0
    }
}

/// `a + b`, or `usize::MAX` when the sum is larger.
pub open spec fn sat_add(a: int, b: int) -> int {
    if a + b <= usize::MAX {
        a + b
    } else {
        usize::MAX as int
    }
}

/// The smaller of two integers.
pub open spec fn min(a: int, b: int) -> int {
    if a <= b {
        a
    } else {
        b
    }
}

/// The invariant of the search.
pub open spec fn search_wf(s: PagerState, se: SearchView) -> bool {
    &&& se.current_result_index < usize::MAX
    &&& se.query.len() <= max_text_len()
    &&& forall|i: int|
        0 <= i < se.results.len() ==> {
            &&& (#[trigger] se.results[i]).line_index < s.lines.len()
            &&& se.results[i].column_index <= max_text_len()
        }
}

/// The invariant of the pager.
pub open spec fn pager_wf(s: PagerState) -> bool {
    &&& s.lines.len() >= 1
    &&& s.logical_y < s.lines.len()
    &&& s.viewport_end < s.lines.len()
    &&& s.viewport_start <= s.viewport_end + 1
    &&& s.viewport_end + 1 <= s.viewport_start + s.term_height
    &&& 1 <= s.term_height <= u16::MAX
    &&& s.term_width <= u16::MAX
    &&& s.settings.scroll_jump <= isize::MAX
    &&& forall|i: int| 0 <= i < s.lines.len() ==> (#[trigger] s.lines[i]).text().len() <= max_text_len()
    &&& (s.selection matches Some(sel) ==> {
        &&& pos_le(sel.start, sel.end)
        &&& sel.end.y < s.lines.len()
        &&& sel.start.x < usize::MAX
        &&& sel.end.x < usize::MAX
        &&& s.cursor_x < usize::MAX
    })
    &&& (s.search matches Some(se) ==> search_wf(s, se))
}

/// Changing only the state, current match, error or `long_search` of the
/// search keeps the pager well formed, as long as the current match index is
/// below `usize::MAX`.
pub proof fn lemma_wf_search_update(s: PagerState, se2: SearchView)
    requires
        pager_wf(s),
        s.search is Some,
        se2.query == s.search->0.query,
        se2.results == s.search->0.results,
        se2.current_result_index < usize::MAX,
    ensures
        pager_wf(PagerState { search: Some(se2), ..s }),
{
    let se = s.search->0;
    assert forall|i: int| 0 <= i < se2.results.len() implies {
        &&& (#[trigger] se2.results[i]).line_index < s.lines.len()
        &&& se2.results[i].column_index <= max_text_len()
    } by {
        assert(se.results[i] == se2.results[i]);
    }
}

/// `t` with every tab replaced by `w` spaces.
pub open spec fn expand_tabs(t: Seq<char>, w: nat) -> Seq<char>
    decreases t.len(),
{
    if t.len() == 0 {
        seq![]
    } else {
        expand_tabs(t.drop_last(), w) + if t.last() == '\t' {
            Seq::new(w, |i: int| ' ')
        } else {
            seq![t.last()]
        }
    }
}

/// Number of lines kept of `k` lines: the empty lines at the end are
/// dropped, but never the first line.
pub open spec fn kept_lines(texts: Seq<Seq<char>>, k: int) -> int
    decreases k,
{
    if k > 1 && texts[k - 1].len() == 0 {
        kept_lines(texts, k - 1)
    } else {
        k
    }
}

/// Texts shown for the input lines, tabs expanded.
pub open spec fn shown_texts(input: Seq<String>, tab: nat) -> Seq<Seq<char>> {
    Seq::new(input.len(), |i: int| display_of(expand_tabs(input[i]@, tab)))
}

/// Column of the cursor when the pager starts: after the last kept line,
/// `prompt_cursor_offset` columns past its last character (the offset alone
/// without lines).
pub open spec fn initial_cursor(input: Seq<String>, settings: Settings) -> int {
    let texts = shown_texts(input, settings.tab_width as nat);
    let k = kept_lines(texts, input.len() as int);
    if k == 0 {
        settings.prompt_cursor_offset as int
    } else {
        sat_sub(texts[k - 1].len() as int, 1) + settings.prompt_cursor_offset
    }
}

/// Whether a pager can be built: its initial cursor column fits in a
/// `usize`.
pub open spec fn can_start(input: Seq<String>, settings: Settings) -> bool {
    initial_cursor(input, settings) <= usize::MAX
}

/// The pager when it starts, apart from the lines themselves.
pub open spec fn initial_fields(p: PagerState, input: Seq<String>, settings: Settings, tw: u16, th: u16) -> bool {
    let texts = shown_texts(input, settings.tab_width as nat);
    let k = kept_lines(texts, input.len() as int);
    &&& p.lines.len() == k
    &&& forall|i: int| 0 <= i < k ==> {
        &&& (#[trigger] p.lines[i]).raw_text() == expand_tabs(input[i]@, settings.tab_width as nat)
        &&& p.lines[i].text() == texts[i]
    }
    &&& p.y_offset == input.len() - k
    &&& p.cursor_x == initial_cursor(input, settings)
    &&& p.wish_cursor_x == p.cursor_x
    &&& p.logical_y == sat_sub(k, 1)
    &&& p.term_width == tw
    &&& p.term_height == th
    &&& p.viewport_start == sat_sub(k, sat_sub(th as int, 1))
    &&& p.viewport_end == sat_sub(k, 1)
    &&& p.input_buffer.len() == 0
    &&& p.selection is None
    &&& p.search is None
    &&& p.settings == (Settings { scroll_jump: (th / 2) as usize, ..settings })
}

/// `t` with every tab replaced by `w` spaces.
fn expand_tabs_exec(t: &str, w: usize) -> (r: String)
    ensures
        r@ == expand_tabs(t@, w as nat),
{
    let chars = chars_of(t);
    let mut r = String::new();
    let mut i: usize = 0;
    while i < chars.len()
        invariant
            chars@ == t@,
            i <= chars.len(),
            r@ == expand_tabs(t@.take(i as int), w as nat),
        decreases chars.len() - i,
    {
        let ghost before = r@;
        let c = chars[i];
        if c == '\t' {
            let mut k: usize = 0;
            while k < w
                invariant
                    k <= w,
                    r@ == before + Seq::new(k as nat, |j: int| ' '),
                decreases w - k,
            {
                push_char(&mut r, ' ');
                assert(before + Seq::new((k + 1) as nat, |j: int| ' ') =~= before + Seq::new(k as nat, |j: int| ' ').push(' '));
                k += 1;
            }
        } else {
            push_char(&mut r, c);
        }
        assert(t@.take(i + 1).drop_last() =~= t@.take(i as int));
        i += 1;
    }
    assert(t@.take(chars.len() as int) =~= t@);
    r
}

impl Pager {
    /// The pager over the lines of `input` (tabs replaced by
    /// `settings.tab_width` spaces, empty lines at the end dropped) on a
    /// terminal of `term_width` columns and `term_height` rows, with the
    /// cursor after the last line; `None` only when the initial cursor column
    /// would pass `usize::MAX`. Without lines, or on a terminal without rows,
    /// the pager is built but cannot be drawn or moved: it is then not well
    /// formed.
    pub fn new(settings: Settings, input: Vec<String>, term_width: u16, term_height: u16) -> (r: Option<Pager>)
        ensures
            r is Some <==> can_start(input@, settings),
            r matches Some(p) ==> initial_fields(p@, input@, settings, term_width, term_height),
            r matches Some(p) ==> (p.wf() <==> input@.len() > 0 && term_height > 0),
    {
        let ghost texts = shown_texts(input@, settings.tab_width as nat);
        let mut lines: Vec<Line> = Vec::new();
        let mut i: usize = 0;
        while i < input.len()
            invariant
                i <= input.len(),
                texts == shown_texts(input@, settings.tab_width as nat),
                lines@.len() == i,
                forall|j: int| 0 <= j < i ==> {
                    &&& (#[trigger] lines@[j]).raw_text() == expand_tabs(input@[j]@, settings.tab_width as nat)
                    &&& lines@[j].text() == texts[j]
                    &&& lines@[j].text().len() <= max_text_len()
                },
            decreases input.len() - i,
        {
            let expanded = expand_tabs_exec(input[i].as_str(), settings.tab_width);
            let line = Line::new(expanded);
            let _ = bounded_char_count(line.display());
            lines.push(line);
            i += 1;
        }
        let mut settings = settings;
        settings.scroll_jump = term_height as usize / 2;
        let th = term_height as usize;
        if lines.len() == 0 {
            let cursor_x = settings.prompt_cursor_offset;
            let p = Pager {
                cursor_x,
                logical_y: 0,
                y_offset: 0,
                wish_cursor_x: cursor_x,
                term_height: th,
                term_width: term_width as usize,
                viewport_start: 0,
                viewport_end: 0,
                lines,
                selection: None,
                search: None,
                input_buffer: VecDeque::with_capacity(INPUT_BUFFER_SIZE),
                settings,
            };
            return Some(p);
        }
        let mut last = lines.len() - 1;
        let mut y_offset: usize = 0;
        while last > 0 && lines[last].display().is_empty()
            invariant
                last < lines@.len(),
                lines@.len() == input@.len(),
                y_offset == lines@.len() - 1 - last,
                lines@.len() <= usize::MAX,
                texts.len() == lines@.len(),
                kept_lines(texts, lines@.len() as int) == kept_lines(texts, last + 1),
                forall|j: int| 0 <= j < lines@.len() ==> (#[trigger] lines@[j]).text() == texts[j],
            decreases last,
        {
            last -= 1;
            y_offset += 1;
        }
        assert(kept_lines(texts, last + 1) == last + 1);
        lines.truncate(last + 1);
        let n = lines.len();
        let last_len = char_count(lines[n - 1].display());
        let base = last_len.saturating_sub(1);
        if settings.prompt_cursor_offset > usize::MAX - base {
            return None;
        }
        let cursor_x = base + settings.prompt_cursor_offset;
        let p = Pager {
            cursor_x,
            logical_y: n - 1,
            y_offset,
            wish_cursor_x: cursor_x,
            term_height: th,
            term_width: term_width as usize,
            viewport_start: n.saturating_sub(th.saturating_sub(1)),
            viewport_end: n - 1,
            lines,
            selection: None,
            search: None,
            input_buffer: VecDeque::with_capacity(INPUT_BUFFER_SIZE),
            settings,
        };
        Some(p)
    }

    /// Whether `key` would make `handle_key_event` fail: outside of search
    /// typing, `N` over a stale current match, or `v` with the cursor on the
    /// last `usize` column (the selection's end column would overflow when
    /// drawn).
    pub fn key_would_panic(&self, key: Key) -> (r: bool)
        requires
            self.wf(),
        ensures
            r == handle_key_panics(self@, key),
    {
        let typing = match &self.search {
            Some(se) => se.state == SearchState::Typing,
            None => false,
        };
        if typing {
            return false;
        }
        let n_panics = match &self.search {
            Some(se) => se.error.is_none() && se.results.len() > 0 && se.current_result_index > se.results.len(),
            None => false,
        };
        (key == Key::Char('N') && n_panics) || (key == Key::Char('v') && self.cursor_x == usize::MAX)
    }

    /// A key pressed; returns whether the pager quits. While a search is
    /// typed, keys go to the search, and `Enter` runs it and moves to the
    /// first match after the cursor.
    #[verifier::rlimit(50)]
    #[verifier::spinoff_prover]
    pub fn handle_key_event(&mut self, key: Key, out: &mut Vec<TermCommand>) -> (quit: bool)
        requires
            old(self).wf(),
            !handle_key_panics(old(self)@, key),
        ensures
            final(self).wf(),
            final(self)@ == handle_key_spec(old(self)@, key).0,
            ops(final(out)@) == ops(old(out)@) + handle_key_spec(old(self)@, key).1,
            quit == handle_key_spec(old(self)@, key).2,
    {
        reveal(handle_key_spec);
        let ghost s = self@;
        let ghost o0 = ops(out@);
        let typing = match &self.search {
            Some(se) => se.state == SearchState::Typing,
            None => false,
        };
        if typing {
            let exec_search = self.search_mode(key, out);
            if exec_search {
                self.search();
                let has_error = match &self.search {
                    Some(se) => se.error.is_some(),
                    None => false,
                };
                if has_error {
                    self.draw(out);
                }
                self.move_to_closest_next_match(out);
            }
            assert(ops(out@) =~= o0 + handle_key_spec(s, key).1);
            false
        } else {
            self.normal_mode(key, out)
        }
    }

    /// The invariant of the pager.
    pub open spec fn wf(&self) -> bool {
        pager_wf(self@)
    }

    /// Column of the cursor, in characters.
    pub fn cursor_x(&self) -> (r: usize)
        ensures
            r == self@.cursor_x,
    {
        self.cursor_x
    }

    /// Line of the cursor.
    pub fn logical_y(&self) -> (r: usize)
        ensures
            r == self@.logical_y,
    {
        self.logical_y
    }

    /// Column the cursor goes back to on vertical moves.
    pub fn wish_cursor_x(&self) -> (r: usize)
        ensures
            r == self@.wish_cursor_x,
    {
        self.wish_cursor_x
    }

    /// First and last line shown.
    pub fn viewport(&self) -> (r: (usize, usize))
        ensures
            r == (self@.viewport_start, self@.viewport_end),
    {
        (self.viewport_start, self.viewport_end)
    }

    /// The selection, if any.
    pub fn selection(&self) -> (r: Option<Selection>)
        ensures
            r == self@.selection,
    {
        self.selection
    }

    /// The search, if any.
    pub fn current_search(&self) -> (r: Option<&Search>)
        ensures
            match r {
                Some(se) => self@.search == Some(se@),
                None => self@.search is None,
            },
    {
        self.search.as_ref()
    }

    /// The lines of the pager.
    pub fn lines(&self) -> (r: &Vec<Line>)
        ensures
            r@ == self@.lines,
    {
        &self.lines
    }

    /// Number of empty lines dropped from the end of the input.
    pub fn y_offset(&self) -> (r: usize)
        ensures
            r == self@.y_offset,
    {
        self.y_offset
    }

    /// The settings in use.
    pub fn settings(&self) -> (r: Settings)
        ensures
            r == self@.settings,
    {
        self.settings
    }

    /// The text of the line of the cursor.
    pub(crate) fn current_line(&self) -> (r: &str)
        requires
            self.wf(),
        ensures
            r@ == line_text(self@, self.logical_y as int),
    {
        self.lines[self.logical_y].display()
    }

    /// The number of characters of the line of the cursor.
    pub(crate) fn current_line_len(&self) -> (n: usize)
        requires
            self.wf(),
        ensures
            n == line_len(self@, self.logical_y as int),
    {
        char_count(self.current_line())
    }
}

} // verus!
