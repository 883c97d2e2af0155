//! Regex search over the lines of the pager.
use vstd::prelude::*;
use super::{Pager, PagerState, pager_wf, search_wf, line_text, max_text_len, lemma_wf_search_update};
use super::movement::{move_to_spec, moved_to, suffix, lemma_suffix_keeps_cursor};
use super::motions::{first_hit, lemma_first_hit, lemma_first_hit_spec, lemma_no_hit};
use super::rendering::{status_draw, draw_all, search_draw, query_lines, ceil_div, ceil_div_usize};
use crate::term::Key;
use crate::text::{display_width, str_width, push_char, pop_char, bounded_char_count};
use crate::term::{TermCommand, TermOp, ops};
use crate::text::{is_boundary, lemma_boundaries_count_apart, byte_len, byte_offset, char_len_utf8, char_utf8_len, chars_before_byte, chars_of, lemma_byte_offset_bound, lemma_byte_offset_step, push_str, string_of, utf8_len};

verus! {

/// Where a match starts: its line and its column in characters.
#[derive(Clone, Copy, Debug, PartialEq, Eq, Structural)]
pub struct SearchResult {
    pub line_index: usize,
    pub column_index: usize,
}

/// Where the search is in its life.
#[derive(Clone, Copy, Debug, PartialEq, Eq, Structural)]
pub enum SearchState {
    /// The query is being typed.
    Typing,
    /// Matches were found and are not drawn yet.
    PendingRedraw,
    /// Matches are drawn.
    Highlighted,
    /// Nothing of the search is shown.
    Hidden,
}

/// A search: its query, its matches and how it is shown.
pub struct Search {
    pub query: String,
    pub state: SearchState,
    pub results: Vec<SearchResult>,
    pub error: Option<String>,
    pub current_result_index: usize,
    pub long_search: bool,
}

/// A search with its texts taken as characters.
pub struct SearchView {
    pub query: Seq<char>,
    pub state: SearchState,
    pub results: Seq<SearchResult>,
    pub error: Option<Seq<char>>,
    pub current_result_index: usize,
    pub long_search: bool,
}

/// The view of an optional text.
pub open spec fn opt_view(o: Option<String>) -> Option<Seq<char>> {
    match o {
        Some(s) => Some(s@),
        None => None,
    }
}

impl View for Search {
    type V = SearchView;

    open spec fn view(&self) -> SearchView {
        SearchView {
            query: self.query@,
            state: self.state,
            results: self.results@,
            error: opt_view(self.error),
            current_result_index: self.current_result_index,
            long_search: self.long_search,
        }
    }
}

/// The view of an optional search.
pub open spec fn opt_search_view(o: Option<Search>) -> Option<SearchView> {
    match o {
        Some(s) => Some(s@),
        None => None,
    }
}

#[verifier::external_type_specification]
#[verifier::external_body]
pub struct ExRegex(regex::Regex);

/// Whether the `regex` crate accepts `pattern`.
pub uninterp spec fn regex_compiles(pattern: Seq<char>) -> bool;

/// Byte positions at which the matches of `pattern` in `hay` start, in
/// order, as the `regex` crate finds them.
pub uninterp spec fn regex_match_starts(pattern: Seq<char>, hay: Seq<char>) -> Seq<usize>;

/// Whether `char::is_uppercase` holds of `c` (the Unicode `Uppercase`
/// property).
pub uninterp spec fn is_uppercase_char(c: char) -> bool;

/// `char::is_uppercase`. Its value is named, not stated.
#[verifier::external_body]
pub(crate) fn char_is_uppercase(c: char) -> (r: bool)
    ensures
        r == is_uppercase_char(c),
{
    c.is_uppercase()
}

/// A regular expression together with the pattern it was built from.
pub struct CompiledPattern {
    pattern: String,
    regex: regex::Regex,
}

impl View for CompiledPattern {
    type V = Seq<char>;

    closed spec fn view(&self) -> Seq<char> {
        self.pattern@
    }
}

/// `regex::Regex::new`: compiles `pattern`; `None` when the crate refuses
/// it. Whether it does is named, not stated.
#[verifier::external_body]
pub(crate) fn compile_regex(pattern: &str) -> (r: Option<CompiledPattern>)
    ensures
        r is Some <==> regex_compiles(pattern@),
        r matches Some(c) ==> c@ == pattern@,
{
    match regex::Regex::new(pattern) {
        Ok(regex) => Some(CompiledPattern { pattern: pattern.to_string(), regex }),
        Err(_) => None,
    }
}

/// Whether byte positions come strictly in order, each on a character
/// boundary of `hay` and within it.
pub open spec fn starts_in_order(starts: Seq<usize>, hay: Seq<char>) -> bool {
    &&& forall|i: int, j: int| 0 <= i < j < starts.len() ==> starts[i] < starts[j]
    &&& forall|i: int|
        0 <= i < starts.len() ==> starts[i] <= utf8_len(hay) && is_boundary(hay, #[trigger] starts[i] as int)
}

/// `regex::Regex::find_iter` with `Match::start`: the byte positions at
/// which the successive matches start. The positions are named. As the
/// crate documents, the iterator yields successive non-overlapping matches
/// (after an empty match it moves on before matching again, so no two
/// matches start at the same position), and a match start is always on a
/// character boundary of the haystack.
#[verifier::external_body]
pub(crate) fn match_starts(re: &CompiledPattern, hay: &str) -> (r: Vec<usize>)
    ensures
        r@ == regex_match_starts(re@, hay@),
        starts_in_order(r@, hay@),
{
    re.regex.find_iter(hay).map(|m| m.start()).collect()
}

/// Whether the query holds an uppercase character.
pub open spec fn has_uppercase(q: Seq<char>) -> bool {
    exists|i: int| 0 <= i < q.len() && is_uppercase_char(#[trigger] q[i])
}

/// The pattern searched for: with smart case, a query without uppercase
/// characters is matched without regard to case.
pub open spec fn search_pattern(q: Seq<char>, smartcase: bool) -> Seq<char> {
    if smartcase && !has_uppercase(q) {
        "(?i)"@ + q
    } else {
        q
    }
}

/// Smart case: with smart case on, the query is searched without regard to
/// case, behind `(?i)`, exactly when none of its characters (at any
/// position) is uppercase; a query with an uppercase character anywhere is
/// searched as it is. With smart case off the query is always searched as
/// it is.
pub proof fn lemma_smartcase_pattern(q: Seq<char>)
    ensures
        (forall|i: int| 0 <= i < q.len() ==> !is_uppercase_char(#[trigger] q[i])) ==> search_pattern(q, true)
            == "(?i)"@ + q,
        (exists|i: int| 0 <= i < q.len() && is_uppercase_char(#[trigger] q[i])) ==> search_pattern(q, true)
            == q,
        search_pattern(q, false) == q,
        search_pattern(q, true) == q || search_pattern(q, true).len() == q.len() + 4,
{
    reveal_strlit("(?i)");
}

/// The matches of `pattern` on one line, as lines and columns.
pub open spec fn line_matches(y: int, t: Seq<char>, pattern: Seq<char>) -> Seq<SearchResult> {
    regex_match_starts(pattern, t).map_values(
        |b: usize| SearchResult { line_index: y as usize, column_index: chars_before_byte(t, b as int) as usize },
    )
}

/// Whether search results come in reading order: each on a later line
/// than the one before, or further right on the same line.
pub open spec fn results_in_order(r: Seq<SearchResult>) -> bool {
    forall|i: int, j: int|
        0 <= i < j < r.len() ==> (#[trigger] r[i]).line_index < (#[trigger] r[j]).line_index || (
        r[i].line_index == r[j].line_index && r[i].column_index < r[j].column_index)
}

/// The matches of `pattern` on lines `0..k`, in order.
pub open spec fn all_matches(lines: Seq<super::Line>, pattern: Seq<char>, k: int) -> Seq<SearchResult>
    decreases k,
{
    if k <= 0 {
        seq![]
    } else {
        all_matches(lines, pattern, k - 1) + line_matches(k - 1, lines[k - 1].text(), pattern)
    }
}

/// Counting the characters before a byte position cannot pass the length.
proof fn lemma_chars_before_byte_bound(s: Seq<char>, b: int)
    ensures
        chars_before_byte(s, b) <= s.len(),
    decreases s.len(),
{
    if s.len() > 0 && b > 0 {
        lemma_chars_before_byte_bound(s.drop_first(), b - char_utf8_len(s[0]));
    }
}

/// Number of characters of `chars` that start before byte position `b`.
pub fn column_of_byte(chars: &Vec<char>, total: usize, b: usize) -> (c: usize)
    requires
        total == utf8_len(chars@),
    ensures
        c == chars_before_byte(chars@, b as int),
        c <= chars@.len(),
{
    let ghost s = chars@;
    let n = chars.len();
    let mut k: usize = 0;
    let mut off: usize = 0;
    proof {
        assert(s.skip(0) =~= s);
        assert(s.take(0) =~= Seq::<char>::empty());
    }
    while k < n && off < b
        invariant
            s == chars@,
            n == s.len(),
            k <= n,
            off == byte_offset(s, k as int),
            total == utf8_len(s),
            chars_before_byte(s, b as int) == k + chars_before_byte(s.skip(k as int), b - off),
        decreases n - k,
    {
        proof {
            lemma_byte_offset_step(s, k as int);
            lemma_byte_offset_bound(s, k + 1);
            assert(s.skip(k as int).drop_first() =~= s.skip(k + 1));
            assert(s.skip(k as int)[0] == s[k as int]);
        }
        off = off + char_len_utf8(chars[k]);
        k += 1;
    }
    proof {
        lemma_chars_before_byte_bound(s.skip(k as int), b - off);
    }
    k
}

/// The search after it was run: matches found, or the error that explains
/// why there are none. Only the query, the state, the matches and the error
/// are concerned.
pub open spec fn searched(s: PagerState, se: SearchView) -> SearchView {
    let pattern = search_pattern(se.query, s.settings.smartcase_search);
    if se.query.len() == 0 {
        SearchView {
            results: seq![],
            state: SearchState::Hidden,
            error: Some("Error: empty search query"@),
            ..se
        }
    } else if !regex_compiles(pattern) {
        SearchView {
            results: seq![],
            state: SearchState::Hidden,
            error: Some("Error: Invalid regex pattern"@),
            ..se
        }
    } else if all_matches(s.lines, pattern, s.lines.len() as int).len() == 0 {
        SearchView {
            results: seq![],
            state: SearchState::Hidden,
            error: Some("Error: could not find any occurrences"@),
            ..se
        }
    } else {
        SearchView {
            results: all_matches(s.lines, pattern, s.lines.len() as int),
            state: SearchState::PendingRedraw,
            ..se
        }
    }
}

/// Searching while typing: the matches of the query so far, nothing when
/// the query is empty or not yet a valid pattern; the search stays `Typing`
/// and shows no error.
pub open spec fn searched_realtime(s: PagerState, se: SearchView) -> SearchView {
    let pattern = search_pattern(se.query, s.settings.smartcase_search);
    let results = if se.query.len() == 0 || !regex_compiles(pattern) {
        seq![]
    } else {
        all_matches(s.lines, pattern, s.lines.len() as int)
    };
    SearchView { results: results, state: SearchState::Typing, error: None, ..se }
}

/// The pager with its search run through `f`, if it has one.
pub open spec fn with_search(s: PagerState, f: spec_fn(PagerState, SearchView) -> SearchView) -> PagerState {
    match s.search {
        Some(se) => PagerState { search: Some(f(s, se)), ..s },
        None => s,
    }
}

impl Pager {
    /// The pattern for a query: with smart case, `(?i)` in front of a query
    /// without uppercase characters.
    pub fn build_search_pattern(query: &str, smartcase: bool) -> (p: String)
        ensures
            p@ == search_pattern(query@, smartcase),
    {
        let chars = chars_of(query);
        let mut any_upper = false;
        let mut i: usize = 0;
        while i < chars.len()
            invariant
                chars@ == query@,
                i <= chars.len(),
                any_upper == exists|j: int| 0 <= j < i && is_uppercase_char(#[trigger] query@[j]),
            decreases chars.len() - i,
        {
            if char_is_uppercase(chars[i]) {
                any_upper = true;
            }
            i += 1;
        }
        if smartcase && !any_upper {
            let mut p = string_of("(?i)");
            push_str(&mut p, query);
            p
        } else {
            string_of(query)
        }
    }

    /// The matches of `re` on every line, in order.
    fn collect_matches(&self, re: &CompiledPattern) -> (r: Vec<SearchResult>)
        requires
            self.wf(),
        ensures
            r@ == all_matches(self@.lines, re@, self@.lines.len() as int),
            forall|i: int|
                0 <= i < r@.len() ==> {
                    &&& (#[trigger] r@[i]).line_index < self@.lines.len()
                    &&& r@[i].column_index <= max_text_len()
                },
            results_in_order(r@),
    {
        let ghost s = self@;
        let mut results: Vec<SearchResult> = Vec::new();
        let n = self.lines.len();
        let mut y: usize = 0;
        while y < n
            invariant
                self.wf(),
                s == self@,
                n == s.lines.len(),
                y <= n,
                results@ == all_matches(s.lines, re@, y as int),
                forall|i: int|
                    0 <= i < results@.len() ==> {
                        &&& (#[trigger] results@[i]).line_index < y
                        &&& results@[i].column_index <= max_text_len()
                    },
                results_in_order(results@),
            decreases n - y,
        {
            let line = self.lines[y].display();
            let chars = chars_of(line);
            let total = byte_len(line);
            let starts = match_starts(re, line);
            let ghost before = results@;
            let ghost lm = line_matches(y as int, line@, re@);
            let mut k: usize = 0;
            while k < starts.len()
                invariant
                    self.wf(),
                    s == self@,
                    n == s.lines.len(),
                    y < n,
                    chars@ == line@,
                    line@ == s.lines[y as int].text(),
                    line@.len() <= max_text_len(),
                    total == utf8_len(line@),
                    starts@ == regex_match_starts(re@, line@),
                    lm == line_matches(y as int, line@, re@),
                    k <= starts.len(),
                    starts_in_order(starts@, line@),
                    results@ == before + lm.take(k as int),
                    forall|i: int|
                        0 <= i < before.len() ==> (#[trigger] before[i]).line_index < y,
                    forall|i: int|
                        0 <= i < results@.len() ==> {
                            &&& (#[trigger] results@[i]).line_index <= y
                            &&& results@[i].column_index <= max_text_len()
                        },
                    results_in_order(results@),
                decreases starts.len() - k,
            {
                let column_index = column_of_byte(&chars, total, starts[k]);
                let ghost r0 = results@;
                let item = SearchResult { line_index: y, column_index };
                assert(item == lm[k as int]);
                proof {
                    assert forall|i: int| 0 <= i < r0.len() implies (#[trigger] r0[i]).line_index < y || (
                    r0[i].line_index == y && r0[i].column_index < column_index) by {
                        if i >= before.len() {
                            let j = i - before.len();
                            assert(r0[i] == lm[j]);
                            assert(starts@[j] < starts@[k as int]);
                            lemma_boundaries_count_apart(line@, starts@[j] as int, starts@[k as int] as int);
                        } else {
                            assert(r0[i] == before[i]);
                        }
                    }
                }
                results.push(item);
                assert(lm.take(k + 1) =~= lm.take(k as int).push(lm[k as int]));
                proof {
                    assert forall|i: int, j: int| 0 <= i < j < results@.len() implies (
                    #[trigger] results@[i]).line_index < (#[trigger] results@[j]).line_index || (
                    results@[i].line_index == results@[j].line_index && results@[i].column_index
                        < results@[j].column_index) by {
                        if j < r0.len() {
                            assert(results@[i] == r0[i] && results@[j] == r0[j]);
                        } else {
                            assert(results@[i] == r0[i]);
                        }
                    }
                }
                k += 1;
            }
            assert(lm.take(starts.len() as int) =~= lm);
            y += 1;
        }
        results
    }

    /// Searches while typing: keeps the search `Typing`, shows no error, and
    /// finds the matches of the query when it is a valid pattern.
    pub(crate) fn search_realtime(&mut self)
        requires
            old(self).wf(),
        ensures
            final(self).wf(),
            final(self)@ == with_search(old(self)@, |s: PagerState, se: SearchView| searched_realtime(s, se)),
            final(self)@.search matches Some(se) ==> results_in_order(se.results),
    {
        let ghost s = self@;
        if self.search.is_none() {
            return;
        }
        let taken = self.search.take();
        let mut se = match taken {
            Some(se) => se,
            None => {
                return;
            },
        };
        se.error = None;
        if se.query.as_str().is_empty() {
            se.results = Vec::new();
            se.state = SearchState::Typing;
            self.search = Some(se);
            return;
        }
        let pattern = Self::build_search_pattern(se.query.as_str(), self.settings.smartcase_search);
        match compile_regex(pattern.as_str()) {
            Some(re) => {
                se.results = self.collect_matches(&re);
                se.state = SearchState::Typing;
            },
            None => {
                se.results = Vec::new();
                se.state = SearchState::Typing;
            },
        }
        self.search = Some(se);
    }

    /// Runs the search: on success the search is `PendingRedraw` with its
    /// matches; otherwise it is `Hidden` with an error.
    pub(crate) fn search(&mut self)
        requires
            old(self).wf(),
        ensures
            final(self).wf(),
            final(self)@ == with_search(old(self)@, |s: PagerState, se: SearchView| searched(s, se)),
            final(self)@.search matches Some(se) ==> results_in_order(se.results),
    {
        let ghost s = self@;
        if self.search.is_none() {
            return;
        }
        let taken = self.search.take();
        let mut se = match taken {
            Some(se) => se,
            None => {
                return;
            },
        };
        se.state = SearchState::Hidden;
        if se.query.as_str().is_empty() {
            se.results = Vec::new();
            se.state = SearchState::Hidden;
            se.error = Some(string_of("Error: empty search query"));
            self.search = Some(se);
            return;
        }
        let pattern = Self::build_search_pattern(se.query.as_str(), self.settings.smartcase_search);
        match compile_regex(pattern.as_str()) {
            Some(re) => {
                se.results = self.collect_matches(&re);
                if se.results.len() == 0 {
                    se.results = Vec::new();
                    se.state = SearchState::Hidden;
                    se.error = Some(string_of("Error: could not find any occurrences"));
                    self.search = Some(se);
                    return;
                }
            },
            None => {
                se.results = Vec::new();
                se.state = SearchState::Hidden;
                se.error = Some(string_of("Error: Invalid regex pattern"));
                self.search = Some(se);
                return;
            },
        }
        se.state = SearchState::PendingRedraw;
        self.search = Some(se);
    }
}

/// A hidden search that only shows the error `msg`.
pub open spec fn error_search(msg: Seq<char>) -> SearchView {
    SearchView {
        query: seq![],
        state: SearchState::Hidden,
        results: seq![],
        error: Some(msg),
        current_result_index: 0,
        long_search: false,
    }
}

/// Whether there are matches to move to.
pub open spec fn navigable(se: SearchView) -> bool {
    se.error is None && se.results.len() > 0
}

/// The match after match `i` of `n`, going round.
pub open spec fn next_index(i: int, n: int) -> int {
    (i + 1) % n
}

/// The match before match `i` of `n`, going round.
pub open spec fn prev_index(i: int, n: int) -> int {
    if i == 0 {
        n - 1
    } else {
        i - 1
    }
}

/// `n` and `N` undo each other: the match after the match before `i`, and
/// the match before the match after `i`, are `i`.
pub proof fn lemma_next_prev_inverse(i: int, n: int)
    requires
        0 <= i < n,
    ensures
        prev_index(next_index(i, n), n) == i,
        next_index(prev_index(i, n), n) == i,
        0 <= next_index(i, n) < n,
        0 <= prev_index(i, n) < n,
{
    if i + 1 < n {
        vstd::arithmetic::div_mod::lemma_small_mod((i + 1) as nat, n as nat);
    } else {
        vstd::arithmetic::div_mod::lemma_mod_self_0(n);
    }
    if i == 0 {
        vstd::arithmetic::div_mod::lemma_mod_self_0(n);
    } else {
        vstd::arithmetic::div_mod::lemma_small_mod(i as nat, n as nat);
    }
}

/// Moving to match `i` of the search: it becomes the current match, shown
/// highlighted, and the cursor goes to where it starts.
pub open spec fn goto_match(s: PagerState, se: SearchView, i: int) -> (PagerState, Seq<TermOp>) {
    let r = se.results[i];
    let s1 = PagerState {
        search: Some(SearchView { current_result_index: i as usize, state: SearchState::Highlighted, ..se }),
        ..s
    };
    move_to_spec(s1, r.column_index as int, r.line_index as int)
}

/// `n`: to the next match, going round; without matches the search only
/// shows an error.
pub open spec fn next_match(s: PagerState) -> (PagerState, Seq<TermOp>) {
    match s.search {
        Some(se) => if navigable(se) {
            goto_match(s, se, next_index(se.current_result_index as int, se.results.len() as int))
        } else {
            (PagerState { search: Some(error_search("Error: No search query"@)), ..s }, seq![])
        },
        None => (PagerState { search: Some(error_search("Error: No search query"@)), ..s }, seq![]),
    }
}

/// `N`: to the previous match, going round; without matches the search
/// only shows an error.
pub open spec fn prev_match(s: PagerState) -> (PagerState, Seq<TermOp>) {
    match s.search {
        Some(se) => if navigable(se) {
            goto_match(s, se, prev_index(se.current_result_index as int, se.results.len() as int))
        } else {
            (PagerState { search: Some(error_search("Error: No search query"@)), ..s }, seq![])
        },
        None => (PagerState { search: Some(error_search("Error: No search query"@)), ..s }, seq![]),
    }
}

/// Scrolling and drawing after a move keep the lines, the cursor, the
/// matches and the current match; a search without error keeps none as long
/// as its query fits in half the screen.
pub proof fn lemma_suffix_keeps_search(s: PagerState, rerender: bool)
    requires
        s.search matches Some(se) && se.error is None && query_lines(s, se) <= s.term_height as int / 2,
    ensures
        suffix(s, rerender).0.lines == s.lines,
        suffix(s, rerender).0.logical_y == s.logical_y,
        suffix(s, rerender).0.cursor_x == s.cursor_x,
        suffix(s, rerender).0.term_width == s.term_width,
        suffix(s, rerender).0.term_height == s.term_height,
        suffix(s, rerender).0.search matches Some(se2) && se2.results == s.search->0.results
            && se2.current_result_index == s.search->0.current_result_index && se2.query
            == s.search->0.query && se2.error is None,
{
    reveal(suffix);
    reveal(draw_all);
    reveal(status_draw);
    reveal(search_draw);
}

/// `n` then `N` come back to the current match: the current match index is
/// the same again, and the cursor is on that match (held to its line as any
/// move is), provided no drawing turns the search into an error, that is,
/// the query fits in half the screen.
pub proof fn lemma_next_then_prev_returns(s: PagerState)
    requires
        s.search matches Some(se) && navigable(se) && se.current_result_index < se.results.len()
            && se.results.len() <= usize::MAX && query_lines(s, se) <= s.term_height as int / 2,
    ensures
        ({
            let se = s.search->0;
            let r = se.results[se.current_result_index as int];
            let s2 = prev_match(next_match(s).0).0;
            &&& s2.search matches Some(se2) && se2.current_result_index == se.current_result_index
            &&& s2.logical_y == moved_to(s, r.column_index as int, r.line_index as int).logical_y
            &&& s2.cursor_x == moved_to(s, r.column_index as int, r.line_index as int).cursor_x
        }),
{
    let se = s.search->0;
    let n = se.results.len() as int;
    let i = se.current_result_index as int;
    lemma_next_prev_inverse(i, n);
    let j = next_index(i, n);
    let s1a = PagerState {
        search: Some(SearchView { current_result_index: j as usize, state: SearchState::Highlighted, ..se }),
        ..s
    };
    let rj = se.results[j];
    let m1 = moved_to(s1a, rj.column_index as int, rj.line_index as int);
    lemma_suffix_keeps_search(m1, true);
    let s1 = next_match(s).0;
    assert(s1 == suffix(m1, true).0);
    let se1 = s1.search->0;
    assert(navigable(se1));
    let s2a = PagerState {
        search: Some(SearchView { current_result_index: i as usize, state: SearchState::Highlighted, ..se1 }),
        ..s1
    };
    let r = se.results[i];
    assert(se1.results == se.results);
    assert(m1.search->0.current_result_index == j as usize);
    assert(se1.current_result_index as int == j);
    assert(prev_index(se1.current_result_index as int, se1.results.len() as int) == i);
    assert(se1.results[i] == r);
    let m2 = moved_to(s2a, r.column_index as int, r.line_index as int);
    lemma_suffix_keeps_search(m2, true);
    assert(prev_match(s1) == goto_match(s1, se1, i));
    assert(prev_match(s1).0 == suffix(m2, true).0);
    assert(m2.logical_y == moved_to(s, r.column_index as int, r.line_index as int).logical_y);
}

/// Moving to the closest match after the cursor (as `Enter` does after a
/// search) makes current the first match, in reading order, that lies
/// strictly after the cursor: on a later line, or on the cursor's line to
/// its right; with no such match, the first match. The cursor goes to that
/// match, held to the text as any move is.
pub proof fn lemma_closest_next_is_nearest(s: PagerState)
    requires
        s.search matches Some(se) && navigable(se) && se.results.len() <= usize::MAX,
    ensures
        ({
            let rs = s.search->0.results;
            let s1 = closest_match(s, true).0;
            let k = s1.search->0.current_result_index as int;
            &&& s1.search is Some
            &&& 0 <= k < rs.len()
            &&& (exists|j: int| 0 <= j < rs.len() && (#[trigger] rs[j].line_index > s.logical_y || (
                rs[j].line_index == s.logical_y && rs[j].column_index > s.cursor_x))) ==> {
                &&& (rs[k].line_index > s.logical_y || (rs[k].line_index == s.logical_y
                    && rs[k].column_index > s.cursor_x))
                &&& forall|j: int| 0 <= j < k ==> !(#[trigger] rs[j].line_index > s.logical_y || (
                    rs[j].line_index == s.logical_y && rs[j].column_index > s.cursor_x))
            }
            &&& (forall|j: int| 0 <= j < rs.len() ==> !(#[trigger] rs[j].line_index > s.logical_y || (
                rs[j].line_index == s.logical_y && rs[j].column_index > s.cursor_x))) ==> k == 0
            &&& s1.logical_y == moved_to(s, rs[k].column_index as int, rs[k].line_index as int).logical_y
            &&& s1.cursor_x == moved_to(s, rs[k].column_index as int, rs[k].line_index as int).cursor_x
        }),
{
    let rs = s.search->0.results;
    let n = rs.len() as int;
    let hit = after_hits(s, rs);
    lemma_first_hit_spec(n, hit);
    match first_hit(n, hit) {
        Some(i) => {
            assert forall|j: int| 0 <= j < i implies !(#[trigger] rs[j].line_index > s.logical_y || (
                rs[j].line_index == s.logical_y && rs[j].column_index > s.cursor_x)) by {
                assert(!hit(j));
            }
        },
        None => {
            assert forall|j: int| 0 <= j < n implies !(#[trigger] rs[j].line_index > s.logical_y || (
                rs[j].line_index == s.logical_y && rs[j].column_index > s.cursor_x)) by {
                assert(!hit(j));
            }
        },
    }
    let r = rs[closest_next(s, rs)];
    lemma_suffix_keeps_cursor(moved_to(s, r.column_index as int, r.line_index as int), true);
}

/// Moving to the closest match before the cursor makes current the last
/// match, in reading order, that lies strictly before the cursor: on an
/// earlier line, or on the cursor's line to its left; with no such match,
/// the last match. The cursor goes to that match, held to the text.
pub proof fn lemma_closest_prev_is_nearest(s: PagerState)
    requires
        s.search matches Some(se) && navigable(se) && se.results.len() <= usize::MAX,
    ensures
        ({
            let rs = s.search->0.results;
            let s1 = closest_match(s, false).0;
            let k = s1.search->0.current_result_index as int;
            &&& s1.search is Some
            &&& 0 <= k < rs.len()
            &&& (exists|j: int| 0 <= j < rs.len() && (#[trigger] rs[j].line_index < s.logical_y || (
                rs[j].line_index == s.logical_y && rs[j].column_index < s.cursor_x))) ==> {
                &&& (rs[k].line_index < s.logical_y || (rs[k].line_index == s.logical_y
                    && rs[k].column_index < s.cursor_x))
                &&& forall|j: int| k < j < rs.len() ==> !(#[trigger] rs[j].line_index < s.logical_y || (
                    rs[j].line_index == s.logical_y && rs[j].column_index < s.cursor_x))
            }
            &&& (forall|j: int| 0 <= j < rs.len() ==> !(#[trigger] rs[j].line_index < s.logical_y || (
                rs[j].line_index == s.logical_y && rs[j].column_index < s.cursor_x))) ==> k == rs.len() - 1
            &&& s1.logical_y == moved_to(s, rs[k].column_index as int, rs[k].line_index as int).logical_y
            &&& s1.cursor_x == moved_to(s, rs[k].column_index as int, rs[k].line_index as int).cursor_x
        }),
{
    let rs = s.search->0.results;
    let n = rs.len() as int;
    let hit = before_hits(s, rs);
    lemma_first_hit_spec(n, hit);
    match first_hit(n, hit) {
        Some(i) => {
            assert forall|j: int| n - 1 - i < j < n implies !(#[trigger] rs[j].line_index < s.logical_y || (
                rs[j].line_index == s.logical_y && rs[j].column_index < s.cursor_x)) by {
                assert(!hit(n - 1 - j));
            }
        },
        None => {
            assert forall|j: int| 0 <= j < n implies !(#[trigger] rs[j].line_index < s.logical_y || (
                rs[j].line_index == s.logical_y && rs[j].column_index < s.cursor_x)) by {
                assert(!hit(n - 1 - j));
            }
        },
    }
    let r = rs[closest_prev(s, rs)];
    lemma_suffix_keeps_cursor(moved_to(s, r.column_index as int, r.line_index as int), true);
}

/// Whether `N` would index past the matches: the current match is more than
/// one past the last one (left from an earlier search).
pub open spec fn prev_match_panics(s: PagerState) -> bool {
    s.search matches Some(se) && navigable(se) && se.current_result_index > se.results.len()
}

/// Whether match `r` is after the cursor.
pub open spec fn after_cursor(s: PagerState, r: SearchResult) -> bool {
    r.line_index > s.logical_y || (r.line_index == s.logical_y && r.column_index > s.cursor_x)
}

/// Whether match `r` is before the cursor.
pub open spec fn before_cursor(s: PagerState, r: SearchResult) -> bool {
    r.line_index < s.logical_y || (r.line_index == s.logical_y && r.column_index < s.cursor_x)
}

/// The matches after the cursor, as a predicate on their index.
pub open spec fn after_hits(s: PagerState, results: Seq<SearchResult>) -> spec_fn(int) -> bool {
    |i: int| after_cursor(s, results[i])
}

/// The matches before the cursor, counted from the last, as a predicate.
pub open spec fn before_hits(s: PagerState, results: Seq<SearchResult>) -> spec_fn(int) -> bool {
    |k: int| before_cursor(s, results[results.len() - 1 - k])
}

/// Index of the first match after the cursor, or of the first match.
pub open spec fn closest_next(s: PagerState, results: Seq<SearchResult>) -> int {
    match first_hit(results.len() as int, after_hits(s, results)) {
        Some(i) => i,
        None => 0,
    }
}

/// Index of the last match before the cursor, or of the last match.
pub open spec fn closest_prev(s: PagerState, results: Seq<SearchResult>) -> int {
    match first_hit(results.len() as int, before_hits(s, results)) {
        Some(k) => results.len() - 1 - k,
        None => results.len() - 1,
    }
}

/// Moving to the closest match after (`next`) or before the cursor: the
/// cursor goes there, then it becomes the current match, highlighted.
/// Without matches the search shows an error on the status line.
pub open spec fn closest_match(s: PagerState, next: bool) -> (PagerState, Seq<TermOp>) {
    match s.search {
        Some(se) => if navigable(se) {
            let i = if next {
                closest_next(s, se.results)
            } else {
                closest_prev(s, se.results)
            };
            let r = se.results[i];
            let (s1, o1) = move_to_spec(s, r.column_index as int, r.line_index as int);
            let s2 = match s1.search {
                Some(se1) => PagerState {
                    search: Some(SearchView { current_result_index: i as usize, state: SearchState::Highlighted, ..se1 }),
                    ..s1
                },
                None => s1,
            };
            (s2, o1)
        } else {
            status_draw(PagerState { search: Some(error_search("Error: No search results"@)), ..s })
        },
        None => status_draw(PagerState { search: Some(error_search("Error: No search results"@)), ..s }),
    }
}

/// A new hidden search that only shows the error `msg`.
fn new_error_search(msg: &str) -> (se: Search)
    ensures
        se@ == error_search(msg@),
{
    let se = Search {
        query: String::new(),
        state: SearchState::Hidden,
        results: Vec::new(),
        error: Some(string_of(msg)),
        current_result_index: 0,
        long_search: false,
    };
    assert(se@.query =~= Seq::<char>::empty());
    assert(se@.results =~= Seq::<SearchResult>::empty());
    se
}

impl Pager {
    /// Moves to match `i` of the search: it becomes the current match.
    fn goto_result(&mut self, i: usize, out: &mut Vec<TermCommand>)
        requires
            old(self).wf(),
            old(self)@.search is Some,
            i < old(self)@.search->0.results.len(),
        ensures
            final(self).wf(),
            final(self)@ == goto_match(old(self)@, old(self)@.search->0, i as int).0,
            ops(final(out)@) == ops(old(out)@) + goto_match(old(self)@, old(self)@.search->0, i as int).1,
    {
        let ghost s = self@;
        let taken = self.search.take();
        match taken {
            Some(mut se) => {
                let r = se.results[i];
                assert(i < se.results.len());
                se.current_result_index = i;
                se.state = SearchState::Highlighted;
                proof {
                    lemma_wf_search_update(s, se@);
                }
                self.search = Some(se);
                assert(self@ == (PagerState { search: Some(se@), ..s }));
                self.move_to(r.column_index, r.line_index, out);
            },
            None => {},
        }
    }

    /// `n`: moves to the next match, going round.
    pub(crate) fn move_to_next_match(&mut self, out: &mut Vec<TermCommand>)
        requires
            old(self).wf(),
        ensures
            final(self).wf(),
            final(self)@ == next_match(old(self)@).0,
            ops(final(out)@) == ops(old(out)@) + next_match(old(self)@).1,
    {
        let next = match &self.search {
            Some(se) => if se.error.is_some() || se.results.len() == 0 {
                None
            } else {
                Some((se.current_result_index + 1) % se.results.len())
            },
            None => None,
        };
        match next {
            Some(idx) => {
                self.goto_result(idx, out);
            },
            None => {
                self.search = Some(new_error_search("Error: No search query"));
                assert(ops(out@) =~= ops(old(out)@) + seq![]);
            },
        }
    }

    /// `N`: moves to the previous match, going round.
    pub(crate) fn move_to_prev_match(&mut self, out: &mut Vec<TermCommand>)
        requires
            old(self).wf(),
            !prev_match_panics(old(self)@),
        ensures
            final(self).wf(),
            final(self)@ == prev_match(old(self)@).0,
            ops(final(out)@) == ops(old(out)@) + prev_match(old(self)@).1,
    {
        let prev = match &self.search {
            Some(se) => if se.error.is_some() || se.results.len() == 0 {
                None
            } else {
                Some(
                    match se.current_result_index.checked_sub(1) {
                        Some(p) => p,
                        None => se.results.len() - 1,
                    },
                )
            },
            None => None,
        };
        match prev {
            Some(idx) => {
                self.goto_result(idx, out);
            },
            None => {
                self.search = Some(new_error_search("Error: No search query"));
                assert(ops(out@) =~= ops(old(out)@) + seq![]);
            },
        }
    }

    /// The first match after the cursor, or the first match, with its index.
    pub(crate) fn get_closest_next_match(&self) -> (r: Option<(SearchResult, usize)>)
        requires
            self.wf(),
        ensures
            match self@.search {
                Some(se) => if navigable(se) {
                    r == Some((se.results[closest_next(self@, se.results)], closest_next(self@, se.results) as usize))
                } else {
                    r is None
                },
                None => r is None,
            },
            r matches Some(p) ==> p.1 < usize::MAX,
    {
        let ghost s = self@;
        let se = match &self.search {
            Some(se) => se,
            None => {
                return None;
            },
        };
        if se.error.is_some() || se.results.len() == 0 {
            return None;
        }
        let ghost results = se.results@;
        let ghost hit = after_hits(s, results);
        let mut i: usize = 0;
        while i < se.results.len()
            invariant
                s == self@,
                results == se.results@,
                s.search == Some(se@),
                navigable(se@),
                hit == after_hits(s, results),
                i <= results.len(),
                forall|j: int| 0 <= j < i ==> !#[trigger] hit(j),
            decreases se.results.len() - i,
        {
            let r = se.results[i];
            if r.line_index > self.logical_y || (r.line_index == self.logical_y && r.column_index
                > self.cursor_x) {
                assert(hit(i as int));
                proof {
                    lemma_first_hit(results.len() as int, hit, i as int);
                }
                assert(closest_next(s, results) == i as int);
                assert(r == results[i as int]);
                return Some((r, i));
            }
            assert(!hit(i as int));
            i += 1;
        }
        proof {
            lemma_no_hit(results.len() as int, hit);
        }
        Some((se.results[0], 0))
    }

    /// The last match before the cursor, or the last match, with its index.
    pub(crate) fn get_closest_prev_match(&self) -> (r: Option<(SearchResult, usize)>)
        requires
            self.wf(),
        ensures
            match self@.search {
                Some(se) => if navigable(se) {
                    r == Some((se.results[closest_prev(self@, se.results)], closest_prev(self@, se.results) as usize))
                } else {
                    r is None
                },
                None => r is None,
            },
            r matches Some(p) ==> p.1 < usize::MAX,
    {
        let ghost s = self@;
        let se = match &self.search {
            Some(se) => se,
            None => {
                return None;
            },
        };
        if se.error.is_some() || se.results.len() == 0 {
            return None;
        }
        let ghost results = se.results@;
        let ghost hit = before_hits(s, results);
        let n = se.results.len();
        let mut k: usize = 0;
        while k < n
            invariant
                s == self@,
                results == se.results@,
                n == results.len(),
                s.search == Some(se@),
                navigable(se@),
                hit == before_hits(s, results),
                k <= n,
                forall|j: int| 0 <= j < k ==> !#[trigger] hit(j),
            decreases n - k,
        {
            let i = n - 1 - k;
            let r = se.results[i];
            if r.line_index < self.logical_y || (r.line_index == self.logical_y && r.column_index
                < self.cursor_x) {
                assert(hit(k as int));
                proof {
                    lemma_first_hit(n as int, hit, k as int);
                }
                assert(closest_prev(s, results) == i as int);
                assert(r == results[i as int]);
                return Some((r, i));
            }
            assert(!hit(k as int));
            k += 1;
        }
        proof {
            lemma_no_hit(n as int, hit);
        }
        Some((se.results[n - 1], n - 1))
    }

    /// Moves to the closest match after (`next`) or before the cursor and
    /// makes it the current match; without matches, shows an error.
    pub(crate) fn move_to_closest_match(&mut self, next: bool, out: &mut Vec<TermCommand>)
        requires
            old(self).wf(),
        ensures
            final(self).wf(),
            final(self)@ == closest_match(old(self)@, next).0,
            ops(final(out)@) == ops(old(out)@) + closest_match(old(self)@, next).1,
    {
        let ghost s = self@;
        let closest = if next {
            self.get_closest_next_match()
        } else {
            self.get_closest_prev_match()
        };
        match closest {
            Some((result, idx)) => {
                self.move_to(result.column_index, result.line_index, out);
                let ghost s1 = self@;
                let taken = self.search.take();
                match taken {
                    Some(mut se) => {
                        se.current_result_index = idx;
                        se.state = SearchState::Highlighted;
                        proof {
                            lemma_wf_search_update(s1, se@);
                        }
                        self.search = Some(se);
                        assert(self@ == (PagerState { search: Some(se@), ..s1 }));
                    },
                    None => {},
                }
            },
            None => {
                self.search = Some(new_error_search("Error: No search results"));
                self.draw_status_line(out);
            },
        }
    }

    /// Moves to the closest match after the cursor.
    pub(crate) fn move_to_closest_next_match(&mut self, out: &mut Vec<TermCommand>)
        requires
            old(self).wf(),
        ensures
            final(self).wf(),
            final(self)@ == closest_match(old(self)@, true).0,
            ops(final(out)@) == ops(old(out)@) + closest_match(old(self)@, true).1,
    {
        self.move_to_closest_match(true, out)
    }

    /// Moves to the closest match before the cursor.
    pub(crate) fn move_to_closest_prev_match(&mut self, out: &mut Vec<TermCommand>)
        requires
            old(self).wf(),
        ensures
            final(self).wf(),
            final(self)@ == closest_match(old(self)@, false).0,
            ops(final(out)@) == ops(old(out)@) + closest_match(old(self)@, false).1,
    {
        self.move_to_closest_match(false, out)
    }
}

/// A new empty search being typed.
pub open spec fn typing_search() -> SearchView {
    SearchView {
        query: seq![],
        state: SearchState::Typing,
        results: seq![],
        error: None,
        current_result_index: 0,
        long_search: false,
    }
}

/// Screen lines that the prompt of a search takes, as measured to decide
/// whether the screen must be redrawn after typing (one, unless the query is
/// shown over several lines or matches are searched while typing).
pub open spec fn prompt_lines(s: PagerState) -> int {
    match s.search {
        Some(se) => if !s.settings.real_time_search {
            if se.long_search {
                ceil_div(display_width(se.query) as int, super::sat_sub(s.term_width as int, 1))
            } else {
                1
            }
        } else {
            1
        },
        None => 1,
    }
}

/// After a key typed into the query: search while typing if enabled, then
/// draw everything when searching while typing or when the prompt got
/// shorter, else only the status line.
pub open spec fn after_typing(s0: PagerState, s1: PagerState) -> (PagerState, Seq<TermOp>, bool) {
    let s2 = if s1.settings.real_time_search {
        with_search(s1, |s: PagerState, se: SearchView| searched_realtime(s, se))
    } else {
        s1
    };
    if s2.settings.real_time_search || prompt_lines(s2) < prompt_lines(s0) {
        (draw_all(s2).0, draw_all(s2).1, false)
    } else {
        (status_draw(s2).0, status_draw(s2).1, false)
    }
}

/// A key in search mode: the pager afterwards, the commands, and whether
/// the search is to be run (on `Enter`). The first key opens a new search;
/// a key when the search is not being typed starts a new query.
#[verifier::opaque]
pub open spec fn search_mode_spec(s: PagerState, key: Key) -> (PagerState, Seq<TermOp>, bool) {
    match s.search {
        None => {
            let s1 = PagerState { search: Some(typing_search()), ..s };
            (status_draw(s1).0, status_draw(s1).1, false)
        },
        Some(se) => if se.state != SearchState::Typing {
            let s1 = PagerState {
                search: Some(SearchView {
                    state: SearchState::Typing,
                    error: None,
                    results: seq![],
                    query: seq![],
                    ..se
                }),
                ..s
            };
            (status_draw(s1).0, status_draw(s1).1, false)
        } else {
            match key {
                Key::Char(c) => after_typing(
                    s,
                    PagerState { search: Some(SearchView { query: se.query.push(c), ..se }), ..s },
                ),
                Key::Backspace => after_typing(
                    s,
                    PagerState {
                        search: Some(SearchView {
                            query: if se.query.len() > 0 {
                                se.query.drop_last()
                            } else {
                                se.query
                            },
                            ..se
                        }),
                        ..s
                    },
                ),
                Key::Esc => {
                    let s1 = PagerState {
                        search: Some(SearchView { state: SearchState::Hidden, ..se }),
                        ..s
                    };
                    (draw_all(s1).0, draw_all(s1).1, false)
                },
                Key::Enter => (s, seq![], true),
                _ => after_typing(s, s),
            }
        },
    }
}

impl Pager {
    /// Screen lines taken by the search prompt, as `prompt_lines` measures.
    fn prompt_lines(&self) -> (n: usize)
        requires
            self.wf(),
        ensures
            n == prompt_lines(self@),
    {
        match &self.search {
            Some(se) => if !self.settings.real_time_search {
                if se.long_search {
                    ceil_div_usize(str_width(se.query.as_str()), self.term_width.saturating_sub(1))
                } else {
                    1
                }
            } else {
                1
            },
            None => 1,
        }
    }

    /// Searches while typing when enabled, then draws as a key typed into
    /// the query requires.
    fn finish_typing(&mut self, before: usize, out: &mut Vec<TermCommand>)
        requires
            old(self).wf(),
        ensures
            final(self).wf(),
            forall|s0: PagerState| prompt_lines(s0) == before ==> {
                &&& final(self)@ == after_typing(s0, old(self)@).0
                &&& ops(final(out)@) == ops(old(out)@) + after_typing(s0, old(self)@).1
            },
    {
        if self.settings.real_time_search {
            self.search_realtime();
        }
        let after = self.prompt_lines();
        if self.settings.real_time_search || after < before {
            self.draw(out);
        } else {
            self.draw_status_line(out);
        }
    }

    /// A key in search mode; returns whether the search is to be run.
    #[verifier::rlimit(50)]
    #[verifier::spinoff_prover]
    pub(crate) fn search_mode(&mut self, key: Key, out: &mut Vec<TermCommand>) -> (run: bool)
        requires
            old(self).wf(),
        ensures
            final(self).wf(),
            final(self)@ == search_mode_spec(old(self)@, key).0,
            ops(final(out)@) == ops(old(out)@) + search_mode_spec(old(self)@, key).1,
            run == search_mode_spec(old(self)@, key).2,
    {
        reveal(search_mode_spec);
        let ghost s = self@;
        let before = self.prompt_lines();
        let taken = self.search.take();
        let mut se = match taken {
            None => {
                let se = Search {
                    query: String::new(),
                    state: SearchState::Typing,
                    results: Vec::new(),
                    error: None,
                    current_result_index: 0,
                    long_search: false,
                };
                assert(se@ == typing_search());
                self.search = Some(se);
                self.draw_status_line(out);
                return false;
            },
            Some(se) => se,
        };
        if se.state != SearchState::Typing {
            se.state = SearchState::Typing;
            se.error = None;
            se.results = Vec::new();
            se.query = String::new();
            assert(se@.query =~= Seq::<char>::empty());
            assert(se@.results =~= Seq::<SearchResult>::empty());
            self.search = Some(se);
            self.draw_status_line(out);
            return false;
        }
        match key {
            Key::Char(c) => {
                push_char(&mut se.query, c);
                let _ = bounded_char_count(se.query.as_str());
                self.search = Some(se);
                self.finish_typing(before, out);
            },
            Key::Backspace => {
                let _ = pop_char(&mut se.query);
                self.search = Some(se);
                self.finish_typing(before, out);
            },
            Key::Esc => {
                se.state = SearchState::Hidden;
                self.search = Some(se);
                self.draw(out);
            },
            Key::Enter => {
                self.search = Some(se);
                assert(ops(out@) =~= ops(old(out)@) + seq![]);
                return true;
            },
            _ => {
                self.search = Some(se);
                self.finish_typing(before, out);
            },
        }
        false
    }
}

} // verus!
