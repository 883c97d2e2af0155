use kitty_copy_pager::pager::search::SearchState;
use kitty_copy_pager::pager::Pager;
use kitty_copy_pager::selection::{SelectedEnd, Vec2};
use kitty_copy_pager::settings::Settings;
use kitty_copy_pager::term::{Color, Key, TermCommand};

fn defaults() -> Settings {
    Settings {
        prompt_cursor_offset: 1,
        scrolloff: 4,
        scroll_jump: 10,
        tab_width: 8,
        status_line_bg_color: Color::DarkGrey,
        status_line_fg_color: Color::White,
        search_error_fg_color: Color::Red,
        selection_bg_color: Color::Yellow,
        selection_fg_color: Color::Black,
        search_highlight_bg_color: Color::Blue,
        search_highlight_fg_color: Color::Black,
        real_time_search: true,
        smartcase_search: true,
    }
}

fn pager(lines: &[&str], w: u16, h: u16) -> Pager {
    let input: Vec<String> = lines.iter().map(|s| s.to_string()).collect();
    Pager::new(defaults(), input, w, h).expect("pager starts")
}

fn press(p: &mut Pager, keys: &str) -> Vec<TermCommand> {
    let mut out = Vec::new();
    for c in keys.chars() {
        assert!(!p.key_would_panic(Key::Char(c)));
        p.handle_key_event(Key::Char(c), &mut out);
    }
    out
}

fn key(p: &mut Pager, k: Key) -> (bool, Vec<TermCommand>) {
    let mut out = Vec::new();
    assert!(!p.key_would_panic(k));
    let quit = p.handle_key_event(k, &mut out);
    (quit, out)
}

fn copied(out: &[TermCommand]) -> Option<String> {
    out.iter().find_map(|c| match c {
        TermCommand::CopyToClipboard(s) => Some(s.clone()),
        _ => None,
    })
}

#[test]
fn new_drops_trailing_empty_lines() {
    let p = pager(&["hello world", "foo bar", "", ""], 80, 24);
    assert_eq!(p.lines().len(), 2);
    assert_eq!(p.y_offset(), 2);
    assert_eq!(p.logical_y(), 1);
    assert_eq!(p.cursor_x(), 7);
    assert_eq!(p.wish_cursor_x(), 7);
    assert_eq!(p.viewport(), (0, 1));
    assert_eq!(p.settings().scroll_jump, 12);
    assert!(p.selection().is_none());
    assert!(p.current_search().is_none());
}

#[test]
fn new_expands_tabs_and_keeps_first_line() {
    let p = pager(&["a\tb", ""], 80, 24);
    assert_eq!(p.lines().len(), 1);
    assert_eq!(p.lines()[0].display(), "a        b");
    assert_eq!(p.cursor_x(), 10);
    let q = pager(&["", ""], 80, 24);
    assert_eq!(q.lines().len(), 1);
    assert_eq!(q.cursor_x(), 1);
}

#[test]
fn new_builds_a_pager_on_any_input() {
    let p = Pager::new(defaults(), Vec::new(), 80, 24).expect("built");
    assert!(p.lines().is_empty());
    assert_eq!((p.y_offset(), p.logical_y(), p.cursor_x(), p.viewport()), (0, 0, 1, (0, 0)));
    let p = Pager::new(defaults(), vec!["x".to_string()], 0, 24).expect("built");
    assert_eq!(p.lines().len(), 1);
    let p = Pager::new(defaults(), vec!["ab".to_string(), "c".to_string()], 80, 0).expect("built");
    assert_eq!(p.viewport(), (2, 1));
    assert_eq!(p.settings().scroll_jump, 0);
}

#[test]
fn new_refuses_only_a_cursor_past_usize_max() {
    let mut s = defaults();
    s.prompt_cursor_offset = usize::MAX;
    assert!(Pager::new(s, vec!["ab".to_string()], 80, 24).is_none());
    let mut p = Pager::new(s, vec!["a".to_string()], 80, 24).expect("built");
    assert_eq!(p.cursor_x(), usize::MAX);
    assert!(p.key_would_panic(Key::Char('v')));
    let mut out = Vec::new();
    p.draw(&mut out);
    let mut s = defaults();
    s.prompt_cursor_offset = isize::MAX as usize + 5;
    let p = Pager::new(s, Vec::new(), 80, 24).expect("built");
    assert_eq!(p.cursor_x(), isize::MAX as usize + 5);
}

#[test]
fn viewport_starts_at_the_bottom() {
    let lines: Vec<String> = (0..100).map(|i| format!("line {i}")).collect();
    let refs: Vec<&str> = lines.iter().map(|s| s.as_str()).collect();
    let mut p = pager(&refs, 80, 24);
    assert_eq!(p.viewport(), (77, 99));
    press(&mut p, "gg");
    assert_eq!(p.logical_y(), 0);
    assert_eq!(p.viewport(), (0, 22));
    press(&mut p, "G");
    assert_eq!(p.logical_y(), 99);
    assert_eq!(p.viewport(), (77, 99));
    press(&mut p, "u");
    assert_eq!(p.logical_y(), 87);
    assert_eq!(p.viewport(), (77, 99));
    press(&mut p, "uu");
    assert_eq!(p.logical_y(), 63);
    assert_eq!(p.viewport(), (59, 81));
}

#[test]
fn vertical_moves_keep_the_wished_column() {
    let mut p = pager(&["hello world", "ab", "foo bar"], 80, 24);
    assert_eq!((p.cursor_x(), p.logical_y()), (7, 2));
    press(&mut p, "k");
    assert_eq!((p.cursor_x(), p.logical_y()), (1, 1));
    press(&mut p, "k");
    assert_eq!((p.cursor_x(), p.logical_y()), (7, 0));
    press(&mut p, "kkk");
    assert_eq!(p.logical_y(), 0);
    press(&mut p, "jjjj");
    assert_eq!(p.logical_y(), 2);
}

#[test]
fn horizontal_moves_stay_on_the_line() {
    let mut p = pager(&["hello world", "foo bar"], 80, 24);
    press(&mut p, "k0");
    assert_eq!(p.cursor_x(), 0);
    press(&mut p, "h");
    assert_eq!(p.cursor_x(), 0);
    press(&mut p, "$");
    assert_eq!(p.cursor_x(), 10);
    press(&mut p, "l");
    assert_eq!(p.cursor_x(), 10);
    press(&mut p, "hh");
    assert_eq!(p.cursor_x(), 8);
}

#[test]
fn underscore_goes_to_first_non_blank() {
    let mut p = pager(&["   indented", "x"], 80, 24);
    press(&mut p, "k$_");
    assert_eq!(p.cursor_x(), 3);
    press(&mut p, "0^");
    assert_eq!(p.cursor_x(), 3);
}

#[test]
fn word_motions() {
    let mut p = pager(&["hello world", "foo bar"], 80, 24);
    press(&mut p, "k0w");
    assert_eq!(p.cursor_x(), 6);
    press(&mut p, "b");
    assert_eq!(p.cursor_x(), 0);
    press(&mut p, "e");
    assert_eq!(p.cursor_x(), 4);
    press(&mut p, "e");
    assert_eq!(p.cursor_x(), 10);
}

#[test]
fn word_motions_stop_at_punctuation() {
    let mut p = pager(&["foo.bar baz", "x"], 80, 24);
    press(&mut p, "k0w");
    assert_eq!(p.cursor_x(), 3);
    press(&mut p, "w");
    assert_eq!(p.cursor_x(), 4);
    press(&mut p, "0W");
    assert_eq!(p.cursor_x(), 8);
}

#[test]
fn w_wraps_to_the_next_line() {
    let mut p = pager(&["one", "  two", "x"], 80, 24);
    press(&mut p, "gg$");
    assert_eq!((p.cursor_x(), p.logical_y()), (2, 0));
    press(&mut p, "w");
    assert_eq!((p.cursor_x(), p.logical_y()), (2, 1));
}

#[test]
fn gg_needs_two_g() {
    let mut p = pager(&["a", "b", "c"], 80, 24);
    press(&mut p, "g");
    assert_eq!(p.logical_y(), 2);
    press(&mut p, "g");
    assert_eq!(p.logical_y(), 0);
}

#[test]
fn visual_selection_and_copy() {
    let mut p = pager(&["hello world", "foo bar"], 80, 24);
    press(&mut p, "k0vll");
    let sel = p.selection().unwrap();
    assert_eq!(sel.start, Vec2::new(0, 0));
    assert_eq!(sel.end, Vec2::new(2, 0));
    let (quit, out) = key(&mut p, Key::Char('y'));
    assert!(quit);
    assert_eq!(copied(&out), Some("hel".to_string()));
    assert_eq!(out.last(), Some(&TermCommand::Flush));
}

#[test]
fn selection_swaps_ends_when_cursor_passes_anchor() {
    let mut p = pager(&["hello world", "foo bar"], 80, 24);
    press(&mut p, "k0llllvhh");
    let sel = p.selection().unwrap();
    assert_eq!(sel.start, Vec2::new(2, 0));
    assert_eq!(sel.end, Vec2::new(4, 0));
    assert_eq!(sel.sel_end, SelectedEnd::Start);
    press(&mut p, "lllll");
    let sel = p.selection().unwrap();
    assert_eq!(sel.start, Vec2::new(4, 0));
    assert_eq!(sel.end, Vec2::new(7, 0));
    assert_eq!(sel.sel_end, SelectedEnd::End);
}

#[test]
fn copy_over_several_lines() {
    let mut p = pager(&["hello world", "foo bar"], 80, 24);
    press(&mut p, "k0wvj");
    let (quit, out) = key(&mut p, Key::Enter);
    assert!(quit);
    assert_eq!(copied(&out), Some("world\nfoo bar\n".to_string()));
}

#[test]
fn copy_of_one_character() {
    let mut p = pager(&["héllo", "x"], 80, 24);
    press(&mut p, "k0lv");
    let (_, out) = key(&mut p, Key::Char('y'));
    assert_eq!(copied(&out), Some("é".to_string()));
}

#[test]
fn copy_without_selection_copies_nothing() {
    let mut p = pager(&["abc"], 80, 24);
    let (quit, out) = key(&mut p, Key::Char('y'));
    assert!(quit);
    assert!(out.is_empty());
}

#[test]
fn copy_ending_on_a_wide_character_copies_it_whole() {
    let mut p = pager(&["aé", "x"], 80, 24);
    press(&mut p, "k0vl");
    let (quit, out) = key(&mut p, Key::Char('y'));
    assert!(quit);
    assert_eq!(copied(&out), Some("aé".to_string()));
}

#[test]
fn escape_drops_selection_then_hides_search() {
    let mut p = pager(&["hello world", "foo bar"], 80, 24);
    press(&mut p, "/o");
    key(&mut p, Key::Enter);
    press(&mut p, "v");
    key(&mut p, Key::Esc);
    assert!(p.selection().is_none());
    assert_eq!(p.current_search().unwrap().state, SearchState::Highlighted);
    key(&mut p, Key::Esc);
    assert_eq!(p.current_search().unwrap().state, SearchState::Hidden);
}

#[test]
fn search_and_navigate_matches() {
    let mut p = pager(&["hello world", "foo bar"], 80, 24);
    press(&mut p, "/o");
    assert_eq!(p.current_search().unwrap().state, SearchState::Typing);
    assert_eq!(p.current_search().unwrap().results.len(), 4);
    key(&mut p, Key::Enter);
    let se = p.current_search().unwrap();
    assert_eq!(se.state, SearchState::Highlighted);
    assert!(se.error.is_none());
    let found: Vec<(usize, usize)> = se.results.iter().map(|r| (r.line_index, r.column_index)).collect();
    assert_eq!(found, vec![(0, 4), (0, 7), (1, 1), (1, 2)]);
    assert_eq!(se.current_result_index, 0);
    assert_eq!((p.cursor_x(), p.logical_y()), (4, 0));
    press(&mut p, "n");
    assert_eq!((p.cursor_x(), p.logical_y()), (7, 0));
    press(&mut p, "n");
    assert_eq!((p.cursor_x(), p.logical_y()), (1, 1));
    press(&mut p, "N");
    assert_eq!((p.cursor_x(), p.logical_y()), (7, 0));
    press(&mut p, "NN");
    assert_eq!((p.cursor_x(), p.logical_y()), (2, 1));
    assert_eq!(p.current_search().unwrap().current_result_index, 3);
    press(&mut p, "n");
    assert_eq!(p.current_search().unwrap().current_result_index, 0);
}

#[test]
fn search_columns_count_characters() {
    let mut p = pager(&["éé x", "y"], 80, 24);
    press(&mut p, "/x");
    key(&mut p, Key::Enter);
    let se = p.current_search().unwrap();
    assert_eq!(se.results[0].column_index, 3);
    assert_eq!((p.cursor_x(), p.logical_y()), (3, 0));
}

#[test]
fn smartcase_search() {
    let mut p = pager(&["Foo foo", "x"], 80, 24);
    press(&mut p, "/foo");
    key(&mut p, Key::Enter);
    assert_eq!(p.current_search().unwrap().results.len(), 2);
    press(&mut p, "/");
    press(&mut p, "Foo");
    key(&mut p, Key::Enter);
    assert_eq!(p.current_search().unwrap().results.len(), 1);
}

#[test]
fn backspace_edits_the_query() {
    let mut p = pager(&["abc", "x"], 80, 24);
    press(&mut p, "/ab");
    key(&mut p, Key::Backspace);
    assert_eq!(p.current_search().unwrap().query, "a");
    key(&mut p, Key::Backspace);
    key(&mut p, Key::Backspace);
    assert_eq!(p.current_search().unwrap().query, "");
}

#[test]
fn search_without_matches_shows_error() {
    let mut p = pager(&["abc", "x"], 80, 24);
    press(&mut p, "/zz");
    let (_, out) = key(&mut p, Key::Enter);
    assert!(out.contains(&TermCommand::Print("Error: could not find any occurrences".to_string())));
    let se = p.current_search().unwrap();
    assert_eq!(se.error.as_deref(), Some("Error: No search results"));
    assert_eq!(se.state, SearchState::Hidden);
    press(&mut p, "n");
    assert_eq!(p.current_search().unwrap().error.as_deref(), Some("Error: No search query"));
}

#[test]
fn empty_and_invalid_queries() {
    let mut p = pager(&["abc", "x"], 80, 24);
    press(&mut p, "/");
    let (_, out) = key(&mut p, Key::Enter);
    assert!(out.contains(&TermCommand::Print("Error: empty search query".to_string())));
    press(&mut p, "/(");
    let (_, out) = key(&mut p, Key::Enter);
    assert!(out.contains(&TermCommand::Print("Error: Invalid regex pattern".to_string())));
}

#[test]
fn stale_match_index_is_refused() {
    let mut p = pager(&["aaaa", "x"], 80, 24);
    press(&mut p, "/a");
    key(&mut p, Key::Enter);
    press(&mut p, "nnn");
    assert_eq!(p.current_search().unwrap().current_result_index, 3);
    press(&mut p, "/x");
    key(&mut p, Key::Esc);
    assert_eq!(p.current_search().unwrap().results.len(), 1);
    assert!(p.key_would_panic(Key::Char('N')));
    assert!(!p.key_would_panic(Key::Char('n')));
}

#[test]
fn quit_key() {
    let mut p = pager(&["abc"], 80, 24);
    let (quit, out) = key(&mut p, Key::Char('q'));
    assert!(quit);
    assert!(out.is_empty());
}

#[test]
fn draw_prints_viewport_and_status_line() {
    let mut p = pager(&["hello world", "foo bar"], 80, 24);
    let mut out = Vec::new();
    p.draw(&mut out);
    let expected = vec![
        TermCommand::SetBackground(Color::Reset),
        TermCommand::SetForeground(Color::Reset),
        TermCommand::ClearAll,
        TermCommand::MoveTo(0, 0),
        TermCommand::Print("hello world".to_string()),
        TermCommand::MoveTo(0, 1),
        TermCommand::Print("foo bar".to_string()),
        TermCommand::MoveTo(0, 24),
        TermCommand::SetBackground(Color::DarkGrey),
        TermCommand::SetForeground(Color::White),
        TermCommand::ClearLine,
        TermCommand::MoveTo(69, 24),
        TermCommand::Print("Ln 1, Col 7".to_string()),
        TermCommand::MoveTo(7, 1),
        TermCommand::Flush,
        TermCommand::Flush,
    ];
    assert_eq!(out, expected);
}

#[test]
fn status_line_shows_counter_and_prompt() {
    let mut p = pager(&["hello world", "foo bar"], 80, 24);
    press(&mut p, "/o");
    key(&mut p, Key::Enter);
    let mut out = Vec::new();
    p.draw_status_line(&mut out);
    assert!(out.contains(&TermCommand::Print("/o".to_string())));
    assert!(out.contains(&TermCommand::Print("[1/4] ".to_string())));
    assert!(out.contains(&TermCommand::Print("Ln 0, Col 4".to_string())));
    assert!(out.contains(&TermCommand::MoveTo(80 - 11 - 6, 24)));
    assert_eq!(out.last(), Some(&TermCommand::Flush));
}

#[test]
fn long_query_becomes_an_error_on_a_small_terminal() {
    let mut p = pager(&["abc", "x"], 10, 4);
    press(&mut p, "/");
    press(&mut p, "aaaaaaaaaaaaaaaaaaaaaaaaaaaaaa");
    let se = p.current_search().unwrap();
    assert_eq!(se.error.as_deref(), Some("Search query too long to display"));
    assert!(!se.long_search);
}

#[test]
fn selection_is_highlighted_on_draw() {
    let mut p = pager(&["hello world", "foo bar"], 80, 24);
    press(&mut p, "k0vl");
    let mut out = Vec::new();
    p.draw(&mut out);
    let at = out.iter().position(|c| *c == TermCommand::SetBackground(Color::Yellow)).unwrap();
    assert_eq!(out[at - 3], TermCommand::MoveTo(0, 0));
    assert_eq!(out[at + 1], TermCommand::Print("he".to_string()));
}

#[test]
fn zero_width_terminal_still_draws() {
    let mut p = pager(&["hello"], 0, 24);
    let mut out = Vec::new();
    p.draw(&mut out);
    assert_eq!(out.last(), Some(&TermCommand::Flush));
}

#[test]
fn o_switches_the_selected_end() {
    let mut p = pager(&["hello world", "foo bar"], 80, 24);
    press(&mut p, "0vlll");
    let sel = p.selection().expect("selection");
    assert_eq!((sel.start, sel.end, sel.sel_end), (Vec2 { x: 0, y: 1 }, Vec2 { x: 3, y: 1 }, SelectedEnd::End));
    press(&mut p, "o");
    let sel = p.selection().expect("selection");
    assert_eq!((sel.start, sel.end, sel.sel_end), (Vec2 { x: 0, y: 1 }, Vec2 { x: 3, y: 1 }, SelectedEnd::Start));
    assert_eq!(p.cursor_x(), 0);
    press(&mut p, "o");
    let sel = p.selection().expect("selection");
    assert_eq!(sel.sel_end, SelectedEnd::End);
    assert_eq!(p.cursor_x(), 3);
}

#[test]
fn arrow_keys_move_like_hjkl() {
    let mut p = pager(&["hello world", "foo bar"], 80, 24);
    key(&mut p, Key::Up);
    assert_eq!((p.logical_y(), p.cursor_x()), (0, 7));
    key(&mut p, Key::Left);
    assert_eq!(p.cursor_x(), 6);
    key(&mut p, Key::Right);
    assert_eq!(p.cursor_x(), 7);
    key(&mut p, Key::Down);
    assert_eq!((p.logical_y(), p.cursor_x()), (1, 6));
}

#[test]
fn cursor_column_counts_display_width() {
    let mut p = pager(&["日本語"], 80, 24);
    let mut out = Vec::new();
    p.draw(&mut out);
    assert_eq!(out[out.len() - 3], TermCommand::MoveTo(6, 0));
    let out = press(&mut p, "h");
    assert!(out.contains(&TermCommand::MoveTo(4, 0)));
}

#[test]
fn copy_keeps_escape_codes_of_whole_lines() {
    let mut p = pager(&["ab", "\u{1b}[31mred\u{1b}[0m", "cd"], 80, 24);
    press(&mut p, "gg0vjj$");
    let (quit, out) = key(&mut p, Key::Char('y'));
    assert!(quit);
    assert_eq!(copied(&out), Some("ab\n\u{1b}[31mred\u{1b}[0m\ncd\n".to_string()));
}

#[test]
fn b_wraps_onto_the_first_line() {
    let mut p = pager(&["ab", "cd"], 80, 24);
    press(&mut p, "0b");
    assert_eq!((p.logical_y(), p.cursor_x()), (0, 0));
}

#[test]
fn e_skips_blanks_before_punctuation() {
    let mut p = pager(&["a b ."], 80, 24);
    press(&mut p, "0ll");
    assert_eq!(p.cursor_x(), 2);
    press(&mut p, "e");
    assert_eq!(p.cursor_x(), 4);
}
