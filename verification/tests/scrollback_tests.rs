use kitty_copy_pager::scrollback::settings::{OptSettings, Settings};
use kitty_copy_pager::scrollback::ScrollbackBuffer;
use kitty_copy_pager::term::{Color, Key, TermCommand};

fn buffer(lines: &[&str], h: u16) -> ScrollbackBuffer {
    let input: Vec<String> = lines.iter().map(|s| s.to_string()).collect();
    ScrollbackBuffer::new(input, h)
}

fn press(b: &mut ScrollbackBuffer, keys: &str) -> Vec<TermCommand> {
    let mut out = Vec::new();
    for c in keys.chars() {
        out.clear();
        assert_eq!(b.handle_key_event(Key::Char(c), &mut out), Some(false));
    }
    out
}

fn print(s: &str) -> TermCommand {
    TermCommand::Print(s.to_string())
}

#[test]
fn scrollback_new_builds_on_any_input() {
    let _empty = ScrollbackBuffer::new(Vec::new(), 10);
    let _no_rows = ScrollbackBuffer::new(vec!["a".to_string()], 0);
    let b = ScrollbackBuffer::new(vec!["a".to_string()], 1);
    let mut out = Vec::new();
    assert!(b.draw(&mut out));
    assert_eq!(out.last(), Some(&TermCommand::Flush));
}

#[test]
fn scrollback_draw_drops_trailing_empty_lines() {
    let b = buffer(&["hello", "world", "", ""], 10);
    let mut out = Vec::new();
    assert!(b.draw(&mut out));
    assert_eq!(
        out,
        vec![
            TermCommand::ClearAll,
            TermCommand::MoveTo(0, 0),
            print("hello"),
            TermCommand::MoveTo(0, 1),
            print("world"),
            TermCommand::MoveTo(5, 1),
            TermCommand::Flush,
        ]
    );
}

#[test]
fn scrollback_draw_strips_escape_codes_from_selection_only() {
    let mut b = buffer(&["\u{1b}[31mred\u{1b}[0m"], 10);
    let out = press(&mut b, "0vl");
    assert_eq!(
        out,
        vec![
            TermCommand::ClearAll,
            TermCommand::MoveTo(0, 0),
            print("\u{1b}[31mred\u{1b}[0m"),
            TermCommand::MoveTo(0, 0),
            TermCommand::SetForeground(Color::Black),
            TermCommand::SetBackground(Color::Yellow),
            print("re"),
            TermCommand::SetForeground(Color::Reset),
            TermCommand::SetBackground(Color::Reset),
            TermCommand::MoveTo(1, 0),
            TermCommand::Flush,
        ]
    );
}

#[test]
fn scrollback_h_moves_the_cursor_only() {
    let mut b = buffer(&["hello", "world"], 10);
    let out = press(&mut b, "h");
    assert_eq!(out, vec![TermCommand::MoveTo(4, 1), TermCommand::Flush]);
}

#[test]
fn scrollback_k_keeps_the_wished_column_within_the_line() {
    let mut b = buffer(&["hello", "world"], 10);
    let out = press(&mut b, "k");
    assert_eq!(
        out,
        vec![
            TermCommand::ClearAll,
            TermCommand::MoveTo(0, 0),
            print("hello"),
            TermCommand::MoveTo(0, 1),
            print("world"),
            TermCommand::MoveTo(4, 0),
            TermCommand::Flush,
        ]
    );
}

#[test]
fn scrollback_q_quits_without_drawing() {
    let mut b = buffer(&["hello"], 10);
    let mut out = Vec::new();
    assert_eq!(b.handle_key_event(Key::Char('q'), &mut out), Some(true));
    assert!(out.is_empty());
}

#[test]
fn scrollback_word_motions() {
    let mut b = buffer(&["foo bar"], 10);
    press(&mut b, "0");
    assert_eq!(press(&mut b, "w"), vec![TermCommand::MoveTo(4, 0), TermCommand::Flush]);
    assert_eq!(press(&mut b, "b"), vec![TermCommand::MoveTo(0, 0), TermCommand::Flush]);
    assert_eq!(press(&mut b, "e"), vec![TermCommand::MoveTo(2, 0), TermCommand::Flush]);
    let out = press(&mut b, "$");
    assert_eq!(out[0], TermCommand::ClearAll);
    assert_eq!(out[out.len() - 2..], [TermCommand::MoveTo(6, 0), TermCommand::Flush]);
}

#[test]
fn scrollback_w_at_line_end_goes_to_next_line() {
    let mut b = buffer(&["ab", "cd"], 10);
    press(&mut b, "k$");
    let out = press(&mut b, "w");
    assert_eq!(out.last(), Some(&TermCommand::Flush));
    assert_eq!(out[out.len() - 2], TermCommand::MoveTo(0, 1));
}

#[test]
fn scrollback_gg_goes_to_the_first_line() {
    let mut b = buffer(&["one", "two", "three"], 10);
    press(&mut b, "g");
    let out = press(&mut b, "g");
    assert_eq!(out[0], TermCommand::ClearAll);
    assert_eq!(out[out.len() - 2..], [TermCommand::MoveTo(2, 0), TermCommand::Flush]);
}

#[test]
fn scrollback_copy_one_character() {
    let mut b = buffer(&["hello", "world"], 10);
    press(&mut b, "vh");
    let mut out = Vec::new();
    assert_eq!(b.handle_key_event(Key::Char('y'), &mut out), Some(true));
    assert_eq!(out, vec![TermCommand::CopyToClipboard("d".to_string()), TermCommand::Flush]);
}

#[test]
fn scrollback_copy_over_two_lines() {
    let mut b = buffer(&["", "a"], 10);
    press(&mut b, "vk");
    let mut out = Vec::new();
    assert_eq!(b.handle_key_event(Key::Enter, &mut out), Some(true));
    assert_eq!(out, vec![TermCommand::CopyToClipboard("\na\n".to_string()), TermCommand::Flush]);
}

#[test]
fn scrollback_copy_keeps_the_end_column_of_the_last_line() {
    let mut b = buffer(&["abc", "xyz"], 10);
    press(&mut b, "k0vj$");
    let mut out = Vec::new();
    assert_eq!(b.handle_key_event(Key::Char('y'), &mut out), Some(true));
    assert_eq!(out, vec![TermCommand::CopyToClipboard("abc\nxyz\n".to_string()), TermCommand::Flush]);
}

#[test]
fn scrollback_copy_last_line_up_to_the_end_column() {
    let mut b = buffer(&["abc", "def"], 10);
    press(&mut b, "k0vjll");
    let mut out = Vec::new();
    assert_eq!(b.handle_key_event(Key::Char('y'), &mut out), Some(true));
    assert_eq!(out, vec![TermCommand::CopyToClipboard("abc\ndef\n".to_string()), TermCommand::Flush]);
}

#[test]
fn scrollback_big_w_stops_at_a_punctuation_word() {
    let mut b = buffer(&["foo .bar"], 10);
    press(&mut b, "0");
    assert_eq!(press(&mut b, "W"), vec![TermCommand::MoveTo(4, 0), TermCommand::Flush]);
}

#[test]
fn scrollback_b_skips_a_punctuation_run() {
    let mut b = buffer(&["a ---"], 10);
    press(&mut b, "$");
    assert_eq!(press(&mut b, "b"), vec![TermCommand::MoveTo(2, 0), TermCommand::Flush]);
}

#[test]
fn scrollback_b_wraps_onto_the_first_line() {
    let mut b = buffer(&["ab", "cd"], 10);
    press(&mut b, "0");
    let out = press(&mut b, "b");
    assert_eq!(out[out.len() - 2..], [TermCommand::MoveTo(1, 0), TermCommand::Flush]);
}

#[test]
fn scrollback_copy_on_empty_line_copies_nothing() {
    let mut b = buffer(&["", "x"], 10);
    press(&mut b, "kv");
    let mut out = Vec::new();
    assert_eq!(b.handle_key_event(Key::Char('y'), &mut out), Some(true));
    assert_eq!(out, vec![TermCommand::CopyToClipboard(String::new()), TermCommand::Flush]);
}

#[test]
fn scrollback_copy_ending_in_wide_character_copies_it_whole() {
    let mut b = buffer(&["ab", "\u{e9}"], 10);
    press(&mut b, "kvj");
    let mut out = Vec::new();
    assert_eq!(b.handle_key_event(Key::Char('y'), &mut out), Some(true));
    assert_eq!(out, vec![TermCommand::CopyToClipboard("b\n\u{e9}\n".to_string()), TermCommand::Flush]);
}

#[test]
fn scrollback_selection_from_above_the_viewport_fails_to_draw() {
    let lines: Vec<String> = (0..30).map(|i| format!("l{}", i)).collect();
    let mut b = ScrollbackBuffer::new(lines, 10);
    press(&mut b, "ggvjjjjj");
    let mut out = Vec::new();
    assert_eq!(b.handle_key_event(Key::Char('j'), &mut out), None);
}

#[test]
fn scrollback_escape_drops_the_selection() {
    let mut b = buffer(&["hello", "world"], 10);
    press(&mut b, "v");
    let mut out = Vec::new();
    assert_eq!(b.handle_key_event(Key::Esc, &mut out), Some(false));
    assert_eq!(
        out,
        vec![
            TermCommand::ClearAll,
            TermCommand::MoveTo(0, 0),
            print("hello"),
            TermCommand::MoveTo(0, 1),
            print("world"),
            TermCommand::MoveTo(5, 1),
            TermCommand::Flush,
        ]
    );
}

#[test]
fn scrollback_settings_defaults() {
    let s = Settings::new();
    assert_eq!(s.prompt_cursor_offset, 1);
    assert_eq!(s.scrolloff, 4);
    assert_eq!(s.scroll_jump, 10);
    assert_eq!(s.tab_width, 8);
    assert_eq!(s.status_line_bg_color, Color::DarkGrey);
    assert_eq!(s.status_line_fg_color, Color::White);
    assert_eq!(s.search_error_fg_color, Color::Red);
    assert_eq!(s.selection_bg_color, Color::Yellow);
    assert_eq!(s.selection_fg_color, Color::Black);
    assert_eq!(s.search_highlight_bg_color, Color::Blue);
    assert_eq!(s.search_highlight_fg_color, Color::Black);
    assert!(s.real_time_search);
    assert!(s.smartcase_search);
}

#[test]
fn scrollback_settings_from_opt_overrides_given_values() {
    let opt = OptSettings {
        prompt_cursor_offset: None,
        scrolloff: Some(2),
        scroll_jump: None,
        tab_width: Some(4),
        status_line_bg_color: Some(Color::Green),
        status_line_fg_color: None,
        search_error_fg_color: None,
        selection_bg_color: None,
        selection_fg_color: Some(Color::Rgb { r: 1, g: 2, b: 3 }),
        search_highlight_bg_color: None,
        search_highlight_fg_color: None,
        real_time_search: Some(false),
        smartcase_search: None,
    };
    let s = Settings::from_opt(opt);
    assert_eq!(s.prompt_cursor_offset, 1);
    assert_eq!(s.scrolloff, 2);
    assert_eq!(s.scroll_jump, 10);
    assert_eq!(s.tab_width, 4);
    assert_eq!(s.status_line_bg_color, Color::Green);
    assert_eq!(s.status_line_fg_color, Color::White);
    assert_eq!(s.selection_fg_color, Color::Rgb { r: 1, g: 2, b: 3 });
    assert_eq!(s.selection_bg_color, Color::Yellow);
    assert!(!s.real_time_search);
    assert!(s.smartcase_search);
}
