use kitty_copy_pager::selection::{SelectedEnd, Selection, Vec2};
use kitty_copy_pager::utils::{first_non_whitespace_idx_on, get_utf_index, VimCharExt};
use kitty_copy_pager::pager::Line;

#[test]
fn utf_index_counts_bytes_of_previous_chars() {
    assert_eq!(get_utf_index("héllo", 2), 3);
    assert_eq!(get_utf_index("héllo", 0), 0);
    assert_eq!(get_utf_index("abc", 5), 3);
    assert_eq!(get_utf_index("", 0), 0);
    assert_eq!(get_utf_index("日本語", 2), 6);
}

#[test]
fn first_non_whitespace_index() {
    assert_eq!(first_non_whitespace_idx_on("  \tab"), Some(3));
    assert_eq!(first_non_whitespace_idx_on("x"), Some(0));
    assert_eq!(first_non_whitespace_idx_on("   "), None);
    assert_eq!(first_non_whitespace_idx_on(""), None);
    assert_eq!(first_non_whitespace_idx_on("\u{3000}é"), Some(1));
}

#[test]
fn vim_punctuation_is_ascii_punctuation() {
    assert!('.'.is_vim_punctuation());
    assert!('~'.is_vim_punctuation());
    assert!('_'.is_vim_punctuation());
    assert!(!'a'.is_vim_punctuation());
    assert!(!' '.is_vim_punctuation());
    assert!(!'é'.is_vim_punctuation());
}

#[test]
fn selection_constructors() {
    let s = Selection::with_coords(1, 2, 3, 4);
    assert_eq!(s.start, Vec2::new(1, 2));
    assert_eq!(s.end, Vec2::new(3, 4));
    assert_eq!(s.sel_end, SelectedEnd::End);
    let t = Selection::new(Vec2::new(5, 6), Vec2::new(7, 8));
    assert_eq!(t.start, Vec2 { x: 5, y: 6 });
    assert_eq!(t.end, Vec2 { x: 7, y: 8 });
    assert_eq!(t.sel_end, SelectedEnd::End);
}

#[test]
fn swap_ends_moves_the_other_end() {
    let mut s = Selection::with_coords(1, 0, 5, 0);
    s.swap_ends_to(0, 0);
    assert_eq!(s.start, Vec2::new(0, 0));
    assert_eq!(s.end, Vec2::new(1, 0));
    assert_eq!(s.sel_end, SelectedEnd::End);
    let mut t = Selection::with_coords(1, 0, 5, 0);
    t.sel_end = SelectedEnd::Start;
    t.swap_ends_to(9, 2);
    assert_eq!(t.start, Vec2::new(5, 0));
    assert_eq!(t.end, Vec2::new(9, 2));
    assert_eq!(t.sel_end, SelectedEnd::Start);
}

#[test]
fn clean_line_is_kept_once() {
    let l = Line::new("plain text".to_string());
    assert!(matches!(l, Line::Clean(_)));
    assert_eq!(l.display(), "plain text");
    assert_eq!(l.raw(), "plain text");
    assert_eq!(l.len(), 10);
    assert!(!l.is_empty());
}

#[test]
fn ansi_line_keeps_both_texts() {
    let raw = "\u{1b}[31mred\u{1b}[0m é".to_string();
    let l = Line::new(raw.clone());
    assert!(matches!(l, Line::Ansi { .. }));
    assert_eq!(l.display(), "red é");
    assert_eq!(l.raw(), raw.as_str());
    assert_eq!(l.len(), 6);
    let e = Line::new(String::new());
    assert!(e.is_empty());
    assert_eq!(e.len(), 0);
}

#[test]
fn utf_index_grows_and_counts_the_characters_before_it() {
    let line = "a\u{e9}\u{65e5}b";
    let idx: Vec<usize> = (0..6).map(|k| get_utf_index(line, k)).collect();
    assert_eq!(idx, vec![0, 1, 3, 6, 7, 7]);
    for (k, i) in idx.iter().enumerate() {
        assert_eq!(line[..*i].chars().count(), k.min(4));
    }
}
