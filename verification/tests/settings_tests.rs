use kitty_copy_pager::settings::{parse_color, Args, ColorArg, Settings, SCROLL_JUMP};
use kitty_copy_pager::term::Color;

fn parsed(s: &str) -> Result<ColorArg, String> {
    parse_color(s).expect("no slicing failure")
}

#[test]
fn color_names_in_any_case() {
    assert_eq!(parsed("red"), Ok(ColorArg(Color::Red)));
    assert_eq!(parsed("RED"), Ok(ColorArg(Color::Red)));
    assert_eq!(parsed("Gray"), Ok(ColorArg(Color::Grey)));
    assert_eq!(parsed("darkgray"), Ok(ColorArg(Color::DarkGrey)));
    assert_eq!(parsed("DarkMagenta"), Ok(ColorArg(Color::DarkMagenta)));
}

#[test]
fn ansi_colors() {
    assert_eq!(parsed("ansi:200"), Ok(ColorArg(Color::AnsiValue(200))));
    assert_eq!(parsed("ansi:+7"), Ok(ColorArg(Color::AnsiValue(7))));
    assert_eq!(parsed("ansi:300"), Err("Invalid ANSI color index: '300'".to_string()));
    assert_eq!(parsed("ansi:"), Err("Invalid ANSI color index: ''".to_string()));
}

#[test]
fn hex_colors() {
    assert_eq!(parsed("#ff0080"), Ok(ColorArg(Color::Rgb { r: 255, g: 0, b: 128 })));
    assert_eq!(parsed("#FF0080"), Ok(ColorArg(Color::Rgb { r: 255, g: 0, b: 128 })));
    assert_eq!(parsed("#gg0000"), Err("Invalid hex color: '#gg0000'".to_string()));
    assert_eq!(parsed("#fff"), Err("Unknown color '#fff'. Try: red, blue, #ff0000, rgb:255,0,0, ansi:200".to_string()));
}

#[test]
fn hex_color_cut_inside_a_character_is_refused() {
    assert_eq!(parse_color("#a\u{20ac}12"), None);
}

#[test]
fn rgb_colors() {
    assert_eq!(parsed("rgb:255, 0,128"), Ok(ColorArg(Color::Rgb { r: 255, g: 0, b: 128 })));
    assert_eq!(parsed("rgb:1,2"), Err("Expected rgb:R,G,B, got: 'rgb:1,2'".to_string()));
    assert_eq!(parsed("rgb:1, x ,3"), Err("Invalid RGB component: ' x '".to_string()));
    assert_eq!(parsed("rgb:1,2,256"), Err("Invalid RGB component: '256'".to_string()));
}

#[test]
fn unknown_color() {
    assert_eq!(
        parsed("Purple"),
        Err("Unknown color 'Purple'. Try: red, blue, #ff0000, rgb:255,0,0, ansi:200".to_string())
    );
    assert_eq!(
        parsed("purple"),
        Err("Unknown color 'purple'. Try: red, blue, #ff0000, rgb:255,0,0, ansi:200".to_string())
    );
}

#[test]
fn color_text() {
    assert_eq!(ColorArg(Color::Rgb { r: 255, g: 0, b: 128 }).to_text(), "#ff0080");
    assert_eq!(ColorArg(Color::AnsiValue(7)).to_text(), "ansi:7");
    assert_eq!(ColorArg(Color::DarkGrey).to_text(), "darkgrey");
    assert_eq!(ColorArg(Color::Reset).to_text(), "ColorArg(Reset)");
}

#[test]
fn color_text_parses_back() {
    let colors = [
        Color::Black, Color::Red, Color::Green, Color::Yellow, Color::Blue, Color::Magenta,
        Color::Cyan, Color::White, Color::Grey, Color::DarkRed, Color::DarkGreen,
        Color::DarkYellow, Color::DarkBlue, Color::DarkMagenta, Color::DarkCyan, Color::DarkGrey,
        Color::Rgb { r: 1, g: 171, b: 255 }, Color::AnsiValue(0), Color::AnsiValue(255),
    ];
    for c in colors {
        assert_eq!(parsed(&ColorArg(c).to_text()), Ok(ColorArg(c)));
    }
}

#[test]
fn settings_from_args() {
    let args = Args {
        prompt_cursor_offset: 2,
        scrolloff: 3,
        tab_width: 4,
        status_line_bg_color: ColorArg(Color::Blue),
        status_line_fg_color: ColorArg(Color::Red),
        search_error_fg_color: ColorArg(Color::Green),
        selection_bg_color: ColorArg(Color::Cyan),
        selection_fg_color: ColorArg(Color::White),
        search_highlight_bg_color: ColorArg(Color::AnsiValue(3)),
        search_highlight_fg_color: ColorArg(Color::Rgb { r: 1, g: 2, b: 3 }),
        disable_real_time_search: true,
        disable_smartcase_search: false,
    };
    let s = Settings::from_args(args);
    assert_eq!(s.prompt_cursor_offset, 2);
    assert_eq!(s.scrolloff, 3);
    assert_eq!(s.scroll_jump, SCROLL_JUMP);
    assert_eq!(s.tab_width, 4);
    assert_eq!(s.status_line_bg_color, Color::Blue);
    assert_eq!(s.search_highlight_fg_color, Color::Rgb { r: 1, g: 2, b: 3 });
    assert!(!s.real_time_search);
    assert!(s.smartcase_search);
    assert_eq!(Color::from(ColorArg(Color::Red)), Color::Red);
}
