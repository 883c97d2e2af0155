//! Settings of the scrollback buffer: defaults, and defaults overridden by
//! the settings that are given.
use vstd::prelude::*;
use crate::term::Color;

verus! {

/// Columns between the end of the last line and the initial cursor.
pub const PROMPT_CURSOR_OFFSET: usize = 1;

/// Lines kept visible above and below the cursor.
pub const SCROLLOFF: usize = 4;

/// Lines moved by `d` and `u`.
pub const SCROLL_JUMP: usize = 10;

/// Spaces that replace a tab.
pub const TAB_WIDTH: usize = 8;

/// Whether the search runs while it is typed.
pub const REAL_TIME_SEARCH: bool = true;

/// Whether a query without capitals ignores case.
pub const SMARTCASE_SEARCH: bool = true;

pub const STATUS_LINE_BG_COLOR: Color = Color::DarkGrey;

pub const STATUS_LINE_FG_COLOR: Color = Color::White;

pub const SEARCH_ERROR_FG_COLOR: Color = Color::Red;

pub const SELECTION_BG_COLOR: Color = Color::Yellow;

pub const SELECTION_FG_COLOR: Color = Color::Black;

pub const SEARCH_HIGHLIGHT_BG_COLOR: Color = Color::Blue;

pub const SEARCH_HIGHLIGHT_FG_COLOR: Color = Color::Black;

/// Everything the scrollback buffer can be configured with.
#[derive(Clone, Copy, Debug)]
pub struct Settings {
    pub prompt_cursor_offset: usize,
    pub scrolloff: usize,
    pub scroll_jump: usize,
    pub tab_width: usize,
    pub status_line_bg_color: Color,
    pub status_line_fg_color: Color,
    pub search_error_fg_color: Color,
    pub selection_bg_color: Color,
    pub selection_fg_color: Color,
    pub search_highlight_bg_color: Color,
    pub search_highlight_fg_color: Color,
    pub real_time_search: bool,
    pub smartcase_search: bool,
}

/// Settings of which any may be left out.
#[derive(Clone, Copy, Debug)]
pub struct OptSettings {
    pub prompt_cursor_offset: Option<usize>,
    pub scrolloff: Option<usize>,
    pub scroll_jump: Option<usize>,
    pub tab_width: Option<usize>,
    pub status_line_bg_color: Option<Color>,
    pub status_line_fg_color: Option<Color>,
    pub search_error_fg_color: Option<Color>,
    pub selection_bg_color: Option<Color>,
    pub selection_fg_color: Option<Color>,
    pub search_highlight_bg_color: Option<Color>,
    pub search_highlight_fg_color: Option<Color>,
    pub real_time_search: Option<bool>,
    pub smartcase_search: Option<bool>,
}

/// The default settings.
pub open spec fn default_settings() -> Settings {
    Settings {
        prompt_cursor_offset: PROMPT_CURSOR_OFFSET,
        scrolloff: SCROLLOFF,
        scroll_jump: SCROLL_JUMP,
        tab_width: TAB_WIDTH,
        status_line_bg_color: STATUS_LINE_BG_COLOR,
        status_line_fg_color: STATUS_LINE_FG_COLOR,
        search_error_fg_color: SEARCH_ERROR_FG_COLOR,
        selection_bg_color: SELECTION_BG_COLOR,
        selection_fg_color: SELECTION_FG_COLOR,
        search_highlight_bg_color: SEARCH_HIGHLIGHT_BG_COLOR,
        search_highlight_fg_color: SEARCH_HIGHLIGHT_FG_COLOR,
        real_time_search: REAL_TIME_SEARCH,
        smartcase_search: SMARTCASE_SEARCH,
    }
}

/// The value given, or the default.
pub open spec fn given_or<T>(o: Option<T>, d: T) -> T {
    match o {
        Some(v) => v,
        None => d,
    }
}

/// The settings given by `opt`, each one left out taken from the defaults.
pub open spec fn merged(opt: OptSettings) -> Settings {
    let d = default_settings();
    Settings {
        prompt_cursor_offset: given_or(opt.prompt_cursor_offset, d.prompt_cursor_offset),
        scrolloff: given_or(opt.scrolloff, d.scrolloff),
        scroll_jump: given_or(opt.scroll_jump, d.scroll_jump),
        tab_width: given_or(opt.tab_width, d.tab_width),
        status_line_bg_color: given_or(opt.status_line_bg_color, d.status_line_bg_color),
        status_line_fg_color: given_or(opt.status_line_fg_color, d.status_line_fg_color),
        search_error_fg_color: given_or(opt.search_error_fg_color, d.search_error_fg_color),
        selection_bg_color: given_or(opt.selection_bg_color, d.selection_bg_color),
        selection_fg_color: given_or(opt.selection_fg_color, d.selection_fg_color),
        search_highlight_bg_color: given_or(opt.search_highlight_bg_color, d.search_highlight_bg_color),
        search_highlight_fg_color: given_or(opt.search_highlight_fg_color, d.search_highlight_fg_color),
        real_time_search: given_or(opt.real_time_search, d.real_time_search),
        smartcase_search: given_or(opt.smartcase_search, d.smartcase_search),
    }
}

impl Settings {
    /// The default settings.
    pub fn new() -> (s: Self)
        ensures
            s == default_settings(),
    {
        Settings {
            prompt_cursor_offset: PROMPT_CURSOR_OFFSET,
            scrolloff: SCROLLOFF,
            scroll_jump: SCROLL_JUMP,
            tab_width: TAB_WIDTH,
            status_line_bg_color: STATUS_LINE_BG_COLOR,
            status_line_fg_color: STATUS_LINE_FG_COLOR,
            search_error_fg_color: SEARCH_ERROR_FG_COLOR,
            selection_bg_color: SELECTION_BG_COLOR,
            selection_fg_color: SELECTION_FG_COLOR,
            search_highlight_bg_color: SEARCH_HIGHLIGHT_BG_COLOR,
            search_highlight_fg_color: SEARCH_HIGHLIGHT_FG_COLOR,
            real_time_search: REAL_TIME_SEARCH,
            smartcase_search: SMARTCASE_SEARCH,
        }
    }

    /// The settings given by `opt`, the defaults for those left out.
    pub fn from_opt(opt: OptSettings) -> (s: Self)
        ensures
            s == merged(opt),
    {
        let default = Self::new();
        Settings {
            prompt_cursor_offset: opt.prompt_cursor_offset.unwrap_or(default.prompt_cursor_offset),
            scrolloff: opt.scrolloff.unwrap_or(default.scrolloff),
            scroll_jump: opt.scroll_jump.unwrap_or(default.scroll_jump),
            tab_width: opt.tab_width.unwrap_or(default.tab_width),
            status_line_bg_color: opt.status_line_bg_color.unwrap_or(default.status_line_bg_color),
            status_line_fg_color: opt.status_line_fg_color.unwrap_or(default.status_line_fg_color),
            search_error_fg_color: opt.search_error_fg_color.unwrap_or(default.search_error_fg_color),
            selection_bg_color: opt.selection_bg_color.unwrap_or(default.selection_bg_color),
            selection_fg_color: opt.selection_fg_color.unwrap_or(default.selection_fg_color),
            search_highlight_bg_color: opt.search_highlight_bg_color.unwrap_or(
                default.search_highlight_bg_color,
            ),
            search_highlight_fg_color: opt.search_highlight_fg_color.unwrap_or(
                default.search_highlight_fg_color,
            ),
            real_time_search: opt.real_time_search.unwrap_or(default.real_time_search),
            smartcase_search: opt.smartcase_search.unwrap_or(default.smartcase_search),
        }
    }
}

/// Leaving every setting out gives the defaults, and giving every setting
/// gives exactly those settings.
pub proof fn lemma_from_opt_defaults(opt: OptSettings, given: Settings)
    ensures
        opt == (OptSettings {
            prompt_cursor_offset: None,
            scrolloff: None,
            scroll_jump: None,
            tab_width: None,
            status_line_bg_color: None,
            status_line_fg_color: None,
            search_error_fg_color: None,
            selection_bg_color: None,
            selection_fg_color: None,
            search_highlight_bg_color: None,
            search_highlight_fg_color: None,
            real_time_search: None,
            smartcase_search: None,
        }) ==> merged(opt) == default_settings(),
        opt == (OptSettings {
            prompt_cursor_offset: Some(given.prompt_cursor_offset),
            scrolloff: Some(given.scrolloff),
            scroll_jump: Some(given.scroll_jump),
            tab_width: Some(given.tab_width),
            status_line_bg_color: Some(given.status_line_bg_color),
            status_line_fg_color: Some(given.status_line_fg_color),
            search_error_fg_color: Some(given.search_error_fg_color),
            selection_bg_color: Some(given.selection_bg_color),
            selection_fg_color: Some(given.selection_fg_color),
            search_highlight_bg_color: Some(given.search_highlight_bg_color),
            search_highlight_fg_color: Some(given.search_highlight_fg_color),
            real_time_search: Some(given.real_time_search),
            smartcase_search: Some(given.smartcase_search),
        }) ==> merged(opt) == given,
{
}

} // verus!
