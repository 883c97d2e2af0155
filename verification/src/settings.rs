//! Settings of the pager and the command-line arguments they come from.
use vstd::prelude::*;
use vstd::utf8::is_ascii_chars;
use crate::term::Color;
use crate::text::{is_boundary, lemma_chars_before_byte_monotone, byte_len, byte_offset, char_len_utf8, chars_before_byte, chars_of, decimal, digit_char, lemma_byte_offset_bound, lemma_byte_offset_step, push_char, push_chars, push_decimal, push_str, string_from_chars, string_of, utf8_len};
use crate::pager::search::column_of_byte;
use crate::utils::{is_whitespace, is_whitespace_char};

verus! {

/// Columns between the end of the last line and the initial cursor.
pub const PROMPT_CURSOR_OFFSET: usize = 1;

/// Lines kept visible above and below the cursor.
pub const SCROLLOFF: usize = 4;

/// Lines moved by `d` and `u`.
pub const SCROLL_JUMP: usize = 10;

/// Spaces that replace a tab.
pub const TAB_WIDTH: usize = 8;

pub const STATUS_LINE_BG_COLOR: Color = Color::DarkGrey;

pub const STATUS_LINE_FG_COLOR: Color = Color::White;

pub const SEARCH_ERROR_FG_COLOR: Color = Color::Red;

pub const SELECTION_BG_COLOR: Color = Color::Yellow;

pub const SELECTION_FG_COLOR: Color = Color::Black;

pub const SEARCH_HIGHLIGHT_BG_COLOR: Color = Color::Blue;

pub const SEARCH_HIGHLIGHT_FG_COLOR: Color = Color::Black;

/// Everything the pager can be configured with.
#[derive(Clone, Copy, Debug)]
pub struct Settings {
    pub prompt_cursor_offset: usize,
    pub scrolloff: usize,
    pub scroll_jump: usize,
    pub tab_width: usize,
    pub status_line_bg_color: Color,
    pub status_line_fg_color: Color,
    pub search_error_fg_color: Color,
    pub selection_bg_color: Color,
    pub selection_fg_color: Color,
    pub search_highlight_bg_color: Color,
    pub search_highlight_fg_color: Color,
    pub real_time_search: bool,
    pub smartcase_search: bool,
}

/// Default `real_time_search`.
pub const REAL_TIME_SEARCH: bool = true;

/// Default `smartcase_search`.
pub const SMARTCASE_SEARCH: bool = true;

/// A color given on the command line.
#[derive(Clone, Copy, Debug, PartialEq, Eq, Structural)]
pub struct ColorArg(pub Color);

impl From<ColorArg> for Color {
    fn from(c: ColorArg) -> (r: Color) {
        c.0
    }
}

impl vstd::std_specs::convert::FromSpecImpl<ColorArg> for Color {
    open spec fn obeys_from_spec() -> bool {
        true
    }

    open spec fn from_spec(c: ColorArg) -> Color {
        c.0
    }
}

/// The command-line arguments.
#[derive(Clone, Copy, Debug)]
pub struct Args {
    pub prompt_cursor_offset: usize,
    pub scrolloff: usize,
    pub tab_width: usize,
    pub status_line_bg_color: ColorArg,
    pub status_line_fg_color: ColorArg,
    pub search_error_fg_color: ColorArg,
    pub selection_bg_color: ColorArg,
    pub selection_fg_color: ColorArg,
    pub search_highlight_bg_color: ColorArg,
    pub search_highlight_fg_color: ColorArg,
    pub disable_real_time_search: bool,
    pub disable_smartcase_search: bool,
}

impl Settings {
    /// The settings that the arguments give; `scroll_jump` is the default.
    pub fn from_args(args: Args) -> (s: Self)
        ensures
            s.prompt_cursor_offset == args.prompt_cursor_offset,
            s.scrolloff == args.scrolloff,
            s.scroll_jump == SCROLL_JUMP,
            s.tab_width == args.tab_width,
            s.status_line_bg_color == args.status_line_bg_color.0,
            s.status_line_fg_color == args.status_line_fg_color.0,
            s.search_error_fg_color == args.search_error_fg_color.0,
            s.selection_bg_color == args.selection_bg_color.0,
            s.selection_fg_color == args.selection_fg_color.0,
            s.search_highlight_bg_color == args.search_highlight_bg_color.0,
            s.search_highlight_fg_color == args.search_highlight_fg_color.0,
            s.real_time_search == !args.disable_real_time_search,
            s.smartcase_search == !args.disable_smartcase_search,
    {
        Settings {
            prompt_cursor_offset: args.prompt_cursor_offset,
            scrolloff: args.scrolloff,
            scroll_jump: SCROLL_JUMP,
            tab_width: args.tab_width,
            status_line_bg_color: Color::from(args.status_line_bg_color),
            status_line_fg_color: Color::from(args.status_line_fg_color),
            search_error_fg_color: Color::from(args.search_error_fg_color),
            selection_bg_color: Color::from(args.selection_bg_color),
            selection_fg_color: Color::from(args.selection_fg_color),
            search_highlight_bg_color: Color::from(args.search_highlight_bg_color),
            search_highlight_fg_color: Color::from(args.search_highlight_fg_color),
            real_time_search: !args.disable_real_time_search,
            smartcase_search: !args.disable_smartcase_search,
        }
    }
}

/// Characters that `str::to_lowercase` gives for a text.
pub uninterp spec fn lowercase(s: Seq<char>) -> Seq<char>;

/// ASCII lowercase of one character.
pub open spec fn ascii_lower_char(c: char) -> char {
    if 'A' <= c <= 'Z' {
        ((c as u32) + 32) as char
    } else {
        c
    }
}

/// `str::to_lowercase`: the text in lowercase, by the Unicode lowercase
/// mapping. Its value is named; on ASCII text the mapping is the ASCII one.
#[verifier::external_body]
pub(crate) fn to_lowercase(s: &str) -> (r: String)
    ensures
        r@ == lowercase(s@),
        is_ascii_chars(s@) ==> r@ == s@.map_values(|c: char| ascii_lower_char(c)),
{
    s.to_lowercase()
}

/// The color of a color name, if it is one.
pub open spec fn named_color(t: Seq<char>) -> Option<Color> {
    if t == "black"@ {
        Some(Color::Black)
    } else if t == "red"@ {
        Some(Color::Red)
    } else if t == "green"@ {
        Some(Color::Green)
    } else if t == "yellow"@ {
        Some(Color::Yellow)
    } else if t == "blue"@ {
        Some(Color::Blue)
    } else if t == "magenta"@ {
        Some(Color::Magenta)
    } else if t == "cyan"@ {
        Some(Color::Cyan)
    } else if t == "white"@ {
        Some(Color::White)
    } else if t == "grey"@ || t == "gray"@ {
        Some(Color::Grey)
    } else if t == "darkred"@ {
        Some(Color::DarkRed)
    } else if t == "darkgreen"@ {
        Some(Color::DarkGreen)
    } else if t == "darkyellow"@ {
        Some(Color::DarkYellow)
    } else if t == "darkblue"@ {
        Some(Color::DarkBlue)
    } else if t == "darkmagenta"@ {
        Some(Color::DarkMagenta)
    } else if t == "darkcyan"@ {
        Some(Color::DarkCyan)
    } else if t == "darkgrey"@ || t == "darkgray"@ {
        Some(Color::DarkGrey)
    } else {
        None
    }
}

/// Value of digit `c` in base `radix`, if it is one.
pub open spec fn digit_value(c: char, radix: nat) -> Option<nat> {
    let u = c as u32;
    let v: int = if 0x30 <= u <= 0x39 {
        u - 0x30
    } else if 0x61 <= u <= 0x7a {
        u - 0x61 + 10
    } else if 0x41 <= u <= 0x5a {
        u - 0x41 + 10
    } else {
        99
    };
    if v < radix {
        Some(v as nat)
    } else {
        None
    }
}

/// Value of the digits `ds` in base `radix`, if they all are digits.
pub open spec fn digits_value(ds: Seq<char>, radix: nat) -> Option<nat>
    decreases ds.len(),
{
    if ds.len() == 0 {
        Some(0)
    } else {
        match (digits_value(ds.drop_last(), radix), digit_value(ds.last(), radix)) {
            (Some(h), Some(d)) => Some(h * radix + d),
            _ => None,
        }
    }
}

/// `u8::from_str_radix` and `str::parse::<u8>`: an optional `+`, then at
/// least one digit, with a value that fits in a byte.
pub open spec fn parse_u8(t: Seq<char>, radix: nat) -> Option<u8> {
    let ds = if t.len() > 0 && t[0] == '+' {
        t.drop_first()
    } else {
        t
    };
    if ds.len() == 0 {
        None
    } else {
        match digits_value(ds, radix) {
            Some(v) => if v <= 255 {
                Some(v as u8)
            } else {
                None
            },
            None => None,
        }
    }
}

/// Parses a byte written in base `radix` (10 or 16).
pub fn parse_u8_radix(t: &Vec<char>, from: usize, to: usize, radix: u32) -> (r: Option<u8>)
    requires
        from <= to <= t.len(),
        radix == 10 || radix == 16,
    ensures
        r == parse_u8(t@.subrange(from as int, to as int), radix as nat),
{
    let ghost sub = t@.subrange(from as int, to as int);
    let mut i = from;
    if i < to && t[i] == '+' {
        i += 1;
    }
    let ghost ds = t@.subrange(i as int, to as int);
    assert(ds =~= (if sub.len() > 0 && sub[0] == '+' { sub.drop_first() } else { sub }));
    if i == to {
        return None;
    }
    let start = i;
    let mut v: u32 = 0;
    assert(t@.subrange(start as int, start as int) =~= Seq::<char>::empty());
    while i < to
        invariant
            from <= start <= i <= to <= t.len(),
            start < to,
            sub == t@.subrange(from as int, to as int),
            ds == t@.subrange(start as int, to as int),
            ds =~= (if sub.len() > 0 && sub[0] == '+' { sub.drop_first() } else { sub }),
            radix == 10 || radix == 16,
            digits_value(t@.subrange(start as int, i as int), radix as nat) == Some(v as nat),
            v <= 255,
        decreases to - i,
    {
        let c = t[i];
        let u = c as u32;
        let d: u32 = if 0x30 <= u && u <= 0x39 {
            u - 0x30
        } else if 0x61 <= u && u <= 0x7a {
            u - 0x61 + 10
        } else if 0x41 <= u && u <= 0x5a {
            u - 0x41 + 10
        } else {
            99
        };
        assert(ds[i - start] == c);
        assert(t@.subrange(start as int, i + 1).drop_last() =~= t@.subrange(start as int, i as int));
        assert(t@.subrange(start as int, i + 1).last() == c);
        if d >= radix {
            assert(digit_value(c, radix as nat) is None);
            proof {
                lemma_digits_none(ds, (i - start) as int, radix as nat);
            }
            return None;
        }
        assert(digit_value(c, radix as nat) == Some(d as nat));
        let nv = v * radix + d;
        assert(digits_value(t@.subrange(start as int, i + 1), radix as nat) == Some(nv as nat));
        if nv > 255 {
            assert(ds.take(i + 1 - start) =~= t@.subrange(start as int, i + 1));
            proof {
                lemma_digits_grow(ds, (i + 1 - start) as int, radix as nat);
            }
            return None;
        }
        v = nv;
        i += 1;
    }
    assert(t@.subrange(start as int, to as int) =~= ds);
    Some(v as u8)
}

/// A digit that is not one makes the whole value undefined.
proof fn lemma_digits_none(ds: Seq<char>, k: int, radix: nat)
    requires
        0 <= k < ds.len(),
        digit_value(ds[k], radix) is None,
    ensures
        digits_value(ds, radix) is None,
    decreases ds.len(),
{
    if k < ds.len() - 1 {
        assert(ds.drop_last()[k] == ds[k]);
        lemma_digits_none(ds.drop_last(), k, radix);
    }
}

/// The value of a prefix never exceeds the value of the whole.
proof fn lemma_digits_grow(ds: Seq<char>, k: int, radix: nat)
    requires
        0 < k <= ds.len(),
        radix >= 1,
        digits_value(ds.take(k), radix) matches Some(v) && v > 255,
    ensures
        !(digits_value(ds, radix) matches Some(w) && w <= 255),
    decreases ds.len(),
{
    if k < ds.len() {
        assert(ds.drop_last().take(k) =~= ds.take(k));
        lemma_digits_grow(ds.drop_last(), k, radix);
        match (digits_value(ds.drop_last(), radix), digit_value(ds.last(), radix)) {
            (Some(h), Some(d)) => {
                assert(h * radix >= h) by (nonlinear_arith)
                    requires
                        radix >= 1,
                ;
            },
            _ => {},
        }
    } else {
        assert(ds.take(k) =~= ds);
    }
}

/// `t` without its leading whitespace.
pub open spec fn trim_start(t: Seq<char>) -> Seq<char>
    decreases t.len(),
{
    if t.len() > 0 && is_whitespace_char(t[0]) {
        trim_start(t.drop_first())
    } else {
        t
    }
}

/// `t` without its trailing whitespace.
pub open spec fn trim_end(t: Seq<char>) -> Seq<char>
    decreases t.len(),
{
    if t.len() > 0 && is_whitespace_char(t.last()) {
        trim_end(t.drop_last())
    } else {
        t
    }
}

/// `str::trim`: `t` without leading and trailing whitespace.
pub open spec fn trim(t: Seq<char>) -> Seq<char> {
    trim_end(trim_start(t))
}

/// `t[from..to]` without leading and trailing whitespace.
pub fn trim_range(t: &Vec<char>, from: usize, to: usize) -> (r: (usize, usize))
    requires
        from <= to <= t.len(),
    ensures
        from <= r.0 <= r.1 <= to,
        t@.subrange(r.0 as int, r.1 as int) == trim(t@.subrange(from as int, to as int)),
{
    let ghost sub = t@.subrange(from as int, to as int);
    let mut a = from;
    while a < to && is_whitespace(t[a])
        invariant
            from <= a <= to <= t.len(),
            trim_start(sub) == trim_start(t@.subrange(a as int, to as int)),
        decreases to - a,
    {
        assert(t@.subrange(a as int, to as int).drop_first() =~= t@.subrange(a + 1, to as int));
        a += 1;
    }
    let ghost ts = t@.subrange(a as int, to as int);
    assert(trim_start(sub) == ts);
    let mut b = to;
    while b > a && is_whitespace(t[b - 1])
        invariant
            a <= b <= to <= t.len(),
            trim_end(ts) == trim_end(t@.subrange(a as int, b as int)),
        decreases b - a,
    {
        assert(t@.subrange(a as int, b as int).drop_last() =~= t@.subrange(a as int, b - 1));
        b -= 1;
    }
    (a, b)
}

/// `str::split(',')`: the pieces of `t` between commas.
pub open spec fn split_commas(t: Seq<char>) -> Seq<Seq<char>>
    decreases t.len(),
{
    if t.len() == 0 {
        seq![seq![]]
    } else {
        let rest = split_commas(t.drop_last());
        if t.last() == ',' {
            rest.push(seq![])
        } else {
            rest.update(rest.len() - 1, rest.last().push(t.last()))
        }
    }
}

/// Splitting never gives an empty list.
proof fn lemma_split_nonempty(t: Seq<char>)
    ensures
        split_commas(t).len() >= 1,
    decreases t.len(),
{
    if t.len() > 0 {
        lemma_split_nonempty(t.drop_last());
    }
}

/// The ranges of `t[from..]` between commas.
fn comma_ranges(t: &Vec<char>, from: usize) -> (r: Vec<(usize, usize)>)
    requires
        from <= t.len(),
    ensures
        r@.len() == split_commas(t@.skip(from as int)).len(),
        forall|i: int|
            0 <= i < r@.len() ==> from <= (#[trigger] r@[i]).0 <= r@[i].1 <= t.len() && t@.subrange(
                r@[i].0 as int,
                r@[i].1 as int,
            ) == split_commas(t@.skip(from as int))[i],
{
    let ghost u = t@.skip(from as int);
    let mut done: Vec<(usize, usize)> = Vec::new();
    let mut cur = from;
    let mut i = from;
    assert(u.take(0) =~= Seq::<char>::empty());
    while i < t.len()
        invariant
            from <= cur <= i <= t.len(),
            u == t@.skip(from as int),
            split_commas(u.take(i - from)).len() == done@.len() + 1,
            forall|k: int|
                0 <= k < done@.len() ==> from <= (#[trigger] done@[k]).0 <= done@[k].1 <= t.len()
                    && t@.subrange(done@[k].0 as int, done@[k].1 as int) == split_commas(
                    u.take(i - from),
                )[k],
            split_commas(u.take(i - from)).last() == t@.subrange(cur as int, i as int),
        decreases t.len() - i,
    {
        let ghost prev = u.take(i - from);
        assert(u.take(i + 1 - from).drop_last() =~= prev);
        assert(u.take(i + 1 - from).last() == t@[i as int]);
        proof {
            lemma_split_nonempty(prev);
        }
        if t[i] == ',' {
            done.push((cur, i));
            cur = i + 1;
            assert(t@.subrange(cur as int, i + 1) =~= Seq::<char>::empty());
        } else {
            assert(t@.subrange(cur as int, i + 1) =~= t@.subrange(cur as int, i as int).push(t@[i as int]));
        }
        i += 1;
    }
    assert(u.take(t.len() - from) =~= u);
    done.push((cur, t.len()));
    done
}

/// Whether `t` takes the `#RRGGBB` branch: a `#` and seven bytes.
pub open spec fn hex_branch(t: Seq<char>) -> bool {
    t.len() > 0 && t[0] == '#' && utf8_len(t) == 7
}

/// Whether parsing `t` slices it off a character boundary: a seven-byte
/// `#...` text whose bytes 3 or 5 fall inside a character.
pub open spec fn hex_panics(t: Seq<char>) -> bool {
    named_color(t) is None && !starts_with(t, "ansi:"@) && hex_branch(t) && !(is_boundary(t, 3)
        && is_boundary(t, 5))
}

/// Whether `t` starts with `p`.
pub open spec fn starts_with(t: Seq<char>, p: Seq<char>) -> bool {
    t.len() >= p.len() && t.take(p.len() as int) == p
}

/// `'{t}'`.
pub open spec fn quoted(t: Seq<char>) -> Seq<char> {
    "'"@ + t + "'"@
}

/// The three bytes of a `#RRGGBB` text, if they all parse.
pub open spec fn hex_rgb(t: Seq<char>) -> Option<(u8, u8, u8)> {
    let k3 = chars_before_byte(t, 3) as int;
    let k5 = chars_before_byte(t, 5) as int;
    match (
        parse_u8(t.subrange(1, k3), 16),
        parse_u8(t.subrange(k3, k5), 16),
        parse_u8(t.subrange(k5, t.len() as int), 16),
    ) {
        (Some(r), Some(g), Some(b)) => Some((r, g, b)),
        _ => None,
    }
}

/// What the argument `given`, put in lowercase as `t`, means as a color: a
/// name, `ansi:N`, `#RRGGBB` or `rgb:R,G,B`; else the error shown for it.
/// The errors quote the lowercase text, but an unknown color is quoted as
/// it was given.
pub open spec fn color_of_text(t: Seq<char>, given: Seq<char>) -> Result<ColorArg, Seq<char>> {
    match named_color(t) {
        Some(c) => Ok(ColorArg(c)),
        None => if starts_with(t, "ansi:"@) {
            match parse_u8(t.skip(5), 10) {
                Some(n) => Ok(ColorArg(Color::AnsiValue(n))),
                None => Err("Invalid ANSI color index: "@ + quoted(t.skip(5))),
            }
        } else if hex_branch(t) {
            match hex_rgb(t) {
                Some((r, g, b)) => Ok(ColorArg(Color::Rgb { r, g, b })),
                None => Err("Invalid hex color: "@ + quoted(t)),
            }
        } else if starts_with(t, "rgb:"@) {
            let parts = split_commas(t.skip(4));
            if parts.len() != 3 {
                Err("Expected rgb:R,G,B, got: "@ + quoted(t))
            } else {
                match (
                    parse_u8(trim(parts[0]), 10),
                    parse_u8(trim(parts[1]), 10),
                    parse_u8(trim(parts[2]), 10),
                ) {
                    (Some(r), Some(g), Some(b)) => Ok(ColorArg(Color::Rgb { r, g, b })),
                    (None, _, _) => Err("Invalid RGB component: "@ + quoted(parts[0])),
                    (_, None, _) => Err("Invalid RGB component: "@ + quoted(parts[1])),
                    (_, _, None) => Err("Invalid RGB component: "@ + quoted(parts[2])),
                }
            }
        } else {
            Err("Unknown color "@ + quoted(given) + ". Try: red, blue, #ff0000, rgb:255,0,0, ansi:200"@)
        },
    }
}

/// A result with its error text taken as characters.
pub open spec fn result_view(r: Result<ColorArg, String>) -> Result<ColorArg, Seq<char>> {
    match r {
        Ok(c) => Ok(c),
        Err(e) => Err(e@),
    }
}

/// Whether the characters `v` are the text `lit`.
fn eq_lit(v: &Vec<char>, lit: &str) -> (r: bool)
    ensures
        r == (v@ == lit@),
{
    let l = chars_of(lit);
    if v.len() != l.len() {
        return false;
    }
    let mut i: usize = 0;
    while i < v.len()
        invariant
            l@ == lit@,
            v@.len() == l@.len(),
            i <= v@.len(),
            forall|j: int| 0 <= j < i ==> v@[j] == l@[j],
        decreases v.len() - i,
    {
        if v[i] != l[i] {
            return false;
        }
        i += 1;
    }
    assert(v@ =~= l@);
    true
}

/// Whether the characters `v` start with the text `lit`.
fn starts_with_lit(v: &Vec<char>, lit: &str) -> (r: bool)
    ensures
        r == starts_with(v@, lit@),
{
    let l = chars_of(lit);
    if v.len() < l.len() {
        return false;
    }
    let mut i: usize = 0;
    while i < l.len()
        invariant
            l@ == lit@,
            v@.len() >= l@.len(),
            i <= l@.len(),
            forall|j: int| 0 <= j < i ==> v@[j] == l@[j],
        decreases l.len() - i,
    {
        if v[i] != l[i] {
            assert(v@.take(l@.len() as int)[i as int] != l@[i as int]);
            return false;
        }
        i += 1;
    }
    assert(v@.take(l@.len() as int) =~= l@);
    true
}

/// The color of a color name, if it is one.
fn named_color_exec(t: &Vec<char>) -> (r: Option<Color>)
    ensures
        r == named_color(t@),
{
    if eq_lit(t, "black") {
        Some(Color::Black)
    } else if eq_lit(t, "red") {
        Some(Color::Red)
    } else if eq_lit(t, "green") {
        Some(Color::Green)
    } else if eq_lit(t, "yellow") {
        Some(Color::Yellow)
    } else if eq_lit(t, "blue") {
        Some(Color::Blue)
    } else if eq_lit(t, "magenta") {
        Some(Color::Magenta)
    } else if eq_lit(t, "cyan") {
        Some(Color::Cyan)
    } else if eq_lit(t, "white") {
        Some(Color::White)
    } else if eq_lit(t, "grey") || eq_lit(t, "gray") {
        Some(Color::Grey)
    } else if eq_lit(t, "darkred") {
        Some(Color::DarkRed)
    } else if eq_lit(t, "darkgreen") {
        Some(Color::DarkGreen)
    } else if eq_lit(t, "darkyellow") {
        Some(Color::DarkYellow)
    } else if eq_lit(t, "darkblue") {
        Some(Color::DarkBlue)
    } else if eq_lit(t, "darkmagenta") {
        Some(Color::DarkMagenta)
    } else if eq_lit(t, "darkcyan") {
        Some(Color::DarkCyan)
    } else if eq_lit(t, "darkgrey") || eq_lit(t, "darkgray") {
        Some(Color::DarkGrey)
    } else {
        None
    }
}

/// `{prefix}'{t[a..b]}'{suffix}`.
fn quoted_message(prefix: &str, t: &Vec<char>, a: usize, b: usize, suffix: &str) -> (m: String)
    requires
        a <= b <= t.len(),
    ensures
        m@ == prefix@ + quoted(t@.subrange(a as int, b as int)) + suffix@,
{
    let mut m = string_of(prefix);
    push_str(&mut m, "'");
    push_chars(&mut m, t, a, b);
    push_str(&mut m, "'");
    push_str(&mut m, suffix);
    assert(m@ =~= prefix@ + quoted(t@.subrange(a as int, b as int)) + suffix@);
    m
}


/// Parses a color argument `given` that `text` holds in lowercase.
pub fn parse_lowered_color(text: &str, given: &str) -> (r: Result<ColorArg, String>)
    requires
        !hex_panics(text@),
    ensures
        result_view(r) == color_of_text(text@, given@),
{
    let t = chars_of(text);
    let n = t.len();
    proof {
        reveal_strlit("");
        assert(t@.subrange(0, n as int) =~= t@);
        assert(t@ + ""@ =~= t@);
    }
    match named_color_exec(&t) {
        Some(c) => {
            return Ok(ColorArg(c));
        },
        None => {},
    }
    if starts_with_lit(&t, "ansi:") {
        proof {
            reveal_strlit("ansi:");
        }
        assert(t@.subrange(5, n as int) =~= t@.skip(5));
        return match parse_u8_radix(&t, 5, n, 10) {
            Some(v) => Ok(ColorArg(Color::AnsiValue(v))),
            None => Err(quoted_message("Invalid ANSI color index: ", &t, 5, n, "")),
        };
    }
    let total = byte_len(text);
    if n > 0 && t[0] == '#' && total == 7 {
        let k3 = column_of_byte(&t, total, 3);
        let k5 = column_of_byte(&t, total, 5);
        proof {
            lemma_chars_before_byte_monotone(t@, 3, 5);
            assert(t@.drop_first().len() + 1 == t@.len());
        }
        assert(k3 >= 1);
        let r = parse_u8_radix(&t, 1, k3, 16);
        let g = parse_u8_radix(&t, k3, k5, 16);
        let b = parse_u8_radix(&t, k5, n, 16);
        return match (r, g, b) {
            (Some(r), Some(g), Some(b)) => Ok(ColorArg(Color::Rgb { r, g, b })),
            _ => Err(quoted_message("Invalid hex color: ", &t, 0, n, "")),
        };
    }
    if starts_with_lit(&t, "rgb:") {
        proof {
            reveal_strlit("rgb:");
        }
        let ranges = comma_ranges(&t, 4);
        if ranges.len() != 3 {
            return Err(quoted_message("Expected rgb:R,G,B, got: ", &t, 0, n, ""));
        }
        let (a0, b0) = ranges[0];
        let (a1, b1) = ranges[1];
        let (a2, b2) = ranges[2];
        let (c0, d0) = trim_range(&t, a0, b0);
        let (c1, d1) = trim_range(&t, a1, b1);
        let (c2, d2) = trim_range(&t, a2, b2);
        let r = parse_u8_radix(&t, c0, d0, 10);
        let g = parse_u8_radix(&t, c1, d1, 10);
        let b = parse_u8_radix(&t, c2, d2, 10);
        return match (r, g, b) {
            (Some(r), Some(g), Some(b)) => Ok(ColorArg(Color::Rgb { r, g, b })),
            (None, _, _) => Err(quoted_message("Invalid RGB component: ", &t, a0, b0, "")),
            (_, None, _) => Err(quoted_message("Invalid RGB component: ", &t, a1, b1, "")),
            (_, _, None) => Err(quoted_message("Invalid RGB component: ", &t, a2, b2, "")),
        };
    }
    let g = chars_of(given);
    proof {
        assert(g@.subrange(0, g@.len() as int) =~= g@);
    }
    Err(
        quoted_message(
            "Unknown color ",
            &g,
            0,
            g.len(),
            ". Try: red, blue, #ff0000, rgb:255,0,0, ansi:200",
        ),
    )
}

/// Parses a color argument: a name (`red`, `darkgrey`, ...), `ansi:N`,
/// `#RRGGBB` or `rgb:R,G,B`, in any case. `None` when the text would be
/// sliced off a character boundary (a seven-byte `#` text whose bytes 3 or 5
/// fall inside a character), where parsing fails.
pub fn parse_color(s: &str) -> (r: Option<Result<ColorArg, String>>)
    ensures
        r is None <==> hex_panics(lowercase(s@)),
        r matches Some(res) ==> result_view(res) == color_of_text(lowercase(s@), s@),
{
    let lowered = to_lowercase(s);
    let t = chars_of(lowered.as_str());
    let total = byte_len(lowered.as_str());
    let named = named_color_exec(&t).is_some();
    let ansi = starts_with_lit(&t, "ansi:");
    if !named && !ansi && t.len() > 0 && t[0] == '#' && total == 7 {
        let k3 = column_of_byte(&t, total, 3);
        let k5 = column_of_byte(&t, total, 5);
        let ok3 = crate::utils::get_utf_index(lowered.as_str(), k3) == 3;
        let ok5 = crate::utils::get_utf_index(lowered.as_str(), k5) == 5;
        proof {
            lemma_chars_before_byte_monotone(t@, 3, 5);
            lemma_chars_before_byte_monotone(t@, 5, 7);
            assert(t@.take(t@.len() as int) =~= t@);
        }
        if !(ok3 && ok5) {
            return None;
        }
    }
    Some(parse_lowered_color(lowered.as_str(), s))
}

/// Lowercase hexadecimal digit of `d`, for `d < 16`.
pub open spec fn hex_digit(d: nat) -> char {
    if d < 10 {
        ((48 + d) as u8) as char
    } else {
        ((87 + d) as u8) as char
    }
}

/// Two lowercase hexadecimal digits of a byte.
pub open spec fn hex2(b: u8) -> Seq<char> {
    seq![hex_digit((b / 16) as nat), hex_digit((b % 16) as nat)]
}

/// How a color argument is written: its name, `#rrggbb`, `ansi:N`, or, for
/// the reset color, `ColorArg(Reset)`.
pub open spec fn color_text(c: Color) -> Seq<char> {
    match c {
        Color::Black => "black"@,
        Color::Red => "red"@,
        Color::Green => "green"@,
        Color::Yellow => "yellow"@,
        Color::Blue => "blue"@,
        Color::Magenta => "magenta"@,
        Color::Cyan => "cyan"@,
        Color::White => "white"@,
        Color::Grey => "grey"@,
        Color::DarkRed => "darkred"@,
        Color::DarkGreen => "darkgreen"@,
        Color::DarkYellow => "darkyellow"@,
        Color::DarkBlue => "darkblue"@,
        Color::DarkMagenta => "darkmagenta"@,
        Color::DarkCyan => "darkcyan"@,
        Color::DarkGrey => "darkgrey"@,
        Color::Rgb { r, g, b } => "#"@ + hex2(r) + hex2(g) + hex2(b),
        Color::AnsiValue(n) => "ansi:"@ + decimal(n as nat),
        Color::Reset => "ColorArg(Reset)"@,
    }
}

/// Appends the two hexadecimal digits of `b`.
fn push_hex2(s: &mut String, b: u8)
    ensures
        final(s)@ == old(s)@ + hex2(b),
{
    let hi = b / 16;
    let lo = b % 16;
    let ch = if hi < 10 { (48 + hi) as char } else { (87 + hi) as char };
    let cl = if lo < 10 { (48 + lo) as char } else { (87 + lo) as char };
    push_char(s, ch);
    push_char(s, cl);
    assert(old(s)@.push(ch).push(cl) =~= old(s)@ + hex2(b));
}

impl ColorArg {
    /// How the color is written, as its `Display` shows it.
    pub fn to_text(&self) -> (s: String)
        ensures
            s@ == color_text(self.0),
    {
        match self.0 {
            Color::Black => string_of("black"),
            Color::Red => string_of("red"),
            Color::Green => string_of("green"),
            Color::Yellow => string_of("yellow"),
            Color::Blue => string_of("blue"),
            Color::Magenta => string_of("magenta"),
            Color::Cyan => string_of("cyan"),
            Color::White => string_of("white"),
            Color::Grey => string_of("grey"),
            Color::DarkRed => string_of("darkred"),
            Color::DarkGreen => string_of("darkgreen"),
            Color::DarkYellow => string_of("darkyellow"),
            Color::DarkBlue => string_of("darkblue"),
            Color::DarkMagenta => string_of("darkmagenta"),
            Color::DarkCyan => string_of("darkcyan"),
            Color::DarkGrey => string_of("darkgrey"),
            Color::Rgb { r, g, b } => {
                let mut s = string_of("#");
                push_hex2(&mut s, r);
                push_hex2(&mut s, g);
                push_hex2(&mut s, b);
                s
            },
            Color::AnsiValue(n) => {
                let mut s = string_of("ansi:");
                push_decimal(&mut s, n as usize);
                s
            },
            Color::Reset => string_of("ColorArg(Reset)"),
        }
    }
}

/// Whether every character of `t` is ASCII and not a capital letter.
pub open spec fn lower_ascii(t: Seq<char>) -> bool {
    forall|i: int| 0 <= i < t.len() ==> (#[trigger] t[i] as u32) < 0x80 && !('A' <= t[i] <= 'Z')
}

/// Lowering an ASCII text without capitals changes nothing.
proof fn lemma_lower_ascii_fixed(t: Seq<char>)
    requires
        lower_ascii(t),
    ensures
        is_ascii_chars(t),
        t.map_values(|c: char| ascii_lower_char(c)) == t,
{
    assert(t.map_values(|c: char| ascii_lower_char(c)) =~= t);
}

/// The decimal notation of `n` is made of digits and reads back as `n`.
proof fn lemma_decimal_reads_back(n: nat)
    ensures
        decimal(n).len() >= 1,
        digits_value(decimal(n), 10) == Some(n),
        forall|i: int| 0 <= i < decimal(n).len() ==> '0' <= #[trigger] decimal(n)[i] <= '9',
    decreases n,
{
    let d = n % 10;
    assert(digit_char(d) as u32 == 48 + d);
    assert(digit_value(digit_char(d), 10) == Some(d));
    assert(n == (n / 10) * 10 + d);
    assert(decimal(n).last() == digit_char(d));
    if n < 10 {
        assert(decimal(n).drop_last() =~= Seq::<char>::empty());
        assert(digits_value(Seq::<char>::empty(), 10) == Some(0nat));
    } else {
        lemma_decimal_reads_back(n / 10);
        assert(decimal(n).drop_last() =~= decimal(n / 10));
    }
}

/// The two hexadecimal digits of a byte are lowercase ASCII and read back
/// as the byte.
proof fn lemma_hex2_reads_back(b: u8)
    ensures
        hex2(b).len() == 2,
        digits_value(hex2(b), 16) == Some(b as nat),
        lower_ascii(hex2(b)),
        hex2(b)[0] != '+',
{
    let h = hex2(b);
    reveal_with_fuel(digits_value, 3);
    assert(hex_digit((b / 16) as nat) as u32 == (if b / 16 < 10 { 48 + b / 16 } else { 87 + b / 16 }));
    assert(hex_digit((b % 16) as nat) as u32 == (if b % 16 < 10 { 48 + b % 16 } else { 87 + b % 16 }));
    assert(digit_value(h[0], 16) == Some((b / 16) as nat));
    assert(digit_value(h[1], 16) == Some((b % 16) as nat));
    assert(h.drop_last() =~= seq![h[0]]);
    assert(h.drop_last().drop_last() =~= Seq::<char>::empty());
    assert(b == (b / 16) * 16 + b % 16);
}

/// On a text of one-byte characters, byte positions are character
/// positions.
proof fn lemma_ascii_byte_positions(t: Seq<char>, b: int)
    requires
        is_ascii_chars(t),
        0 <= b <= t.len(),
    ensures
        chars_before_byte(t, b) == b,
    decreases t.len(),
{
    if t.len() > 0 && b > 0 {
        crate::text::lemma_char_len_range(t[0]);
        assert(is_ascii_chars(t.drop_first()));
        lemma_ascii_byte_positions(t.drop_first(), b - 1);
    }
}

/// No color name starts with `#` or `a`.
proof fn lemma_no_name_starts(t: Seq<char>)
    requires
        t.len() > 0,
        t[0] == '#' || t[0] == 'a',
    ensures
        named_color(t) is None,
{
    reveal_strlit("black");
    reveal_strlit("red");
    reveal_strlit("green");
    reveal_strlit("yellow");
    reveal_strlit("blue");
    reveal_strlit("magenta");
    reveal_strlit("cyan");
    reveal_strlit("white");
    reveal_strlit("grey");
    reveal_strlit("gray");
    reveal_strlit("darkred");
    reveal_strlit("darkgreen");
    reveal_strlit("darkyellow");
    reveal_strlit("darkblue");
    reveal_strlit("darkmagenta");
    reveal_strlit("darkcyan");
    reveal_strlit("darkgrey");
    reveal_strlit("darkgray");
}

/// Every color name is lowercase ASCII and names its color.
proof fn lemma_names_read_back(c: Color)
    requires
        !(c is Rgb || c is AnsiValue || c is Reset),
    ensures
        lower_ascii(color_text(c)),
        named_color(color_text(c)) == Some(c),
{
    reveal_strlit("black");
    reveal_strlit("red");
    reveal_strlit("green");
    reveal_strlit("yellow");
    reveal_strlit("blue");
    reveal_strlit("magenta");
    reveal_strlit("cyan");
    reveal_strlit("white");
    reveal_strlit("grey");
    reveal_strlit("gray");
    reveal_strlit("darkred");
    reveal_strlit("darkgreen");
    reveal_strlit("darkyellow");
    reveal_strlit("darkblue");
    reveal_strlit("darkmagenta");
    reveal_strlit("darkcyan");
    reveal_strlit("darkgrey");
    reveal_strlit("darkgray");
    assert("black"@.len() == 5);
    assert("red"@.len() == 3);
    assert("green"@.len() == 5);
    assert("yellow"@.len() == 6);
    assert("blue"@.len() == 4);
    assert("magenta"@.len() == 7);
    assert("cyan"@.len() == 4);
    assert("white"@.len() == 5);
    assert("grey"@.len() == 4);
    assert("gray"@.len() == 4);
    assert("darkred"@.len() == 7);
    assert("darkgreen"@.len() == 9);
    assert("darkyellow"@.len() == 10);
    assert("darkblue"@.len() == 8);
    assert("darkmagenta"@.len() == 11);
    assert("darkcyan"@.len() == 8);
    assert("darkgrey"@.len() == 8);
    assert("darkgray"@.len() == 8);
    assert("black"@[0] == 'b');
    assert("black"@[4] == 'k');
    assert("red"@[0] == 'r');
    assert("green"@[0] == 'g');
    assert("green"@[4] == 'n');
    assert("yellow"@[0] == 'y');
    assert("yellow"@[4] == 'o');
    assert("blue"@[0] == 'b');
    assert("magenta"@[0] == 'm');
    assert("magenta"@[4] == 'n');
    assert("cyan"@[0] == 'c');
    assert("white"@[0] == 'w');
    assert("white"@[4] == 'e');
    assert("grey"@[0] == 'g');
    assert("gray"@[0] == 'g');
    assert("darkred"@[0] == 'd');
    assert("darkred"@[4] == 'r');
    assert("darkgreen"@[0] == 'd');
    assert("darkgreen"@[4] == 'g');
    assert("darkyellow"@[0] == 'd');
    assert("darkyellow"@[4] == 'y');
    assert("darkblue"@[0] == 'd');
    assert("darkblue"@[4] == 'b');
    assert("darkmagenta"@[0] == 'd');
    assert("darkmagenta"@[4] == 'm');
    assert("darkcyan"@[0] == 'd');
    assert("darkcyan"@[4] == 'c');
    assert("darkgrey"@[0] == 'd');
    assert("darkgrey"@[4] == 'g');
    assert("darkgray"@[0] == 'd');
    assert("darkgray"@[4] == 'g');
    match c {
        Color::Black => {},
        Color::Red => {},
        Color::Green => {},
        Color::Yellow => {},
        Color::Blue => {},
        Color::Magenta => {},
        Color::Cyan => {},
        Color::White => {},
        Color::Grey => {},
        Color::DarkRed => {},
        Color::DarkGreen => {},
        Color::DarkYellow => {},
        Color::DarkBlue => {},
        Color::DarkMagenta => {},
        Color::DarkCyan => {},
        Color::DarkGrey => {},
        _ => {},
    }
}

/// A color written as its argument text reads back as the same color:
/// the text is lowercase ASCII (so putting it in lowercase changes nothing),
/// parsing it slices no character, and it parses to the color. The reset
/// color is the exception: it is written `ColorArg(Reset)`, which is no
/// color argument.
pub proof fn lemma_color_text_reads_back(c: Color)
    requires
        !(c is Reset),
    ensures
        is_ascii_chars(color_text(c)),
        color_text(c).map_values(|ch: char| ascii_lower_char(ch)) == color_text(c),
        !hex_panics(color_text(c)),
        color_of_text(color_text(c), color_text(c)) == Ok::<ColorArg, Seq<char>>(ColorArg(c)),
{
    let t = color_text(c);
    match c {
        Color::Rgb { r, g, b } => {
            reveal_strlit("#");
            lemma_hex2_reads_back(r);
            lemma_hex2_reads_back(g);
            lemma_hex2_reads_back(b);
            assert(lower_ascii(t));
            lemma_lower_ascii_fixed(t);
            lemma_no_name_starts(t);
            reveal_strlit("ansi:");
            assert(!starts_with(t, "ansi:"@)) by {
                assert(t.take(5)[0] == '#');
            }
            vstd::utf8::is_ascii_chars_encode_utf8(t);
            assert(hex_branch(t));
            lemma_ascii_byte_positions(t, 3);
            lemma_ascii_byte_positions(t, 5);
            vstd::utf8::is_ascii_chars_encode_utf8(t.take(3));
            vstd::utf8::is_ascii_chars_encode_utf8(t.take(5));
            assert(is_boundary(t, 3) && is_boundary(t, 5));
            assert(t.subrange(1, 3) =~= hex2(r));
            assert(t.subrange(3, 5) =~= hex2(g));
            assert(t.subrange(5, 7) =~= hex2(b));
            assert(hex_rgb(t) == Some((r, g, b)));
        },
        Color::AnsiValue(n) => {
            reveal_strlit("ansi:");
            lemma_decimal_reads_back(n as nat);
            assert(lower_ascii(t));
            lemma_lower_ascii_fixed(t);
            lemma_no_name_starts(t);
            assert(t.take(5) =~= "ansi:"@);
            assert(t.skip(5) =~= decimal(n as nat));
        },
        Color::Reset => {},
        _ => {
            lemma_names_read_back(c);
            lemma_lower_ascii_fixed(t);
            reveal_strlit("ansi:");
        },
    }
}

} // verus!
