//! Theme tokens: the color palette of the shell, and the checks on it.
use vstd::prelude::*;
use crate::text::{is_ws, lower_all, str_chars, string_from_chars, to_ascii_lower, trim, trim_chars, ascii_lower};

verus! {

#[derive(Debug, Clone, PartialEq, Eq)]
pub struct ThemeTokens {
    pub name: String,
    pub background: String,
    pub foreground: String,
    pub accent: String,
    pub shell_top_bar_bg: String,
    pub shell_top_bar_fg: String,
    pub shell_footer_bg: String,
    pub shell_footer_fg: String,
    pub shell_panel: String,
    pub shell_panel_alt: String,
    pub shell_panel_raised: String,
    pub shell_row_selected_bg: String,
    pub shell_row_selected_fg: String,
    pub shell_separator: String,
    pub shell_border: String,
    pub shell_pill_bg: String,
    pub shell_title: String,
    pub shell_success: String,
    pub shell_warning: String,
    pub shell_muted: String,
    pub shell_error: String,
    pub lane_border: String,
    pub lane_fill: String,
    pub lane_active: String,
    pub hud_panel: String,
    pub hud_label: String,
    pub judgment_perfect: String,
    pub judgment_great: String,
    pub judgment_good: String,
    pub judgment_miss: String,
}

/// A core color of a theme that is not of the form `#rrggbb`.
#[derive(Debug, Clone, PartialEq, Eq)]
pub enum ThemeError {
    InvalidColor { field: &'static str, value: String },
}

/// Built-in theme names are matched after trimming, ASCII lower-casing, and
/// turning spaces and underscores into dashes.
pub open spec fn normalize_char(c: char) -> char {
    let l = ascii_lower(c);
    if l == ' ' || l == '_' {
        '-'
    } else {
        l
    }
}

pub open spec fn normalize_builtin_name_spec(name: Seq<char>) -> Seq<char> {
    trim(name).map_values(|c: char| normalize_char(c))
}

pub fn normalize_builtin_name(name: &str) -> (r: String)
    ensures
        r@ == normalize_builtin_name_spec(name@),
{
    let chars = str_chars(name);
    let trimmed = trim_chars(&chars);
    let mut out: Vec<char> = Vec::new();
    let mut i: usize = 0;
    while i < trimmed.len()
        invariant
            i <= trimmed@.len(),
            out@ == trimmed@.take(i as int).map_values(|c: char| normalize_char(c)),
        decreases trimmed.len() - i,
    {
        let l = to_ascii_lower(trimmed[i]);
        let c = if l == ' ' || l == '_' {
            '-'
        } else {
            l
        };
        out.push(c);
        i = i + 1;
        assert(out@ =~= trimmed@.take(i as int).map_values(|c: char| normalize_char(c)));
    }
    assert(trimmed@.take(trimmed@.len() as int) =~= trimmed@);
    string_from_chars(out.as_slice())
}

/// The UTF-8 encoding of a character sequence.
pub open spec fn utf8(s: Seq<char>) -> Seq<u8> {
    vstd::utf8::encode_utf8(s)
}

/// The value of an ASCII hexadecimal digit byte.
pub open spec fn hex_digit(b: u8) -> Option<u8> {
    if 0x30 <= b <= 0x39 {
        Some((b - 0x30) as u8)
    } else if 0x61 <= b <= 0x66 {
        Some((b - 0x61 + 10) as u8)
    } else if 0x41 <= b <= 0x46 {
        Some((b - 0x41 + 10) as u8)
    } else {
        None
    }
}

/// Two bytes read as an unsigned hexadecimal number (`u8::from_str_radix`
/// with radix 16, which accepts a leading `+`).
pub open spec fn hex_pair(a: u8, b: u8) -> Option<u8> {
    if a == 0x2b {
        hex_digit(b)
    } else {
        match (hex_digit(a), hex_digit(b)) {
            (Some(x), Some(y)) => Some((x * 16 + y) as u8),
            _ => None,
        }
    }
}

/// A UTF-8 continuation byte, which never starts a character.
pub open spec fn is_continuation(b: u8) -> bool {
    0x80 <= b < 0xc0
}

/// The color `#rrggbb` written in the UTF-8 bytes `b`.
pub open spec fn parse_hex_rgb_spec(b: Seq<u8>) -> Option<(u8, u8, u8)> {
    if b.len() == 7 && b[0] == 0x23 {
        match (hex_pair(b[1], b[2]), hex_pair(b[3], b[4]), hex_pair(b[5], b[6])) {
            (Some(r), Some(g), Some(bl)) => Some((r, g, bl)),
            _ => None,
        }
    } else {
        None
    }
}

/// Inputs whose two-byte pairs would split a character (the byte slicing of
/// such a color panics).
pub open spec fn splits_char(b: Seq<u8>) -> bool {
    b.len() == 7 && b[0] == 0x23 && (is_continuation(b[3]) || is_continuation(b[5]))
}

fn hex_digit_exec(b: u8) -> (r: Option<u8>)
    ensures
        r == hex_digit(b),
{
    if 0x30 <= b && b <= 0x39 {
        Some(b - 0x30)
    } else if 0x61 <= b && b <= 0x66 {
        Some(b - 0x61 + 10)
    } else if 0x41 <= b && b <= 0x46 {
        Some(b - 0x41 + 10)
    } else {
        None
    }
}

fn hex_pair_exec(a: u8, b: u8) -> (r: Option<u8>)
    ensures
        r == hex_pair(a, b),
{
    if a == 0x2b {
        return hex_digit_exec(b);
    }
    match (hex_digit_exec(a), hex_digit_exec(b)) {
        (Some(x), Some(y)) => Some(x * 16 + y),
        _ => None,
    }
}

pub fn parse_hex_rgb(value: &str) -> (r: Option<(u8, u8, u8)>)
    requires
        !splits_char(utf8(value@)),
    ensures
        r == parse_hex_rgb_spec(utf8(value@)),
{
    let b = value.as_bytes();
    if b.len() != 7 || b[0] != 0x23 {
        return None;
    }
    let red = hex_pair_exec(b[1], b[2]);
    let green = hex_pair_exec(b[3], b[4]);
    let blue = hex_pair_exec(b[5], b[6]);
    match (red, green, blue) {
        (Some(r), Some(g), Some(bl)) => Some((r, g, bl)),
        _ => None,
    }
}

pub fn validate_color(field: &'static str, value: &str) -> (r: Result<(), ThemeError>)
    requires
        !splits_char(utf8(value@)),
    ensures
        parse_hex_rgb_spec(utf8(value@)) is Some ==> r is Ok,
        parse_hex_rgb_spec(utf8(value@)) is None ==> (r matches Err(ThemeError::InvalidColor { field: f, value: v }) && f@ == field@ && v@ == value@),
{
    match parse_hex_rgb(value) {
        Some(_) => Ok(()),
        None => Err(ThemeError::InvalidColor { field, value: String::from_str(value) }),
    }
}

/// Sets `value` to `fallback` when it is empty.
pub fn fill_if_empty(value: &mut String, fallback: String)
    ensures
        old(value)@.len() == 0 ==> final(value)@ == fallback@,
        old(value)@.len() != 0 ==> final(value)@ == old(value)@,
{
    if value.as_str().is_empty() {
        *value = fallback;
    }
}

impl ThemeTokens {
    /// The three core colors must be `#rrggbb`; the first bad one, in the
    /// order background, foreground, accent, is reported.
    pub fn validate_core_colors(&self) -> (r: Result<(), ThemeError>)
        requires
            !splits_char(utf8(self.background@)),
            !splits_char(utf8(self.foreground@)),
            !splits_char(utf8(self.accent@)),
        ensures
            r is Ok <==> (parse_hex_rgb_spec(utf8(self.background@)) is Some
                && parse_hex_rgb_spec(utf8(self.foreground@)) is Some
                && parse_hex_rgb_spec(utf8(self.accent@)) is Some),
            parse_hex_rgb_spec(utf8(self.background@)) is None ==> (r matches Err(
                ThemeError::InvalidColor { field: f, value: v },
            ) && f@ == "background"@ && v@ == self.background@),
            parse_hex_rgb_spec(utf8(self.background@)) is Some
                && parse_hex_rgb_spec(utf8(self.foreground@)) is None ==> (r matches Err(
                ThemeError::InvalidColor { field: f, value: v },
            ) && f@ == "foreground"@ && v@ == self.foreground@),
            parse_hex_rgb_spec(utf8(self.background@)) is Some
                && parse_hex_rgb_spec(utf8(self.foreground@)) is Some
                && parse_hex_rgb_spec(utf8(self.accent@)) is None ==> (r matches Err(
                ThemeError::InvalidColor { field: f, value: v },
            ) && f@ == "accent"@ && v@ == self.accent@),
    {
        validate_color("background", self.background.as_str())?;
        validate_color("foreground", self.foreground.as_str())?;
        validate_color("accent", self.accent.as_str())?;
        Ok(())
    }
}

} // verus!
