//! The colours that set rows off from the rest, as terminal escapes.
use vstd::prelude::*;

use crate::text::{all_digits, decimal, law_decimal_writes_the_number, number, value_of};

verus! {

/// The escapes for the row that has the focus: its background, and the text on it.
#[derive(Debug)]
pub struct Theme {
    pub active_bg: String,
    pub bright_fg: String,
}

/// What a `Theme` says.
pub struct ThemeView {
    pub active_bg: Seq<char>,
    pub bright_fg: Seq<char>,
}

impl View for Theme {
    type V = ThemeView;

    open spec fn view(&self) -> ThemeView {
        ThemeView { active_bg: self.active_bg@, bright_fg: self.bright_fg@ }
    }
}

/// What an optional `Theme` says.
pub open spec fn theme_view(theme: Option<Theme>) -> Option<ThemeView> {
    match theme {
        Some(theme) => Some(theme@),
        None => None,
    }
}

/// The red, green and blue of a colour of the terminal.
#[derive(Clone, Copy, Debug, PartialEq, Eq, Structural)]
pub struct Wide {
    pub r: u16,
    pub g: u16,
    pub b: u16,
}

impl Wide {
    /// How bright the colour is.
    pub open spec fn luminance(self) -> int {
        self.r + self.g + self.b
    }
}

/// The red, green and blue of a colour in an escape.
#[derive(Clone, Copy, Debug, PartialEq, Eq, Structural)]
pub struct Narrow {
    pub r: u8,
    pub g: u8,
    pub b: u8,
}

/// A terminal with these colours is dark.
pub open spec fn looks_dark(background: Wide, foreground: Wide) -> bool {
    background.luminance() <= foreground.luminance()
}

/// Whether a terminal is dark: its background is no brighter than its text.
pub fn is_dark(background: Wide, foreground: Wide) -> (dark: bool)
    ensures
        dark == (background.luminance() <= foreground.luminance()),
        dark == looks_dark(background, foreground),
{
    let below: u32 = background.r as u32 + background.g as u32 + background.b as u32;
    let above: u32 = foreground.r as u32 + foreground.g as u32 + foreground.b as u32;
    below <= above
}

/// The brightness that text moves to in order to stand out: full on a dark
/// terminal, none on a bright one.
pub fn extreme(dark: bool) -> (level: u16)
    ensures
        level == (if dark {
            65535u16
        } else {
            0u16
        }),
{
    if dark {
        65535
    } else {
        0
    }
}

/// The escape that sets a colour, after its opening.
pub open spec fn color_escape(opening: Seq<char>, color: Narrow) -> Seq<char> {
    opening + decimal(color.r as nat) + ";"@ + decimal(color.g as nat) + ";"@ + decimal(
        color.b as nat,
    ) + "m"@
}

fn escape(opening: &str, color: Narrow) -> (escape: String)
    ensures
        escape@ == color_escape(opening@, color),
{
    let mut escape = opening.to_owned();
    escape.append(number(color.r as u128).as_str());
    escape.append(";");
    escape.append(number(color.g as u128).as_str());
    escape.append(";");
    escape.append(number(color.b as u128).as_str());
    escape.append("m");
    escape
}

/// The theme of two colours: the background of the row that has the focus, and the
/// text on it.
pub fn theme_of(active: Narrow, bright: Narrow) -> (theme: Theme)
    ensures
        theme.active_bg@ == color_escape("\x1b[48;2;"@, active),
        theme.bright_fg@ == color_escape("\x1b[38;2;"@, bright),
{
    Theme { active_bg: escape("\x1b[48;2;", active), bright_fg: escape("\x1b[38;2;", bright) }
}

/// An escape gives the red, the green and the blue of its colour in this order, as numerals
/// with semicolons between them, and closes with an `m`.
pub proof fn law_escape_gives_the_three_parts(opening: Seq<char>, color: Narrow)
    ensures
        exists|r: Seq<char>, g: Seq<char>, b: Seq<char>|
            {
                &&& #[trigger] value_of(r) == color.r
                &&& #[trigger] value_of(g) == color.g
                &&& #[trigger] value_of(b) == color.b
                &&& all_digits(r) && all_digits(g) && all_digits(b)
                &&& color_escape(opening, color) == opening + r + seq![';'] + g + seq![';'] + b
                    + seq!['m']
            },
{
    let r = decimal(color.r as nat);
    let g = decimal(color.g as nat);
    let b = decimal(color.b as nat);
    law_decimal_writes_the_number(color.r as nat);
    law_decimal_writes_the_number(color.g as nat);
    law_decimal_writes_the_number(color.b as nat);
    reveal_strlit(";");
    reveal_strlit("m");
    assert(";"@ =~= seq![';']);
    assert("m"@ =~= seq!['m']);
    assert(value_of(r) == color.r && value_of(g) == color.g && value_of(b) == color.b);
}

/// Each part of a colour adds its whole strength to the brightness.
pub proof fn law_brightness_adds_up(color: Wide, more: Wide)
    ensures
        color.luminance() == color.r as int + color.g as int + color.b as int,
        more.r >= color.r && more.g >= color.g && more.b >= color.b ==> more.luminance()
            >= color.luminance(),
{
}

/// A terminal is dark if and only if its text is no darker than its background, so of a pair of
/// colours and the same pair swapped one is dark at least, and both only if they are equally
/// bright.
pub proof fn law_dark_is_by_brightness(a: Wide, b: Wide)
    ensures
        looks_dark(a, b) || looks_dark(b, a),
        looks_dark(a, b) && looks_dark(b, a) <==> a.r + a.g + a.b == b.r + b.g + b.b,
        a.r + a.g + a.b < b.r + b.g + b.b ==> looks_dark(a, b) && !looks_dark(b, a),
{
}

/// A theme says both its escapes.
pub proof fn law_theme_says_both_escapes(theme: Theme)
    ensures
        theme_view(Some(theme)) == Some(theme@),
        theme@.active_bg == theme.active_bg@,
        theme@.bright_fg == theme.bright_fg@,
        theme_view(None) is None,
{
}

} // verus!
