use nu_ansi_term::{Color, Style};
use vstd::prelude::*;

verus! {

#[verifier::external_type_specification]
#[verifier::external_body]
pub struct ExStyle(Style);

#[verifier::external_type_specification]
#[verifier::external_body]
pub struct ExColor(Color);

/// The escape sequence that clears every style: ESC `[0m`.
pub open spec fn reset_spec() -> Seq<char> {
    seq!['\x1b', '[', '0', 'm']
}

/// Relies on nu_ansi_term::ansi::RESET, the code that ends any styled text.
#[verifier::external_body]
pub(crate) fn reset_code() -> (r: String)
    ensures
        r@ == reset_spec(),
{
    nu_ansi_term::ansi::RESET.to_string()
}

/// Relies on nu_ansi_term::Style::prefix, the codes that switch a terminal
/// to the style (none at all for a plain style).
#[verifier::external_body]
pub(crate) fn style_prefix(style: &Style) -> (r: String) {
    style.prefix().to_string()
}

/// Upper-case form of a text, character by character as Unicode defines it.
pub uninterp spec fn upper_of(s: Seq<char>) -> Seq<char>;

/// Relies on str::to_uppercase, whose result depends on the characters alone.
#[verifier::external_body]
pub(crate) fn to_upper(s: &str) -> (r: String)
    ensures
        r@ == upper_of(s@),
{
    s.to_uppercase()
}

/// Relies on nu_ansi_term::Color::normal: a style with this foreground colour.
#[verifier::external_body]
fn color_normal(color: &Color) -> (r: Style) {
    color.normal()
}

/// Relies on nu_ansi_term::Color::bold: a bold style with this foreground colour.
#[verifier::external_body]
fn color_bold(color: &Color) -> (r: Style) {
    color.bold()
}

/// Relies on nu_ansi_term::Style::reverse: the style with colours swapped.
#[verifier::external_body]
fn style_reverse(style: &Style) -> (r: Style) {
    style.reverse()
}

/// Relies on nu_ansi_term's colour names.
#[verifier::external_body]
fn named_color(name: MenuColor) -> (r: Color) {
    match name {
        MenuColor::Green => Color::Green,
        MenuColor::DarkGray => Color::DarkGray,
        MenuColor::Yellow => Color::Yellow,
    }
}

/// The colours the default menu styles are made of.
pub enum MenuColor {
    Green,
    DarkGray,
    Yellow,
}

/// Styles of the three kinds of text in a menu.
pub struct MenuTextStyle {
    /// Style of the selected suggestion
    pub selected_text_style: Style,
    /// Style of the other suggestions
    pub text_style: Style,
    /// Style of the descriptions
    pub description_style: Style,
}

impl Default for MenuTextStyle {
    fn default() -> (r: Self) {
        let green = named_color(MenuColor::Green);
        let gray = named_color(MenuColor::DarkGray);
        let yellow = named_color(MenuColor::Yellow);
        let bold_green = color_bold(&green);
        MenuTextStyle {
            selected_text_style: style_reverse(&bold_green),
            text_style: color_normal(&gray),
            description_style: color_normal(&yellow),
        }
    }
}

} // verus!
