use vstd::prelude::*;
use crate::host::PaletteColor;

verus! {

/// An injective integer encoding of a color, used to state what painting
/// returns as a function of plain values.
pub open spec fn color_code(c: PaletteColor) -> int {
    match c {
        PaletteColor::Rgb(r, g, b) => (r as int) * 65536 + (g as int) * 256 + (b as int),
        PaletteColor::EightBit(n) => 16777216 + (n as int),
    }
}

/// The escape-wrapped text the styling crate produces for the given
/// foreground, background, boldness and text; a function of those
/// arguments alone.
pub uninterp spec fn painted(fg: int, bg: int, bold: bool, text: Seq<char>) -> Seq<char>;

/// Relies on ansi_term's `Style::paint` (rendered through `Display`): the
/// styled string depends only on the two colors, the bold flag and the
/// text painted.
#[verifier::external_body]
pub(crate) fn paint(fg: PaletteColor, bg: PaletteColor, bold: bool, text: &str) -> (r: String)
    ensures
        r@ == painted(color_code(fg), color_code(bg), bold, text@),
{
    let f = match fg {
        PaletteColor::Rgb(r, g, b) => ansi_term::Colour::RGB(r, g, b),
        PaletteColor::EightBit(n) => ansi_term::Colour::Fixed(n),
    };
    let b = match bg {
        PaletteColor::Rgb(r, g, b) => ansi_term::Colour::RGB(r, g, b),
        PaletteColor::EightBit(n) => ansi_term::Colour::Fixed(n),
    };
    let style = ansi_term::Style::new().fg(f).on(b);
    let style = if bold { style.bold() } else { style };
    style.paint(text).to_string()
}

} // verus!
