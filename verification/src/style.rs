//! Cells and their styles.
use vstd::prelude::*;

verus! {

/// A colour as the terminal stores it: either a 24-bit sRGB value or
/// one of the sixteen ANSI palette entries.
///
/// Palette entries `0..8` are the standard colours (black, dark red,
/// green, olive, navy, purple, teal, silver) and `8..16` their bright
/// variants (gray, red, lime, yellow, blue, fuchsia, aqua, white).
/// The renderer decides which concrete colour each entry stands for.
#[derive(Clone, Copy, Debug, PartialEq, Eq, Structural)]
pub enum VtColor {
    Rgb(u8, u8, u8),
    Palette(u8),
}

/// The palette entry of bright white, the default foreground.
pub open spec fn default_fg() -> VtColor {
    VtColor::Palette(15)
}

/// The palette entry of black, the default background.
pub open spec fn default_bg() -> VtColor {
    VtColor::Palette(0)
}

/// Text styles for [`VtCell`]s.
#[derive(Clone, Copy, Debug, PartialEq, Eq, Structural)]
pub struct VtCellStyle {
    pub color: VtColor,
    pub background: VtColor,
}

/// The style of a cell nobody has styled: white on black.
pub open spec fn default_style() -> VtCellStyle {
    VtCellStyle { color: default_fg(), background: default_bg() }
}

impl Default for VtCellStyle {
    fn default() -> (s: VtCellStyle)
        ensures
            s == default_style(),
    {
        VtCellStyle { color: VtColor::Palette(15), background: VtColor::Palette(0) }
    }
}

/// A single cell within a line. The basic building block of the terminal.
#[derive(Clone, Copy, Debug, PartialEq, Eq, Structural)]
pub struct VtCell {
    pub value: char,
    pub style: VtCellStyle,
}

/// The cell holding `value` in `style`.
pub open spec fn styled_cell(value: char, style: VtCellStyle) -> VtCell {
    VtCell { value, style }
}

/// A blank cell in the default style.
pub open spec fn default_cell() -> VtCell {
    VtCell { value: ' ', style: default_style() }
}

/// A blank cell in the given style.
pub open spec fn blank_cell(style: VtCellStyle) -> VtCell {
    VtCell { value: ' ', style }
}

impl Default for VtCell {
    fn default() -> (c: VtCell)
        ensures
            c == default_cell(),
    {
        VtCell { value: ' ', style: VtCellStyle::default() }
    }
}

impl VtCell {
    pub fn new(value: char) -> (c: VtCell)
        ensures
            c == (VtCell { value, style: default_style() }),
    {
        VtCell { value, style: VtCellStyle::default() }
    }

    pub fn with_style(self, style: VtCellStyle) -> (c: VtCell)
        ensures
            c == (VtCell { value: self.value, style }),
    {
        let mut c = self;
        c.style = style;
        c
    }
}

/// The palette entry that an SGR palette code selects: `x % 10` for the
/// standard codes (30–37, 40–47) and `8 + x % 10` for the bright ones.
pub open spec fn spec_palette_color(digit: int, is_standard: bool) -> VtColor {
    if is_standard {
        VtColor::Palette(digit as u8)
    } else {
        VtColor::Palette((digit + 8) as u8)
    }
}

/// Selects the palette entry for the last digit of an SGR palette code.
pub fn palette_color(digit: u16, is_standard: bool) -> (c: VtColor)
    requires
        digit < 8,
    ensures
        c == spec_palette_color(digit as int, is_standard),
{
    let d = digit as u8;
    if is_standard {
        VtColor::Palette(d)
    } else {
        VtColor::Palette(d + 8)
    }
}

} // verus!
