//! The look of a cell: its colours and text attributes.
use vstd::prelude::*;

verus! {

/// A terminal colour.
#[derive(Clone, Copy, Debug, PartialEq, Eq, Hash, Structural)]
pub enum Color {
    /// Whatever colour the terminal uses when none is set.
    Reset,
    /// An entry of the terminal's palette of 256 colours.
    Indexed(u8),
    /// A colour given by its red, green and blue parts.
    Rgb(u8, u8, u8),
}

/// How a cell is drawn: foreground, background and a set of text attributes.
///
/// The grid only stores and compares styles; it never looks inside one.
#[derive(Clone, Copy, Debug, PartialEq, Eq, Hash, Structural)]
pub struct Style {
    pub fg: Color,
    pub bg: Color,
    /// Text attributes such as bold or underline, one bit each.
    pub modifiers: u16,
}

impl Style {
    /// The style of a cell nobody has drawn on: the terminal's own colours
    /// and no attribute.
    pub open spec fn plain() -> Style {
        Style { fg: Color::Reset, bg: Color::Reset, modifiers: 0 }
    }

    /// A style with the given colours and attributes.
    pub fn new(fg: Color, bg: Color, modifiers: u16) -> (r: Style)
        ensures
            r == (Style { fg, bg, modifiers }),
    {
        Style { fg, bg, modifiers }
    }
}

impl Default for Style {
    /// The plain style.
    fn default() -> (r: Style)
        ensures
            r == Style::plain(),
    {
        Style { fg: Color::Reset, bg: Color::Reset, modifiers: 0 }
    }
}

} // verus!
