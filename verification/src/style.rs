use vstd::prelude::*;

verus! {

/// A terminal foreground or background color.
#[derive(Clone, Copy, PartialEq, Eq, Structural, Debug)]
pub enum Color {
    Reset,
    Black,
    Red,
    Green,
    Yellow,
    Blue,
    Magenta,
    Cyan,
    Gray,
    White,
}

/// A cell style: foreground and background color plus attribute bits.
///
/// The attribute bits carry emphasis flags (bold, underline, ...) chosen by
/// the caller's frontend; the core never interprets them, it only stores and
/// copies them.
#[derive(Clone, Copy, PartialEq, Eq, Structural, Debug)]
pub struct Style {
    pub fg: Color,
    pub bg: Color,
    pub modifier: u16,
}

/// The empty/inherit style: both colors reset, no attributes.
pub open spec fn spec_empty_style() -> Style {
    Style { fg: Color::Reset, bg: Color::Reset, modifier: 0u16 }
}

impl Default for Style {
    /// The empty/inherit style: both colors reset, no attributes.
    fn default() -> (s: Style)
        ensures
            s == spec_empty_style(),
    {
        Style { fg: Color::Reset, bg: Color::Reset, modifier: 0u16 }
    }
}

/// One buffer cell: a single displayable character and its style.
#[derive(Clone, Copy, PartialEq, Eq, Structural, Debug)]
pub struct Cell {
    pub symbol: char,
    pub style: Style,
}

} // verus!
