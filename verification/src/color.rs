//! Palette indices and the brush glyph.
use vstd::prelude::*;

verus! {

/// A palette index: a single byte naming a color by reference into an
/// external palette table. Index `Color::BG_COLOR` is reserved for the
/// background.
#[derive(Debug, PartialEq, Eq, Clone, Copy, Structural)]
pub struct Color(pub u8);

impl Color {
    /// The background color index; not user-configurable.
    pub const BG_COLOR: u8 = 0;

    /// The largest palette index.
    pub const MAX: u8 = 255;

    /// The reserved background color.
    pub fn background() -> (c: Color)
        ensures
            c == Color(Color::BG_COLOR),
    {
        Color(Color::BG_COLOR)
    }
}

impl From<u8> for Color {
    fn from(color: u8) -> (c: Color) {
        Color(color)
    }
}

impl vstd::std_specs::convert::FromSpecImpl<u8> for Color {
    open spec fn obeys_from_spec() -> bool {
        true
    }

    open spec fn from_spec(color: u8) -> Color {
        Color(color)
    }
}

impl From<Color> for u8 {
    fn from(src: Color) -> (v: u8) {
        src.0
    }
}

impl vstd::std_specs::convert::FromSpecImpl<Color> for u8 {
    open spec fn obeys_from_spec() -> bool {
        true
    }

    open spec fn from_spec(src: Color) -> u8 {
        src.0
    }
}

impl Default for Color {
    /// The default color is the background.
    fn default() -> (c: Color)
        ensures
            c == Color(Color::BG_COLOR),
    {
        Color(Color::BG_COLOR)
    }
}

/// The glyph a drawing cursor paints with.
#[derive(Debug, PartialEq, Eq, Clone, Copy, Structural)]
pub struct Brush(pub char);

impl Brush {
    /// The default brush: a solid block glyph.
    pub fn default_brush() -> (b: Brush)
        ensures
            b == Brush('\u{2588}'),
    {
        Brush('\u{2588}')
    }
}

} // verus!
