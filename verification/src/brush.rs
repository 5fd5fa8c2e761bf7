use vstd::prelude::*;

verus! {

/// An RGBA color with eight bits per channel.
#[derive(Clone, Copy, PartialEq, Eq, Structural, Debug)]
pub struct Color {
    pub r: u8,
    pub g: u8,
    pub b: u8,
    pub a: u8,
}

impl Color {
    pub fn opaque(r: u8, g: u8, b: u8) -> (c: Color)
        ensures
            c == (Color { r, g, b, a: 255u8 }),
    {
        Color { r, g, b, a: 255 }
    }

    pub fn from_rgba(r: u8, g: u8, b: u8, a: u8) -> (c: Color)
        ensures
            c == (Color { r, g, b, a }),
    {
        Color { r, g, b, a }
    }

    pub fn white() -> (c: Color)
        ensures
            c == (Color { r: 255u8, g: 255u8, b: 255u8, a: 255u8 }),
    {
        Color { r: 255, g: 255, b: 255, a: 255 }
    }
}

/// How a region is painted. The renderer interprets it; the widget tree
/// only stores and forwards it.
#[derive(Clone, Copy, PartialEq, Eq, Structural, Debug)]
pub enum Brush {
    Solid(Color),
}

} // verus!
