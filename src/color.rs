//! RGBA colors.
use vstd::prelude::*;

verus! {

/// An RGBA color.
#[derive(Clone, Copy, Debug, PartialEq, Eq, Structural)]
pub struct Color {
    pub r: u8,
    pub g: u8,
    pub b: u8,
    pub a: u8,
}

/// The opaque color with channels `r`, `g`, `b`.
pub open spec fn rgb(r: u8, g: u8, b: u8) -> Color {
    Color { r, g, b, a: 255 }
}

impl Color {
    /// An opaque color.
    pub fn new(r: u8, g: u8, b: u8) -> (c: Color)
        ensures
            c == (Color { r, g, b, a: 255 }),
    {
        Color { r, g, b, a: 255 }
    }

    /// A color with the given alpha.
    pub fn new_alpha(r: u8, g: u8, b: u8, a: u8) -> (c: Color)
        ensures
            c == (Color { r, g, b, a }),
    {
        Color { r, g, b, a }
    }

    /// Opaque black.
    pub fn black() -> (c: Color)
        ensures
            c == rgb(0, 0, 0),
    {
        Color { r: 0, g: 0, b: 0, a: 255 }
    }

    /// Opaque white.
    pub fn white() -> (c: Color)
        ensures
            c == rgb(255, 255, 255),
    {
        Color { r: 255, g: 255, b: 255, a: 255 }
    }

    /// Opaque grey.
    pub fn grey() -> (c: Color)
        ensures
            c == rgb(192, 192, 192),
    {
        Color { r: 192, g: 192, b: 192, a: 255 }
    }

    /// Opaque dark grey.
    pub fn dark_grey() -> (c: Color)
        ensures
            c == rgb(128, 128, 128),
    {
        Color { r: 128, g: 128, b: 128, a: 255 }
    }

    /// Opaque very dark grey.
    pub fn very_dark_grey() -> (c: Color)
        ensures
            c == rgb(64, 64, 64),
    {
        Color { r: 64, g: 64, b: 64, a: 255 }
    }

    /// Opaque red.
    pub fn red() -> (c: Color)
        ensures
            c == rgb(255, 0, 0),
    {
        Color { r: 255, g: 0, b: 0, a: 255 }
    }

    /// Opaque green.
    pub fn green() -> (c: Color)
        ensures
            c == rgb(0, 255, 0),
    {
        Color { r: 0, g: 255, b: 0, a: 255 }
    }

    /// Opaque dark green.
    pub fn dark_green() -> (c: Color)
        ensures
            c == rgb(0, 128, 0),
    {
        Color { r: 0, g: 128, b: 0, a: 255 }
    }

    /// Opaque very dark green.
    pub fn very_dark_green() -> (c: Color)
        ensures
            c == rgb(0, 64, 0),
    {
        Color { r: 0, g: 64, b: 0, a: 255 }
    }

    /// Opaque magenta.
    pub fn magenta() -> (c: Color)
        ensures
            c == rgb(255, 0, 255),
    {
        Color { r: 255, g: 0, b: 255, a: 255 }
    }
}

} // verus!
