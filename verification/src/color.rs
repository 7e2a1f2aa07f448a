//! Colors for rendered wireframes, with channels in thousandths
//! (0 is dark or transparent, 1000 is full intensity or opaque).

use vstd::prelude::*;

verus! {

#[derive(Clone, Copy, PartialEq, Eq, Structural, Debug)]
pub struct Color {
    pub r: u16,
    pub g: u16,
    pub b: u16,
    pub a: u16,
}

impl Color {
    pub fn rgba(r: u16, g: u16, b: u16, a: u16) -> (c: Color)
        ensures
            c == (Color { r, g, b, a }),
    {
        Color { r, g, b, a }
    }

    /// The same color with the alpha channel replaced.
    pub fn alpha(self, a: u16) -> (c: Color)
        ensures
            c == (Color { a, ..self }),
    {
        Color { a, ..self }
    }

    pub fn black() -> (c: Color)
        ensures
            c == (Color { r: 0, g: 0, b: 0, a: 1000 }),
    {
        Color { r: 0, g: 0, b: 0, a: 1000 }
    }

    pub fn green() -> (c: Color)
        ensures
            c == (Color { r: 0, g: 1000, b: 0, a: 1000 }),
    {
        Color { r: 0, g: 1000, b: 0, a: 1000 }
    }

    pub fn blue() -> (c: Color)
        ensures
            c == (Color { r: 0, g: 0, b: 1000, a: 1000 }),
    {
        Color { r: 0, g: 0, b: 1000, a: 1000 }
    }

    pub fn orange() -> (c: Color)
        ensures
            c == (Color { r: 1000, g: 500, b: 0, a: 1000 }),
    {
        Color { r: 1000, g: 500, b: 0, a: 1000 }
    }

    pub fn red() -> (c: Color)
        ensures
            c == (Color { r: 1000, g: 0, b: 0, a: 1000 }),
    {
        Color { r: 1000, g: 0, b: 0, a: 1000 }
    }

    pub fn violet() -> (c: Color)
        ensures
            c == (Color { r: 600, g: 0, b: 1000, a: 1000 }),
    {
        Color { r: 600, g: 0, b: 1000, a: 1000 }
    }

    pub fn yellow() -> (c: Color)
        ensures
            c == (Color { r: 1000, g: 1000, b: 0, a: 1000 }),
    {
        Color { r: 1000, g: 1000, b: 0, a: 1000 }
    }

    pub fn white() -> (c: Color)
        ensures
            c == (Color { r: 1000, g: 1000, b: 1000, a: 1000 }),
    {
        Color { r: 1000, g: 1000, b: 1000, a: 1000 }
    }

    pub fn pale() -> (c: Color)
        ensures
            c == (Color { r: 300, g: 300, b: 300, a: 100 }),
    {
        Color { r: 300, g: 300, b: 300, a: 100 }
    }

    pub fn gray() -> (c: Color)
        ensures
            c == (Color { r: 600, g: 600, b: 600, a: 1000 }),
    {
        Color { r: 600, g: 600, b: 600, a: 1000 }
    }
}

} // verus!
