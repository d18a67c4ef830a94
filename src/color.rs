use vstd::prelude::*;

verus! {

/// A color with three 8-bit channels.
#[derive(Clone, Copy, Debug, PartialEq, Eq, Structural)]
pub struct Color {
    pub red: u8,
    pub green: u8,
    pub blue: u8,
}

impl Color {
    /// The background color every cell starts with.
    pub open spec fn background() -> Color {
        Color { red: 0, green: 0, blue: 0 }
    }

    pub fn rgb(red: u8, green: u8, blue: u8) -> (c: Color)
        ensures
            c == (Color { red, green, blue }),
    {
        Color { red, green, blue }
    }

    pub fn black() -> (c: Color)
        ensures
            c == Color::background(),
    {
        Color { red: 0, green: 0, blue: 0 }
    }

    pub fn white() -> (c: Color)
        ensures
            c == (Color { red: 255, green: 255, blue: 255 }),
    {
        Color { red: 255, green: 255, blue: 255 }
    }
}

impl Default for Color {
    fn default() -> (c: Color)
        ensures
            c == Color::background(),
    {
        Color::black()
    }
}

} // verus!
