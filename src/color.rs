use vstd::prelude::*;

verus! {

/// The hues of the palette, in palette order.
#[derive(PartialEq, Eq, Structural, Clone, Copy, Debug)]
pub enum Hue {
    Red,
    Orange,
    Yellow,
    Lime,
    Green,
    Cyan,
    Azure,
    Blue,
    Indigo,
    Violet,
    Pink,
    White,
}

/// A palette colour: a hue and a brightness value.
#[derive(PartialEq, Eq, Structural, Clone, Copy, Debug)]
pub struct Color {
    pub hue: Hue,
    pub value: u8,
}

impl Color {
    pub fn new(hue: Hue, value: u8) -> (c: Color)
        ensures
            c == (Color { hue, value }),
    {
        Color { hue: hue, value: value }
    }

    /// The same hue at half the brightness, rounded down.
    pub fn darker(&self) -> (c: Color)
        ensures
            c == (Color { hue: self.hue, value: self.value / 2 }),
    {
        Color::new(self.hue, self.value / 2)
    }
}

} // verus!
