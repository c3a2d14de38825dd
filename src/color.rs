use vstd::prelude::*;

verus! {

/// A color with three independent 8-bit channels and no alpha.
#[derive(Clone, Copy, Debug, PartialEq, Eq, Structural)]
pub struct Rgb {
    pub r: u8,
    pub g: u8,
    pub b: u8,
}

impl Rgb {
    pub fn new(r: u8, g: u8, b: u8) -> (c: Rgb)
        ensures
            c == (Rgb { r, g, b }),
    {
        Rgb { r, g, b }
    }

    /// The value of channel `ch` (0 is red, 1 green, 2 blue).
    pub open spec fn channel(self, ch: int) -> u8 {
        if ch == 0 {
            self.r
        } else if ch == 1 {
            self.g
        } else {
            self.b
        }
    }
}

/// The preset background colors.
#[derive(Clone, Copy, Debug, PartialEq, Eq, Structural)]
pub enum Colour {
    Black,
    Grey,
    LightGrey,
    White,
}

impl Colour {
    pub open spec fn spec_rgb(self) -> Rgb {
        match self {
            Colour::Black => Rgb { r: 0, g: 0, b: 0 },
            Colour::Grey => Rgb { r: 127, g: 127, b: 127 },
            Colour::LightGrey => Rgb { r: 191, g: 191, b: 191 },
            Colour::White => Rgb { r: 255, g: 255, b: 255 },
        }
    }

    /// The gray level of the preset, in all three channels.
    pub fn rgb(&self) -> (c: Rgb)
        ensures
            c == self.spec_rgb(),
    {
        match self {
            Colour::Black => Rgb { r: 0, g: 0, b: 0 },
            Colour::Grey => Rgb { r: 127, g: 127, b: 127 },
            Colour::LightGrey => Rgb { r: 191, g: 191, b: 191 },
            Colour::White => Rgb { r: 255, g: 255, b: 255 },
        }
    }
}

} // verus!

verus! {

/// Relies on rand::random: a value drawn from the thread-local generator.
/// Nothing is known of it.
pub assume_specification<T>[ rand::random::<T> ]() -> (r: T)
    where
        rand::distributions::Standard: rand::distributions::Distribution<T>,
;

impl Rgb {
    /// A color whose channels are drawn at random.
    pub fn random() -> (c: Rgb) {
        let r: u8 = rand::random::<u8>();
        let g: u8 = rand::random::<u8>();
        let b: u8 = rand::random::<u8>();
        Rgb { r, g, b }
    }
}

} // verus!
