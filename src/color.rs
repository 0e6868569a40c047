use vstd::prelude::*;

verus! {

/// An RGBA color with 8 bits per channel (straight, not premultiplied, alpha).
#[derive(Clone, Copy, Debug, PartialEq, Eq, Structural)]
pub struct Rgba {
    pub r: u8,
    pub g: u8,
    pub b: u8,
    pub a: u8,
}

/// The fully transparent color, all channels zero.
pub open spec fn transparent_color() -> Rgba {
    Rgba { r: 0, g: 0, b: 0, a: 0 }
}

impl Rgba {
    pub fn new(r: u8, g: u8, b: u8, a: u8) -> (c: Rgba)
        ensures
            c == (Rgba { r, g, b, a }),
    {
        Rgba { r, g, b, a }
    }

    pub fn transparent() -> (c: Rgba)
        ensures
            c == transparent_color(),
    {
        Rgba { r: 0, g: 0, b: 0, a: 0 }
    }

    /// The channels in the order red, green, blue, alpha.
    pub fn to_array(&self) -> (bytes: [u8; 4])
        ensures
            bytes@ == seq![self.r, self.g, self.b, self.a],
    {
        let bytes = [self.r, self.g, self.b, self.a];
        assert(bytes@ =~= seq![self.r, self.g, self.b, self.a]);
        bytes
    }
}

} // verus!
