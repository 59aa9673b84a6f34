//! Colors, and their packing into the `0xRRGGBB` words of a pixel buffer.

use vstd::prelude::*;

verus! {

/// An opaque color with eight bits per channel.
#[derive(Clone, Copy, Debug, PartialEq, Eq, Structural)]
pub struct Color {
    pub r: u8,
    pub g: u8,
    pub b: u8,
}

/// The color that a packed word stands for; bits above the red channel are ignored.
pub open spec fn color_of_hex(hex: u32) -> Color {
    Color {
        r: ((hex as int / 65536) % 256) as u8,
        g: ((hex as int / 256) % 256) as u8,
        b: (hex as int % 256) as u8,
    }
}

impl Color {
    /// The packed word `0xRRGGBB` of this color.
    pub open spec fn hex(self) -> u32 {
        (self.r as int * 65536 + self.g as int * 256 + self.b as int) as u32
    }

    /// Builds a color from its three channels.
    pub fn new(r: u8, g: u8, b: u8) -> (color: Color)
        ensures
            color == (Color { r, g, b }),
    {
        Color { r, g, b }
    }

    /// Unpacks a `0xRRGGBB` word.
    pub fn from_hex(hex: u32) -> (color: Color)
        ensures
            color == color_of_hex(hex),
    {
        let r: u32 = (hex / 65536) % 256;
        let g: u32 = (hex / 256) % 256;
        let b: u32 = hex % 256;
        Color { r: r as u8, g: g as u8, b: b as u8 }
    }

    /// Packs the color into a `0xRRGGBB` word.
    pub fn to_hex(&self) -> (hex: u32)
        ensures
            hex == self.hex(),
            hex < 0x100_0000,
    {
        (self.r as u32) * 65536 + (self.g as u32) * 256 + (self.b as u32)
    }
}

impl From<u32> for Color {
    fn from(hex: u32) -> (color: Color) {
        Color::from_hex(hex)
    }
}

impl vstd::std_specs::convert::FromSpecImpl<u32> for Color {
    open spec fn obeys_from_spec() -> bool {
        true
    }

    open spec fn from_spec(hex: u32) -> Color {
        color_of_hex(hex)
    }
}

} // verus!
