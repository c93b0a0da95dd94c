//! RGBA colours.
use vstd::prelude::*;

verus! {

#[derive(Clone, Copy, Debug, Default, PartialEq, Eq, Structural, Hash)]
pub struct Color {
    pub r: u8,
    pub g: u8,
    pub b: u8,
    pub a: u8,
}

/// Shorthand for a colour with all four channels given.
pub fn color(r: u8, g: u8, b: u8, a: u8) -> (c: Color)
    ensures
        c == (Color { r, g, b, a }),
{
    Color { r, g, b, a }
}

impl Color {
    /// The packed form `0xRRGGBBAA`.
    pub open spec fn packed(self) -> u32 {
        ((self.r as u32) << 24u32) | ((self.g as u32) << 16u32) | ((self.b as u32) << 8u32) | (
        self.a as u32)
    }

    pub fn rgb(r: u8, g: u8, b: u8) -> (c: Color)
        ensures
            c == (Color { r, g, b, a: 255 }),
    {
        Self::rgba(r, g, b, 255)
    }

    pub fn rgba(r: u8, g: u8, b: u8, a: u8) -> (c: Color)
        ensures
            c == (Color { r, g, b, a }),
    {
        Color { r, g, b, a }
    }

    /// Unpacks `0xRRGGBBAA`.
    pub fn hex(val: u32) -> (c: Color)
        ensures
            c == Color::hex_spec(val),
            c.packed() == val,
    {
        proof {
            assert((val >> 24u32) & 0xff <= 0xff) by (bit_vector);
            assert((val >> 16u32) & 0xff <= 0xff) by (bit_vector);
            assert((val >> 8u32) & 0xff <= 0xff) by (bit_vector);
            assert(val & 0xff <= 0xff) by (bit_vector);
        }
        let c = Color {
            r: ((val >> 24u32) & 0xff) as u8,
            g: ((val >> 16u32) & 0xff) as u8,
            b: ((val >> 8u32) & 0xff) as u8,
            a: (val & 0xff) as u8,
        };
        assert(((((val >> 24u32) & 0xff) as u8 as u32) << 24u32) | ((((val >> 16u32) & 0xff) as u8
            as u32) << 16u32) | ((((val >> 8u32) & 0xff) as u8 as u32) << 8u32) | ((val & 0xff) as u8
            as u32) == val) by (bit_vector);
        c
    }

    /// Packs the channels as `0xRRGGBBAA`.
    pub fn to_hex(&self) -> (v: u32)
        ensures
            v == self.packed(),
            Color::hex_spec(v) == *self,
    {
        let r = self.r as u32;
        let g = self.g as u32;
        let b = self.b as u32;
        let a = self.a as u32;
        let v = (r << 24u32) | (g << 16u32) | (b << 8u32) | a;
        proof {
            let (r8, g8, b8, a8) = (self.r, self.g, self.b, self.a);
            assert(((((r8 as u32) << 24u32) | ((g8 as u32) << 16u32) | ((b8 as u32) << 8u32) | (
            a8 as u32)) >> 24u32) & 0xff == r8 as u32) by (bit_vector);
            assert(((((r8 as u32) << 24u32) | ((g8 as u32) << 16u32) | ((b8 as u32) << 8u32) | (
            a8 as u32)) >> 16u32) & 0xff == g8 as u32) by (bit_vector);
            assert(((((r8 as u32) << 24u32) | ((g8 as u32) << 16u32) | ((b8 as u32) << 8u32) | (
            a8 as u32)) >> 8u32) & 0xff == b8 as u32) by (bit_vector);
            assert((((r8 as u32) << 24u32) | ((g8 as u32) << 16u32) | ((b8 as u32) << 8u32) | (
            a8 as u32)) & 0xff == a8 as u32) by (bit_vector);
        }
        v
    }

    /// The colour that `hex` gives for `val`.
    pub open spec fn hex_spec(val: u32) -> Color {
        Color {
            r: ((val >> 24u32) & 0xff) as u8,
            g: ((val >> 16u32) & 0xff) as u8,
            b: ((val >> 8u32) & 0xff) as u8,
            a: (val & 0xff) as u8,
        }
    }
}

impl From<(u8, u8, u8, u8)> for Color {
    fn from(t: (u8, u8, u8, u8)) -> (c: Color) {
        Color::rgba(t.0, t.1, t.2, t.3)
    }
}

impl vstd::std_specs::convert::FromSpecImpl<(u8, u8, u8, u8)> for Color {
    open spec fn obeys_from_spec() -> bool {
        true
    }

    open spec fn from_spec(t: (u8, u8, u8, u8)) -> Color {
        Color { r: t.0, g: t.1, b: t.2, a: t.3 }
    }
}

impl From<[u8; 4]> for Color {
    fn from(v: [u8; 4]) -> (c: Color) {
        Color { r: v[0], g: v[1], b: v[2], a: v[3] }
    }
}

impl vstd::std_specs::convert::FromSpecImpl<[u8; 4]> for Color {
    open spec fn obeys_from_spec() -> bool {
        true
    }

    open spec fn from_spec(v: [u8; 4]) -> Color {
        Color { r: v[0], g: v[1], b: v[2], a: v[3] }
    }
}

impl From<Color> for [u8; 4] {
    fn from(c: Color) -> (v: [u8; 4]) {
        [c.r, c.g, c.b, c.a]
    }
}

impl vstd::std_specs::convert::FromSpecImpl<Color> for [u8; 4] {
    open spec fn obeys_from_spec() -> bool {
        true
    }

    open spec fn from_spec(c: Color) -> [u8; 4] {
        [c.r, c.g, c.b, c.a]
    }
}

} // verus!
