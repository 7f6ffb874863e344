//! 24-bit RGB colors with saturating light accumulation.

use vstd::prelude::*;

verus! {

/// An 8-bit-per-channel RGB color.
#[derive(Clone, Copy, Debug, PartialEq, Eq, Structural)]
pub struct Color {
    pub r: u8,
    pub g: u8,
    pub b: u8,
}

/// Weights of the luminance formula, in ten-thousandths.
pub const GRAY_RED: u32 = 2989;

pub const GRAY_GREEN: u32 = 5870;

pub const GRAY_BLUE: u32 = 1140;

pub const GRAY_SCALE: u32 = 10000;

/// The sum of two channels, held at 255.
pub open spec fn saturating_channel(a: u8, b: u8) -> u8 {
    if a + b > 255 {
        255u8
    } else {
        (a + b) as u8
    }
}

/// A channel multiplied by `numer / denom`, truncated toward zero and held at 255.
pub open spec fn scaled_channel(c: u8, numer: u32, denom: u32) -> u8
    recommends
        denom > 0,
{
    if (c as int * numer as int) / (denom as int) > 255 {
        255u8
    } else {
        ((c as int * numer as int) / (denom as int)) as u8
    }
}

impl Color {
    /// The color that `0xRRGGBB` denotes; bits above the low 24 are ignored.
    pub open spec fn from_hex(hex: u32) -> Color {
        Color {
            r: ((hex as int / 0x10000) % 0x100) as u8,
            g: ((hex as int / 0x100) % 0x100) as u8,
            b: (hex as int % 0x100) as u8,
        }
    }

    /// Luminance of the color: `floor(0.2989 r + 0.5870 g + 0.1140 b)`.
    pub open spec fn luminance(self) -> int {
        (GRAY_RED * self.r + GRAY_GREEN * self.g + GRAY_BLUE * self.b) / (GRAY_SCALE as int)
    }

    /// The gray of the same luminance.
    pub open spec fn gray(self) -> Color {
        Color { r: self.luminance() as u8, g: self.luminance() as u8, b: self.luminance() as u8 }
    }

    /// Channel-wise saturating sum.
    pub open spec fn plus(self, rhs: Color) -> Color {
        Color {
            r: saturating_channel(self.r, rhs.r),
            g: saturating_channel(self.g, rhs.g),
            b: saturating_channel(self.b, rhs.b),
        }
    }

    /// Channel-wise product with `numer / denom`.
    pub open spec fn scaled(self, numer: u32, denom: u32) -> Color {
        Color {
            r: scaled_channel(self.r, numer, denom),
            g: scaled_channel(self.g, numer, denom),
            b: scaled_channel(self.b, numer, denom),
        }
    }

    /// Black, the color of an unlit cell.
    pub fn black() -> (color: Color)
        ensures
            color == (Color { r: 0, g: 0, b: 0 }),
            color == Color::from_hex(0),
    {
        Color { r: 0, g: 0, b: 0 }
    }

    pub fn new(hex: u32) -> (color: Color)
        ensures
            color == Color::from_hex(hex),
    {
        let r: u32 = hex >> 16 & 0xff;
        let g: u32 = hex >> 8 & 0xff;
        let b: u32 = hex & 0xff;
        assert(r == (hex / 0x10000) % 0x100 && r < 0x100) by (bit_vector)
            requires
                r == hex >> 16 & 0xff,
        ;
        assert(g == (hex / 0x100) % 0x100 && g < 0x100) by (bit_vector)
            requires
                g == hex >> 8 & 0xff,
        ;
        assert(b == hex % 0x100 && b < 0x100) by (bit_vector)
            requires
                b == hex & 0xff,
        ;
        Color { r: r as u8, g: g as u8, b: b as u8 }
    }

    pub fn to_gray(self) -> (gray: Color)
        ensures
            gray == self.gray(),
            gray.r == gray.g == gray.b,
            gray.r == (2989 * self.r + 5870 * self.g + 1140 * self.b) / 10000,
    {
        let weighted: u32 = GRAY_RED * (self.r as u32) + GRAY_GREEN * (self.g as u32) + GRAY_BLUE * (
        self.b as u32);
        let gray: u32 = weighted / GRAY_SCALE;
        Color { r: gray as u8, g: gray as u8, b: gray as u8 }
    }

    /// Multiplies every channel by `numer / denom`, truncating toward zero;
    /// a channel that would pass 255 stays at 255.
    pub fn scale(self, numer: u32, denom: u32) -> (scaled: Color)
        requires
            denom > 0,
        ensures
            scaled == self.scaled(numer, denom),
    {
        Color {
            r: scale_channel(self.r, numer, denom),
            g: scale_channel(self.g, numer, denom),
            b: scale_channel(self.b, numer, denom),
        }
    }
}

fn scale_channel(c: u8, numer: u32, denom: u32) -> (scaled: u8)
    requires
        denom > 0,
    ensures
        scaled == scaled_channel(c, numer, denom),
{
    assert(c as int * numer as int <= 255 * 0xffff_ffff) by (nonlinear_arith)
        requires
            c <= 255,
            numer <= 0xffff_ffff,
    ;
    let product: u64 = (c as u64) * (numer as u64) / (denom as u64);
    if product > 255 {
        255
    } else {
        product as u8
    }
}

impl Default for Color {
    fn default() -> (color: Color)
        ensures
            color == (Color { r: 0, g: 0, b: 0 }),
    {
        Color { r: 0, g: 0, b: 0 }
    }
}

impl core::ops::Add for Color {
    type Output = Color;

    fn add(self, rhs: Color) -> (sum: Color) {
        Color {
            r: self.r.saturating_add(rhs.r),
            g: self.g.saturating_add(rhs.g),
            b: self.b.saturating_add(rhs.b),
        }
    }
}

impl vstd::std_specs::ops::AddSpecImpl for Color {
    open spec fn obeys_add_spec() -> bool {
        true
    }

    open spec fn add_req(self, rhs: Color) -> bool {
        true
    }

    open spec fn add_spec(self, rhs: Color) -> Color {
        self.plus(rhs)
    }
}

impl core::ops::AddAssign for Color {
    fn add_assign(&mut self, other: Color)
        ensures
            *final(self) == old(self).plus(other),
    {
        *self = *self + other;
    }
}

/// Whatever `0xRRGGBB` is given, its gray has three equal channels that hold
/// `floor(0.2989 R + 0.5870 G + 0.1140 B)`.
pub proof fn lemma_gray_of_hex(hex: u32)
    ensures
        Color::from_hex(hex).gray().r == Color::from_hex(hex).gray().g,
        Color::from_hex(hex).gray().g == Color::from_hex(hex).gray().b,
        Color::from_hex(hex).gray().r as int == (2989 * ((hex as int / 0x10000) % 0x100) + 5870 * ((
        hex as int / 0x100) % 0x100) + 1140 * (hex as int % 0x100)) / 10000,
{
}

/// Adding light never darkens a channel, and white absorbs every color.
pub proof fn lemma_add_saturates(a: Color, b: Color)
    ensures
        a.plus(b).r >= a.r && a.plus(b).g >= a.g && a.plus(b).b >= a.b,
        a.plus(b) == b.plus(a),
        Color::from_hex(0xFFFFFF).plus(b) == Color::from_hex(0xFFFFFF),
{
}

} // verus!
