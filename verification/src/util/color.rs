//! Colours: fixed-point red, green and blue.

use vstd::prelude::*;
use crate::geom::fast::{div_floor, mul_wide, ONE};

verus! {

/// Largest channel magnitude that colour arithmetic accepts.
pub const CHANNEL_MAX: i64 = 0x100_0000_0000;

/// An RGB colour triplet. Each channel is a fixed-point number: `ONE` is full intensity.
#[derive(Clone, Copy, Debug, PartialEq, Eq, Structural)]
pub struct Color {
    pub r: i64,
    pub g: i64,
    pub b: i64,
}

/// `x` limited to the range from `a` to `b`.
pub open spec fn clamp_spec(x: int, a: int, b: int) -> int {
    if x < a {
        a
    } else if x > b {
        b
    } else {
        x
    }
}

/// One channel of a mix: `a` weighted by `1 - f` plus `b` weighted by `f`,
/// for a fixed-point factor `f` limited to the range from zero to one.
pub open spec fn mix_spec(a: int, b: int, f: int) -> int {
    (a * (ONE - clamp_spec(f, 0, ONE as int)) + b * clamp_spec(f, 0, ONE as int)) / (ONE as int)
}

/// A channel as an 8-bit value: full intensity is 255, and out-of-range channels are limited.
pub open spec fn channel8(c: int) -> int {
    (clamp_spec(c, 0, ONE as int) * 255) / (ONE as int)
}

fn clamp(x: i64, a: i64, b: i64) -> (r: i64)
    ensures
        r == clamp_spec(x as int, a as int, b as int),
{
    if x < a {
        a
    } else if x > b {
        b
    } else {
        x
    }
}

fn mix_channel(a: i64, b: i64, f: i64) -> (r: i64)
    requires
        -CHANNEL_MAX <= a <= CHANNEL_MAX,
        -CHANNEL_MAX <= b <= CHANNEL_MAX,
        0 <= f <= ONE,
    ensures
        r == (a * (ONE - f) + b * f) / (ONE as int),
        -CHANNEL_MAX <= r <= CHANNEL_MAX,
{
    let g: i128 = 65536 - f as i128;
    proof {
        assert(-0x100_0000_0000 * g <= a * g <= 0x100_0000_0000 * g) by (nonlinear_arith)
            requires
                -0x100_0000_0000 <= a <= 0x100_0000_0000,
                0 <= g,
        ;
        assert(-0x100_0000_0000 * f <= b * f <= 0x100_0000_0000 * f) by (nonlinear_arith)
            requires
                -0x100_0000_0000 <= b <= 0x100_0000_0000,
                0 <= f,
        ;
    }
    let x: i128 = mul_wide(a as i128, g, Ghost(0x100_0000_0000), Ghost(65536));
    let y: i128 = mul_wide(b as i128, f as i128, Ghost(0x100_0000_0000), Ghost(65536));
    let s: i128 = x + y;
    let q: i128 = div_floor(s, 65536);
    proof {
        assert(-0x100_0000_0000 <= s / 65536 <= 0x100_0000_0000) by (nonlinear_arith)
            requires
                -0x100_0000_0000 * 65536 <= s <= 0x100_0000_0000 * 65536,
        ;
    }
    q as i64
}

fn to8(c: i64) -> (r: u8)
    ensures
        r == channel8(c as int),
{
    let x: i64 = clamp(c, 0, ONE);
    ((x * 255) / 65536) as u8
}

impl Color {
    /// Every channel is within the range that colour arithmetic accepts.
    pub open spec fn bounded(&self) -> bool {
        &&& -CHANNEL_MAX <= self.r <= CHANNEL_MAX
        &&& -CHANNEL_MAX <= self.g <= CHANNEL_MAX
        &&& -CHANNEL_MAX <= self.b <= CHANNEL_MAX
    }

    /// Creates a colour with the given channels.
    pub fn new(r: i64, g: i64, b: i64) -> (c: Color)
        ensures
            c == (Color { r: r, g: g, b: b }),
    {
        Color { r: r, g: g, b: b }
    }

    /// Creates a colour with the given channels.
    pub fn new_f32(r: i64, g: i64, b: i64) -> (c: Color)
        ensures
            c == (Color { r: r, g: g, b: b }),
    {
        Color::new(r, g, b)
    }

    /// Mixes this colour with another. With the factor at zero the result is
    /// this colour, with the factor at one it is the other; factors outside
    /// that range are limited to it.
    pub fn mix(&self, other: &Color, f: i64) -> (c: Color)
        requires
            self.bounded(),
            other.bounded(),
        ensures
            c.r == mix_spec(self.r as int, other.r as int, f as int),
            c.g == mix_spec(self.g as int, other.g as int, f as int),
            c.b == mix_spec(self.b as int, other.b as int, f as int),
            c.bounded(),
    {
        let f = clamp(f, 0, ONE);
        Color {
            r: mix_channel(self.r, other.r, f),
            g: mix_channel(self.g, other.g, f),
            b: mix_channel(self.b, other.b, f),
        }
    }

    /// The red channel as an 8-bit value.
    pub fn r8(&self) -> (r: u8)
        ensures
            r == channel8(self.r as int),
    {
        to8(self.r)
    }

    /// The green channel as an 8-bit value.
    pub fn g8(&self) -> (r: u8)
        ensures
            r == channel8(self.g as int),
    {
        to8(self.g)
    }

    /// The blue channel as an 8-bit value.
    pub fn b8(&self) -> (r: u8)
        ensures
            r == channel8(self.b as int),
    {
        to8(self.b)
    }
}

} // verus!
