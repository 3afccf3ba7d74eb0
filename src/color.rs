//! Colors: literal hex digit strings and named shorthand colors.
use vstd::prelude::*;

verus! {

/// An RGBA color, eight bits per channel.
#[derive(Clone, Copy, Debug, PartialEq, Eq, Structural)]
pub struct Rgba {
    pub r: u8,
    pub g: u8,
    pub b: u8,
    pub a: u8,
}

/// Opaque white, the value of every channel that a hex string does not give.
pub open spec fn white() -> Rgba {
    Rgba { r: 255, g: 255, b: 255, a: 255 }
}

impl Rgba {
    /// The four channels in the order red, green, blue, alpha.
    pub open spec fn channels(self) -> Seq<u8> {
        seq![self.r, self.g, self.b, self.a]
    }

    /// Builds a color from `[red, green, blue, alpha]`.
    pub fn from_array(c: [u8; 4]) -> (r: Rgba)
        ensures
            r.channels() == c@,
    {
        let r = Rgba { r: c[0], g: c[1], b: c[2], a: c[3] };
        assert(r.channels() =~= c@);
        r
    }

    /// The channels as `[red, green, blue, alpha]`.
    pub fn to_array(&self) -> (r: [u8; 4])
        ensures
            r@ == self.channels(),
    {
        let r = [self.r, self.g, self.b, self.a];
        assert(r@ =~= self.channels());
        r
    }
}

/// A light or dark modifier applied to a named color.
#[derive(Clone, Copy, Debug, PartialEq, Eq, Structural)]
pub enum Tone {
    Light,
    Normal,
    Dark,
}

/// The value of a lowercase or uppercase hexadecimal digit.
pub open spec fn hex_digit_value(c: char) -> Option<nat> {
    let u = c as u32;
    if 48 <= u <= 57 {
        Some((u - 48) as nat)
    } else if 97 <= u <= 102 {
        Some((u - 87) as nat)
    } else if 65 <= u <= 70 {
        Some((u - 55) as nat)
    } else {
        None
    }
}

/// A channel written with one digit, which stands for that digit twice.
pub open spec fn short_channel(c: char) -> u8 {
    match hex_digit_value(c) {
        Some(v) => (17 * v) as u8,
        None => 255,
    }
}

/// A channel written with two digits, high digit first.
pub open spec fn long_channel(hi: char, lo: char) -> u8 {
    match (hex_digit_value(hi), hex_digit_value(lo)) {
        (Some(h), Some(l)) => (16 * h + l) as u8,
        _ => 255,
    }
}

/// The color that a literal hex string of 3, 4, 6 or 8 digits denotes
/// (`rgb`, `rgba`, `rrggbb`, `rrggbbaa`); any other length gives opaque white.
pub open spec fn hex_color(h: Seq<char>) -> Rgba {
    if h.len() == 3 {
        Rgba { r: short_channel(h[0]), g: short_channel(h[1]), b: short_channel(h[2]), a: 255 }
    } else if h.len() == 4 {
        Rgba {
            r: short_channel(h[0]),
            g: short_channel(h[1]),
            b: short_channel(h[2]),
            a: short_channel(h[3]),
        }
    } else if h.len() == 6 {
        Rgba {
            r: long_channel(h[0], h[1]),
            g: long_channel(h[2], h[3]),
            b: long_channel(h[4], h[5]),
            a: 255,
        }
    } else if h.len() == 8 {
        Rgba {
            r: long_channel(h[0], h[1]),
            g: long_channel(h[2], h[3]),
            b: long_channel(h[4], h[5]),
            a: long_channel(h[6], h[7]),
        }
    } else {
        white()
    }
}

/// The largest channel value under a tone.
pub open spec fn tone_max(t: Tone) -> u8 {
    if t == Tone::Dark { 192 } else { 255 }
}

/// The smallest channel value under a tone.
pub open spec fn tone_min(t: Tone) -> u8 {
    if t == Tone::Light { 192 } else { 0 }
}

/// The color of a named shorthand (`r g b c y m w`) under a tone; any other
/// name, or none, gives the tone's black.
pub open spec fn named_color(name: Option<char>, t: Tone) -> Rgba {
    let hi = tone_max(t);
    let lo = tone_min(t);
    match name {
        Some('r') => Rgba { r: hi, g: lo, b: lo, a: 255 },
        Some('y') => Rgba { r: hi, g: hi, b: lo, a: 255 },
        Some('g') => Rgba { r: lo, g: hi, b: lo, a: 255 },
        Some('c') => Rgba { r: lo, g: hi, b: hi, a: 255 },
        Some('b') => Rgba { r: lo, g: lo, b: hi, a: 255 },
        Some('m') => Rgba { r: hi, g: lo, b: hi, a: 255 },
        Some('w') => Rgba { r: hi, g: hi, b: hi, a: 255 },
        _ => Rgba { r: lo, g: lo, b: lo, a: 255 },
    }
}

/// The value of one hex digit, if it is one.
fn digit_value(c: char) -> (r: Option<u8>)
    ensures
        r matches Some(v) ==> hex_digit_value(c) == Some(v as nat) && v < 16,
        r is None ==> hex_digit_value(c) is None,
{
    let u = c as u32;
    if 48 <= u && u <= 57 {
        Some((u - 48) as u8)
    } else if 97 <= u && u <= 102 {
        Some((u - 87) as u8)
    } else if 65 <= u && u <= 70 {
        Some((u - 55) as u8)
    } else {
        None
    }
}

/// One channel written with a single digit.
fn short(c: char) -> (r: u8)
    ensures
        r == short_channel(c),
{
    match digit_value(c) {
        Some(v) => 17 * v,
        None => 255,
    }
}

/// One channel written with two digits.
fn long(hi: char, lo: char) -> (r: u8)
    ensures
        r == long_channel(hi, lo),
{
    match (digit_value(hi), digit_value(lo)) {
        (Some(h), Some(l)) => 16 * h + l,
        _ => 255,
    }
}

/// Reads a literal hex color: 3, 4, 6 or 8 digits; any other length is
/// opaque white.
pub fn parse_hex(h: &Vec<char>) -> (r: Rgba)
    ensures
        r == hex_color(h@),
{
    let n = h.len();
    if n == 3 {
        Rgba { r: short(h[0]), g: short(h[1]), b: short(h[2]), a: 255 }
    } else if n == 4 {
        Rgba { r: short(h[0]), g: short(h[1]), b: short(h[2]), a: short(h[3]) }
    } else if n == 6 {
        Rgba { r: long(h[0], h[1]), g: long(h[2], h[3]), b: long(h[4], h[5]), a: 255 }
    } else if n == 8 {
        Rgba { r: long(h[0], h[1]), g: long(h[2], h[3]), b: long(h[4], h[5]), a: long(h[6], h[7]) }
    } else {
        Rgba { r: 255, g: 255, b: 255, a: 255 }
    }
}

/// Resolves a named shorthand color under a tone.
pub fn tone(name: Option<char>, t: Tone) -> (r: Rgba)
    ensures
        r == named_color(name, t),
{
    let hi: u8 = if t == Tone::Dark { 192 } else { 255 };
    let lo: u8 = if t == Tone::Light { 192 } else { 0 };
    match name {
        Some('r') => Rgba { r: hi, g: lo, b: lo, a: 255 },
        Some('y') => Rgba { r: hi, g: hi, b: lo, a: 255 },
        Some('g') => Rgba { r: lo, g: hi, b: lo, a: 255 },
        Some('c') => Rgba { r: lo, g: hi, b: hi, a: 255 },
        Some('b') => Rgba { r: lo, g: lo, b: hi, a: 255 },
        Some('m') => Rgba { r: hi, g: lo, b: hi, a: 255 },
        Some('w') => Rgba { r: hi, g: hi, b: hi, a: 255 },
        _ => Rgba { r: lo, g: lo, b: lo, a: 255 },
    }
}

/// Only lengths 3, 4, 6 and 8 are read as a literal color: a hex string of
/// any other length stands for opaque white, whatever its digits.
pub proof fn lemma_hex_lengths(h: Seq<char>)
    requires
        h.len() != 3 && h.len() != 4 && h.len() != 6 && h.len() != 8,
    ensures
        hex_color(h) == white(),
{
}

/// Resolving a named color is a function of the name and the tone alone:
/// two resolutions with the same tone agree, and the alpha is always opaque.
pub proof fn lemma_named_color_stable(name: Option<char>, t: Tone, first: Rgba, second: Rgba)
    requires
        first == named_color(name, t),
        second == named_color(name, t),
    ensures
        first == second,
        first.a == 255,
{
}

} // verus!
