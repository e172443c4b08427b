//! RGBA colors with 8-bit channels, hex-literal parsing and formatting,
//! and alpha blending.
//!
//! A hex literal is `#rrggbb` or `#rrggbbaa` (the leading `#` is
//! optional, the digits case-insensitive); when the alpha digits are
//! absent the color is fully opaque.

use vstd::prelude::*;
use vstd::string::StringExecFns;
use vstd::string::StringSliceAdditionalSpecFns;

verus! {

#[derive(Debug, Clone, Copy, PartialEq, Eq, Structural)]
pub struct Color {
    pub r: u8,
    pub g: u8,
    pub b: u8,
    pub a: u8,
}

/// Whether `c` is an ASCII hex digit.
pub open spec fn is_hex_digit(c: u8) -> bool {
    (48 <= c <= 57) || (97 <= c <= 102) || (65 <= c <= 70)
}

/// The numeric value of an ASCII hex digit.
pub open spec fn hex_digit_value(c: u8) -> int {
    if 48 <= c <= 57 {
        c - 48
    } else if 97 <= c <= 102 {
        c - 97 + 10
    } else {
        c - 65 + 10
    }
}

/// The channel value written by the two hex digits `a`, `b`.
pub open spec fn hex_pair_value(a: u8, b: u8) -> int {
    16 * hex_digit_value(a) + hex_digit_value(b)
}

/// The number of bytes an optional leading `#` occupies.
pub open spec fn hex_body_start(s: Seq<u8>) -> int {
    if s.len() > 0 && s[0] == 35 {
        1int
    } else {
        0int
    }
}

/// Whether `s` is a well-formed hex color literal: an optional `#`,
/// then exactly six or eight hex digits.
pub open spec fn hex_valid(s: Seq<u8>) -> bool {
    let i = hex_body_start(s);
    &&& s.len() > 0
    &&& (s.len() - i == 6 || s.len() - i == 8)
    &&& forall|j: int| i <= j < s.len() ==> is_hex_digit(#[trigger] s[j])
}

/// The color a well-formed hex literal denotes; alpha defaults to fully
/// opaque when only six digits are given.
pub open spec fn spec_hex_color(s: Seq<u8>) -> Color {
    let i = hex_body_start(s);
    Color {
        r: hex_pair_value(s[i], s[i + 1]) as u8,
        g: hex_pair_value(s[i + 2], s[i + 3]) as u8,
        b: hex_pair_value(s[i + 4], s[i + 5]) as u8,
        a: if s.len() - i == 8 {
            hex_pair_value(s[i + 6], s[i + 7]) as u8
        } else {
            255
        },
    }
}

/// The numeric value of an ASCII hex digit.
fn hex_to_u8(hex: u8) -> (r: u8)
    requires
        is_hex_digit(hex),
    ensures
        r == hex_digit_value(hex),
{
    if 48 <= hex && hex <= 57 {
        hex - 48
    } else if 97 <= hex && hex <= 102 {
        hex - 97 + 10
    } else {
        hex - 65 + 10
    }
}

/// The channel value written by the two hex digits `a`, `b`.
fn hex2_to_u8(a: u8, b: u8) -> (r: u8)
    requires
        is_hex_digit(a),
        is_hex_digit(b),
    ensures
        r == hex_pair_value(a, b),
{
    16 * hex_to_u8(a) + hex_to_u8(b)
}

/// The lowercase hex digit that writes the value `d`.
pub open spec fn hex_digit_char(d: int) -> char {
    if d == 0 {
        '0'
    } else if d == 1 {
        '1'
    } else if d == 2 {
        '2'
    } else if d == 3 {
        '3'
    } else if d == 4 {
        '4'
    } else if d == 5 {
        '5'
    } else if d == 6 {
        '6'
    } else if d == 7 {
        '7'
    } else if d == 8 {
        '8'
    } else if d == 9 {
        '9'
    } else if d == 10 {
        'a'
    } else if d == 11 {
        'b'
    } else if d == 12 {
        'c'
    } else if d == 13 {
        'd'
    } else if d == 14 {
        'e'
    } else {
        'f'
    }
}

/// The two lowercase hex digits that write the channel value `v`.
pub open spec fn hex_byte_chars(v: u8) -> Seq<char> {
    seq![hex_digit_char((v / 16) as int), hex_digit_char((v % 16) as int)]
}

/// The lowercase `#rrggbbaa` spelling of a color.
pub open spec fn color_hex_chars(c: Color) -> Seq<char> {
    seq!['#'] + hex_byte_chars(c.r) + hex_byte_chars(c.g) + hex_byte_chars(c.b) + hex_byte_chars(
        c.a,
    )
}

/// A one-character string holding the lowercase hex digit of `d`.
fn hex_digit_str(d: u8) -> (r: &'static str)
    requires
        d < 16,
    ensures
        r@ == seq![hex_digit_char(d as int)],
{
    proof {
        reveal_strlit("0");
        reveal_strlit("1");
        reveal_strlit("2");
        reveal_strlit("3");
        reveal_strlit("4");
        reveal_strlit("5");
        reveal_strlit("6");
        reveal_strlit("7");
        reveal_strlit("8");
        reveal_strlit("9");
        reveal_strlit("a");
        reveal_strlit("b");
        reveal_strlit("c");
        reveal_strlit("d");
        reveal_strlit("e");
        reveal_strlit("f");
    }
    match d {
        0 => "0",
        1 => "1",
        2 => "2",
        3 => "3",
        4 => "4",
        5 => "5",
        6 => "6",
        7 => "7",
        8 => "8",
        9 => "9",
        10 => "a",
        11 => "b",
        12 => "c",
        13 => "d",
        14 => "e",
        _ => "f",
    }
}

/// Append the two hex digits of `v` to `out`.
fn push_hex_byte(out: &mut String, v: u8)
    ensures
        final(out)@ == old(out)@ + hex_byte_chars(v),
{
    out.append(hex_digit_str(v / 16));
    out.append(hex_digit_str(v % 16));
    proof {
        assert(old(out)@ + seq![hex_digit_char(v as int / 16)] + seq![
            hex_digit_char((v % 16) as int),
        ] =~= old(out)@ + hex_byte_chars(v));
    }
}

/// One channel of an alpha blend: the average of `oc` and `sc`
/// weighted by `a` out of 255.
fn blend_channel(a: u16, oc: u8, sc: u8) -> (r: u8)
    requires
        a <= 255,
    ensures
        r == (a * oc + (255 - a) * sc) / 255,
{
    proof {
        assert(a * oc + (255 - a) * sc <= 255 * 255) by (nonlinear_arith)
            requires
                0 <= a <= 255,
                0 <= oc <= 255,
                0 <= sc <= 255,
        ;
        assert((a * oc + (255 - a) * sc) / 255 <= 255) by (nonlinear_arith)
            requires
                0 <= a * oc + (255 - a) * sc <= 255 * 255,
        ;
    }
    ((a * (oc as u16) + (255 - a) * (sc as u16)) / 255) as u8
}

impl Color {
    pub fn new(r: u8, g: u8, b: u8, a: u8) -> (c: Self)
        ensures
            c == (Color { r, g, b, a }),
    {
        Self { r, g, b, a }
    }

    /// The color a hex literal denotes. The literal must be
    /// well-formed; [`Color::parse_hex`] rejects malformed input
    /// instead.
    pub fn hex(hex_str: &str) -> (c: Self)
        requires
            hex_valid(hex_str.spec_bytes()),
        ensures
            c == spec_hex_color(hex_str.spec_bytes()),
    {
        let h = hex_str.as_bytes();
        let i: usize = if h[0] == 35 {
            1
        } else {
            0
        };
        if h.len() - i == 8 {
            Self::new(
                hex2_to_u8(h[i], h[i + 1]),
                hex2_to_u8(h[i + 2], h[i + 3]),
                hex2_to_u8(h[i + 4], h[i + 5]),
                hex2_to_u8(h[i + 6], h[i + 7]),
            )
        } else {
            Self::new(
                hex2_to_u8(h[i], h[i + 1]),
                hex2_to_u8(h[i + 2], h[i + 3]),
                hex2_to_u8(h[i + 4], h[i + 5]),
                255,
            )
        }
    }

    /// Parse a hex literal, rejecting any string that is not an
    /// optional `#` followed by exactly six or eight hex digits.
    pub fn parse_hex(hex_str: &str) -> (c: Option<Self>)
        ensures
            c is Some <==> hex_valid(hex_str.spec_bytes()),
            c is Some ==> c == Some(spec_hex_color(hex_str.spec_bytes())),
    {
        let h = hex_str.as_bytes();
        if h.len() == 0 {
            return None;
        }
        let i: usize = if h[0] == 35 {
            1
        } else {
            0
        };
        if !(h.len() - i == 6 || h.len() - i == 8) {
            return None;
        }
        let mut j: usize = i;
        while j < h.len()
            invariant
                h@ == hex_str.spec_bytes(),
                hex_body_start(h@) <= j <= h@.len(),
                i == hex_body_start(h@),
                forall|k: int| i <= k < j ==> is_hex_digit(#[trigger] h@[k]),
            decreases h@.len() - j,
        {
            let c = h[j];
            if !((48 <= c && c <= 57) || (97 <= c && c <= 102) || (65 <= c && c <= 70)) {
                proof {
                    assert(!is_hex_digit(hex_str.spec_bytes()[j as int]));
                }
                return None;
            }
            j = j + 1;
        }
        Some(Self::hex(hex_str))
    }

    /// The lowercase `#rrggbbaa` spelling of this color.
    pub fn to_hex(&self) -> (r: String)
        ensures
            r@ == color_hex_chars(*self),
    {
        let mut out = String::new();
        proof {
            reveal_strlit("#");
        }
        out.append("#");
        push_hex_byte(&mut out, self.r);
        push_hex_byte(&mut out, self.g);
        push_hex_byte(&mut out, self.b);
        push_hex_byte(&mut out, self.a);
        proof {
            assert(out@ =~= color_hex_chars(*self));
        }
        out
    }

    pub fn from_array(v: [u8; 4]) -> (c: Self)
        ensures
            c == (Color { r: v[0], g: v[1], b: v[2], a: v[3] }),
    {
        Self::new(v[0], v[1], v[2], v[3])
    }

    pub fn to_array(self) -> (r: [u8; 4])
        ensures
            r@ == seq![self.r, self.g, self.b, self.a],
    {
        let r = [self.r, self.g, self.b, self.a];
        proof {
            assert(r@ =~= seq![self.r, self.g, self.b, self.a]);
        }
        r
    }

    /// Alpha-blend `other` over `self`: each channel is the weighted
    /// average by `other`'s alpha; the result keeps `self`'s alpha.
    pub fn blend(self, other: Self) -> (c: Self)
        ensures
            c.r == (other.a * other.r + (255 - other.a) * self.r) / 255,
            c.g == (other.a * other.g + (255 - other.a) * self.g) / 255,
            c.b == (other.a * other.b + (255 - other.a) * self.b) / 255,
            c.a == self.a,
    {
        let a = other.a as u16;
        Self::new(
            blend_channel(a, other.r, self.r),
            blend_channel(a, other.g, self.g),
            blend_channel(a, other.b, self.b),
            self.a,
        )
    }

    pub fn with_alpha(self, alpha: u8) -> (c: Self)
        ensures
            c == (Color { r: self.r, g: self.g, b: self.b, a: alpha }),
    {
        Self::new(self.r, self.g, self.b, alpha)
    }

    pub fn white() -> (c: Color)
        ensures
            c == (Color { r: 255, g: 255, b: 255, a: 255 }),
    {
        Self::new(255, 255, 255, 255)
    }

    pub fn black() -> (c: Color)
        ensures
            c == (Color { r: 0, g: 0, b: 0, a: 255 }),
    {
        Self::new(0, 0, 0, 255)
    }

    pub fn transparent() -> (c: Color)
        ensures
            c == (Color { r: 0, g: 0, b: 0, a: 0 }),
    {
        Self::new(0, 0, 0, 0)
    }
}

impl Default for Color {
    fn default() -> (c: Self)
        ensures
            c == (Color { r: 0, g: 0, b: 0, a: 0 }),
    {
        Self::transparent()
    }
}

} // verus!
