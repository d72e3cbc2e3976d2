//! Value types shared by the scene IR.
//!
//! A colour is four straight-alpha bytes. `from_hex` is the one parser here:
//! it accepts CSS-style `#rgb`, `#rrggbb` and `#rrggbbaa` and nothing else.

use vstd::prelude::*;
use vstd::string::StringSliceAdditionalSpecFns;

verus! {

#[derive(Debug, Clone, Copy, PartialEq, Eq, Structural)]
pub struct Color {
    pub r: u8,
    pub g: u8,
    pub b: u8,
    pub a: u8,
}

/// Value of one ASCII hex digit, or `None` for any other byte.
pub open spec fn hex_digit(c: u8) -> Option<u8> {
    if 48 <= c <= 57 {
        Some((c - 48) as u8)
    } else if 97 <= c <= 102 {
        Some((c - 87) as u8)
    } else if 65 <= c <= 70 {
        Some((c - 55) as u8)
    } else {
        None
    }
}

/// A channel written as one digit, which CSS doubles: `f` means `ff`.
pub open spec fn short_channel(c: u8) -> Option<u8> {
    match hex_digit(c) {
        Some(v) => Some((v * 17) as u8),
        None => None,
    }
}

/// A channel written as two digits, high nibble first.
pub open spec fn long_channel(hi: u8, lo: u8) -> Option<u8> {
    match (hex_digit(hi), hex_digit(lo)) {
        (Some(h), Some(l)) => Some((h * 16 + l) as u8),
        _ => None,
    }
}

/// The colour that the UTF-8 bytes of a hex string denote, if any: a leading
/// `#` followed by exactly 3, 6 or 8 hex digits.
pub open spec fn color_from_hex_bytes(bytes: Seq<u8>) -> Option<Color> {
    if bytes.len() == 0 || bytes[0] != 35 {
        None
    } else {
        let h = bytes.drop_first();
        if h.len() == 3 {
            match (short_channel(h[0]), short_channel(h[1]), short_channel(h[2])) {
                (Some(r), Some(g), Some(b)) => Some(Color { r, g, b, a: 255 }),
                _ => None,
            }
        } else if h.len() == 6 {
            match (long_channel(h[0], h[1]), long_channel(h[2], h[3]), long_channel(h[4], h[5])) {
                (Some(r), Some(g), Some(b)) => Some(Color { r, g, b, a: 255 }),
                _ => None,
            }
        } else if h.len() == 8 {
            match (
                long_channel(h[0], h[1]),
                long_channel(h[2], h[3]),
                long_channel(h[4], h[5]),
                long_channel(h[6], h[7]),
            ) {
                (Some(r), Some(g), Some(b), Some(a)) => Some(Color { r, g, b, a }),
                _ => None,
            }
        } else {
            None
        }
    }
}

/// The colour a string denotes, over its characters.
pub open spec fn color_from_hex(s: Seq<char>) -> Option<Color> {
    color_from_hex_bytes(vstd::utf8::encode_utf8(s))
}

fn nibble(c: u8) -> (r: Option<u8>)
    ensures
        r == hex_digit(c),
{
    if 48 <= c && c <= 57 {
        Some(c - 48)
    } else if 97 <= c && c <= 102 {
        Some(c - 87)
    } else if 65 <= c && c <= 70 {
        Some(c - 55)
    } else {
        None
    }
}

fn short(c: u8) -> (r: Option<u8>)
    ensures
        r == short_channel(c),
{
    match nibble(c) {
        Some(v) => Some(v * 17),
        None => None,
    }
}

fn long(hi: u8, lo: u8) -> (r: Option<u8>)
    ensures
        r == long_channel(hi, lo),
{
    let h = match nibble(hi) {
        Some(h) => h,
        None => return None,
    };
    let l = match nibble(lo) {
        Some(l) => l,
        None => return None,
    };
    Some(h * 16 + l)
}

impl Color {
    pub fn rgb(r: u8, g: u8, b: u8) -> (c: Self)
        ensures
            c == (Color { r, g, b, a: 255 }),
    {
        Color { r, g, b, a: 255 }
    }

    pub fn rgba(r: u8, g: u8, b: u8, a: u8) -> (c: Self)
        ensures
            c == (Color { r, g, b, a }),
    {
        Color { r, g, b, a }
    }

    /// Opaque white, the default canvas background.
    pub fn white() -> (c: Self)
        ensures
            c == (Color { r: 255, g: 255, b: 255, a: 255 }),
    {
        Color { r: 255, g: 255, b: 255, a: 255 }
    }

    /// Opaque black, the default text colour.
    pub fn black() -> (c: Self)
        ensures
            c == (Color { r: 0, g: 0, b: 0, a: 255 }),
    {
        Color { r: 0, g: 0, b: 0, a: 255 }
    }

    /// Parses `#rgb`, `#rrggbb`, or `#rrggbbaa`. Returns `None` for anything else;
    /// callers fall back to a default rather than failing the render.
    pub fn from_hex(s: &str) -> (r: Option<Self>)
        ensures
            r == color_from_hex_bytes(s.spec_bytes()),
            r == color_from_hex(s@),
    {
        let bytes = s.as_bytes();
        let n = bytes.len();
        if n == 0 || bytes[0] != 35 {
            return None;
        }
        let ghost h = bytes@.drop_first();
        if n == 4 {
            assert(h[0] == bytes@[1] && h[1] == bytes@[2] && h[2] == bytes@[3]);
            let r = match short(bytes[1]) { Some(v) => v, None => return None };
            let g = match short(bytes[2]) { Some(v) => v, None => return None };
            let b = match short(bytes[3]) { Some(v) => v, None => return None };
            Some(Color { r, g, b, a: 255 })
        } else if n == 7 {
            assert(h[0] == bytes@[1] && h[1] == bytes@[2] && h[2] == bytes@[3]);
            assert(h[3] == bytes@[4] && h[4] == bytes@[5] && h[5] == bytes@[6]);
            let r = match long(bytes[1], bytes[2]) { Some(v) => v, None => return None };
            let g = match long(bytes[3], bytes[4]) { Some(v) => v, None => return None };
            let b = match long(bytes[5], bytes[6]) { Some(v) => v, None => return None };
            Some(Color { r, g, b, a: 255 })
        } else if n == 9 {
            assert(h[0] == bytes@[1] && h[1] == bytes@[2] && h[2] == bytes@[3]);
            assert(h[3] == bytes@[4] && h[4] == bytes@[5] && h[5] == bytes@[6]);
            assert(h[6] == bytes@[7] && h[7] == bytes@[8]);
            let r = match long(bytes[1], bytes[2]) { Some(v) => v, None => return None };
            let g = match long(bytes[3], bytes[4]) { Some(v) => v, None => return None };
            let b = match long(bytes[5], bytes[6]) { Some(v) => v, None => return None };
            let a = match long(bytes[7], bytes[8]) { Some(v) => v, None => return None };
            Some(Color { r, g, b, a })
        } else {
            None
        }
    }
}

/// Horizontal alignment of text relative to its anchor point.
#[derive(Debug, Clone, Copy, PartialEq, Eq, Structural)]
pub enum Anchor {
    Start,
    Middle,
    End,
}

/// Vertical alignment of text relative to its anchor point.
#[derive(Debug, Clone, Copy, PartialEq, Eq, Structural)]
pub enum Baseline {
    Top,
    Middle,
    Bottom,
    Alphabetic,
}

/// Every hex digit character, in either case, stands for its place in the
/// digit sequence `0`-`9`, `a`-`f`.
pub proof fn lemma_hex_digits(d: int)
    requires
        0 <= d < 16,
    ensures
        hex_digit("0123456789abcdef"@[d] as u8) == Some(d as u8),
        hex_digit("0123456789ABCDEF"@[d] as u8) == Some(d as u8),
{
    reveal_strlit("0123456789abcdef");
    reveal_strlit("0123456789ABCDEF");
}

/// The bytes of the two lower-case hex digits that write `v`, high first.
pub open spec fn hex_pair(v: u8) -> Seq<u8> {
    seq!["0123456789abcdef"@[(v / 16) as int] as u8, "0123456789abcdef"@[(v % 16) as int] as u8]
}

/// `#rrggbb`, written with the hex digits of any three bytes, denotes the
/// opaque colour of those bytes.
pub proof fn lemma_long_hex_round_trip(r: u8, g: u8, b: u8)
    ensures
        color_from_hex_bytes(seq![35u8] + hex_pair(r) + hex_pair(g) + hex_pair(b)) == Some(
            Color { r, g, b, a: 255 },
        ),
{
    lemma_hex_digits((r / 16) as int);
    lemma_hex_digits((r % 16) as int);
    lemma_hex_digits((g / 16) as int);
    lemma_hex_digits((g % 16) as int);
    lemma_hex_digits((b / 16) as int);
    lemma_hex_digits((b % 16) as int);
    let bytes = seq![35u8] + hex_pair(r) + hex_pair(g) + hex_pair(b);
    let h = bytes.drop_first();
    assert(h =~= hex_pair(r) + hex_pair(g) + hex_pair(b));
    assert(long_channel(h[0], h[1]) == Some(r));
    assert(long_channel(h[2], h[3]) == Some(g));
    assert(long_channel(h[4], h[5]) == Some(b));
}

/// `#rgb`, written with three hex digits, denotes the opaque colour whose
/// channels repeat each digit: `#9af` is `#99aaff`.
pub proof fn lemma_short_hex_doubles_each_digit(r: int, g: int, b: int)
    requires
        0 <= r < 16,
        0 <= g < 16,
        0 <= b < 16,
    ensures
        color_from_hex_bytes(
            seq![
                35u8,
                "0123456789abcdef"@[r] as u8,
                "0123456789abcdef"@[g] as u8,
                "0123456789abcdef"@[b] as u8,
            ],
        ) == Some(Color { r: (r * 16 + r) as u8, g: (g * 16 + g) as u8, b: (b * 16 + b) as u8, a: 255 }),
{
    lemma_hex_digits(r);
    lemma_hex_digits(g);
    lemma_hex_digits(b);
}

/// `#rrggbbaa`, written with the hex digits of any four bytes, denotes the
/// colour of those bytes, the last pair its alpha.
pub proof fn lemma_hex_with_alpha_round_trip(r: u8, g: u8, b: u8, a: u8)
    ensures
        color_from_hex_bytes(seq![35u8] + hex_pair(r) + hex_pair(g) + hex_pair(b) + hex_pair(a)) == Some(
            Color { r, g, b, a },
        ),
{
    lemma_hex_digits((r / 16) as int);
    lemma_hex_digits((r % 16) as int);
    lemma_hex_digits((g / 16) as int);
    lemma_hex_digits((g % 16) as int);
    lemma_hex_digits((b / 16) as int);
    lemma_hex_digits((b % 16) as int);
    lemma_hex_digits((a / 16) as int);
    lemma_hex_digits((a % 16) as int);
    let bytes = seq![35u8] + hex_pair(r) + hex_pair(g) + hex_pair(b) + hex_pair(a);
    let h = bytes.drop_first();
    assert(h =~= hex_pair(r) + hex_pair(g) + hex_pair(b) + hex_pair(a));
    assert(long_channel(h[0], h[1]) == Some(r));
    assert(long_channel(h[2], h[3]) == Some(g));
    assert(long_channel(h[4], h[5]) == Some(b));
    assert(long_channel(h[6], h[7]) == Some(a));
}

} // verus!
