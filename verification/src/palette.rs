//! Categorical colour scheme.
//!
//! Vega's default categorical scheme is `tableau10`, and Vega-Lite's default
//! single-mark colour is its first entry — which is why an uncoloured bar and
//! the first series of a coloured one come out the same blue.

use vstd::prelude::*;

use crate::ir::Color;

verus! {

/// Number of entries in the scheme before it wraps.
pub const SCHEME_LEN: usize = 10;

/// Vega's `tableau10`, entry by entry.
pub open spec fn tableau10(i: int) -> Color {
    if i == 0 {
        Color { r: 0x4c, g: 0x78, b: 0xa8, a: 255 }
    } else if i == 1 {
        Color { r: 0xf5, g: 0x85, b: 0x18, a: 255 }
    } else if i == 2 {
        Color { r: 0xe4, g: 0x57, b: 0x56, a: 255 }
    } else if i == 3 {
        Color { r: 0x72, g: 0xb7, b: 0xb2, a: 255 }
    } else if i == 4 {
        Color { r: 0x54, g: 0xa2, b: 0x4b, a: 255 }
    } else if i == 5 {
        Color { r: 0xee, g: 0xca, b: 0x3b, a: 255 }
    } else if i == 6 {
        Color { r: 0xb2, g: 0x79, b: 0xa2, a: 255 }
    } else if i == 7 {
        Color { r: 0xff, g: 0x9d, b: 0xa6, a: 255 }
    } else if i == 8 {
        Color { r: 0x9d, g: 0x75, b: 0x5d, a: 255 }
    } else {
        Color { r: 0xba, g: 0xb0, b: 0xac, a: 255 }
    }
}

/// The colour of the `index`-th category: the scheme, repeated.
pub open spec fn categorical_color(index: int) -> Color {
    tableau10(index % 10)
}

/// Colour for the `index`-th category, wrapping once the scheme runs out —
/// which is what Vega does rather than failing or fading.
pub fn categorical(index: usize) -> (c: Color)
    ensures
        c == categorical_color(index as int),
{
    match index % SCHEME_LEN {
        0 => Color::rgb(0x4c, 0x78, 0xa8),
        1 => Color::rgb(0xf5, 0x85, 0x18),
        2 => Color::rgb(0xe4, 0x57, 0x56),
        3 => Color::rgb(0x72, 0xb7, 0xb2),
        4 => Color::rgb(0x54, 0xa2, 0x4b),
        5 => Color::rgb(0xee, 0xca, 0x3b),
        6 => Color::rgb(0xb2, 0x79, 0xa2),
        7 => Color::rgb(0xff, 0x9d, 0xa6),
        8 => Color::rgb(0x9d, 0x75, 0x5d),
        _ => Color::rgb(0xba, 0xb0, 0xac),
    }
}

/// The scheme wraps: category `index + 10` gets the same colour as `index`.
pub proof fn lemma_categorical_wraps(index: nat)
    ensures
        categorical_color(index + 10int) == categorical_color(index as int),
{
    assert((index + 10) % 10 == index % 10);
}

/// The first ten categories all get different colours.
pub proof fn lemma_categorical_distinct(i: nat, j: nat)
    requires
        i < j < 10,
    ensures
        categorical_color(i as int) != categorical_color(j as int),
{
    assert(i % 10 == i && j % 10 == j);
}

/// Category `i` is drawn in Vega's `tableau10` colour for `i % 10`: blue,
/// orange, red, teal, green, yellow, purple, pink, brown, grey.
pub proof fn lemma_tableau10(i: nat)
    ensures
        i % 10 == 0 ==> categorical_color(i as int) == (Color { r: 0x4c, g: 0x78, b: 0xa8, a: 0xff }),
        i % 10 == 1 ==> categorical_color(i as int) == (Color { r: 0xf5, g: 0x85, b: 0x18, a: 0xff }),
        i % 10 == 2 ==> categorical_color(i as int) == (Color { r: 0xe4, g: 0x57, b: 0x56, a: 0xff }),
        i % 10 == 3 ==> categorical_color(i as int) == (Color { r: 0x72, g: 0xb7, b: 0xb2, a: 0xff }),
        i % 10 == 4 ==> categorical_color(i as int) == (Color { r: 0x54, g: 0xa2, b: 0x4b, a: 0xff }),
        i % 10 == 5 ==> categorical_color(i as int) == (Color { r: 0xee, g: 0xca, b: 0x3b, a: 0xff }),
        i % 10 == 6 ==> categorical_color(i as int) == (Color { r: 0xb2, g: 0x79, b: 0xa2, a: 0xff }),
        i % 10 == 7 ==> categorical_color(i as int) == (Color { r: 0xff, g: 0x9d, b: 0xa6, a: 0xff }),
        i % 10 == 8 ==> categorical_color(i as int) == (Color { r: 0x9d, g: 0x75, b: 0x5d, a: 0xff }),
        i % 10 == 9 ==> categorical_color(i as int) == (Color { r: 0xba, g: 0xb0, b: 0xac, a: 0xff }),
{
}

} // verus!
