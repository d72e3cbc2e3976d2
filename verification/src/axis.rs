//! Axis kinds and tick-label typography.

use vstd::prelude::*;
use vstd::string::{StrSliceExecFns, StringExecFns};

verus! {

#[derive(Debug, Clone, Copy, PartialEq, Eq, Structural)]
pub enum AxisKind {
    /// Quantitative or discrete axis down the left edge of the plot.
    Left,
    /// Axis along the bottom edge of the plot.
    Bottom,
}

/// Clockwise rotation of an axis's labels, in degrees. Vega-Lite turns the
/// labels of a discrete bottom axis by 270 and leaves every other axis's
/// labels level, a discrete left axis included.
pub fn label_angle(kind: AxisKind, discrete: bool) -> (degrees: u16)
    ensures
        degrees == (if kind == AxisKind::Bottom && discrete {
            270u16
        } else {
            0u16
        }),
{
    match kind {
        AxisKind::Bottom => if discrete {
            270
        } else {
            0
        },
        AxisKind::Left => 0,
    }
}

/// Vega-Lite draws gridlines for continuous axes only.
pub fn draws_grid(discrete: bool) -> (grid: bool)
    ensures
        grid == !discrete,
{
    !discrete
}

/// d3-format's default locale renders negatives with U+2212 MINUS SIGN rather
/// than an ASCII hyphen, and Vega inherits that. The hyphen is visibly shorter
/// and sits at the wrong height next to digits.
pub const MINUS_SIGN: char = '\u{2212}';

/// A formatted number as an axis shows it: a leading ASCII hyphen becomes the
/// minus sign.
pub open spec fn typeset_number(label: Seq<char>) -> Seq<char> {
    if label.len() > 0 && label[0] == '-' {
        seq![MINUS_SIGN] + label.skip(1)
    } else {
        label
    }
}

/// Replaces the leading hyphen of a formatted number with [`MINUS_SIGN`].
pub fn with_minus_sign(label: String) -> (r: String)
    ensures
        r@ == typeset_number(label@),
{
    let s = label.as_str();
    let n = s.unicode_len();
    if n > 0 && s.get_char(0) == '-' {
        let rest = s.substring_char(1, n);
        let sign = String::from_str("\u{2212}");
        proof {
            reveal_strlit("\u{2212}");
        }
        assert(sign@ =~= seq![MINUS_SIGN]);
        let out = sign.concat(rest);
        assert(out@ =~= seq![MINUS_SIGN] + label@.skip(1));
        out
    } else {
        label
    }
}

} // verus!
