//! Mark colouring.
//!
//! The geometry of marks is computed in floating point and lives outside this
//! crate; what is decided here is which colour a mark gets.

use vstd::prelude::*;

use crate::ir::{color_from_hex, Color};
use crate::palette::categorical_color;
use crate::spec::{opt_text, MarkDef, Spec};

verus! {

/// Vega-Lite's default mark colour, the first entry of `tableau10`.
pub open spec fn default_mark_color_spec() -> Color {
    Color { r: 0x4c, g: 0x78, b: 0xa8, a: 255 }
}

/// Vega-Lite's default mark colour, and the first entry of `tableau10`.
pub fn default_mark_color() -> (c: Color)
    ensures
        c == default_mark_color_spec(),
{
    Color::rgb(0x4c, 0x78, 0xa8)
}

/// The first colour of the categorical scheme is the default mark colour.
pub proof fn lemma_first_category_is_default()
    ensures
        categorical_color(0) == default_mark_color_spec(),
{
}

/// The colour text a mark definition asks for: `color`, else `fill`.
pub open spec fn requested_color(m: MarkDef) -> Option<Seq<char>> {
    match m {
        MarkDef::Shorthand(_) => None,
        MarkDef::Full(p) => match p.color {
            Some(c) => Some(c@),
            None => opt_text(p.fill),
        },
    }
}

/// The colour a spec's marks are drawn in when no colour encoding decides.
pub open spec fn mark_color_of(spec: Spec) -> Color {
    match requested_color(spec.mark) {
        Some(text) => match color_from_hex(text) {
            Some(c) => c,
            None => default_mark_color_spec(),
        },
        None => default_mark_color_spec(),
    }
}

/// The mark's own colour: its `color`, else its `fill`, as hex; the default
/// colour when neither is given or the one given does not parse.
pub fn mark_color(spec: &Spec) -> (c: Color)
    ensures
        c == mark_color_of(*spec),
{
    let props = spec.mark.props();
    let chosen = match &props.color {
        Some(c) => Some(c.as_str()),
        None => match &props.fill {
            Some(f) => Some(f.as_str()),
            None => None,
        },
    };
    match chosen {
        Some(text) => match Color::from_hex(text) {
            Some(c) => c,
            None => default_mark_color(),
        },
        None => default_mark_color(),
    }
}

/// The colour of row `i`: its entry in `colors`, or the default mark colour
/// past the end.
pub open spec fn color_at(colors: Seq<Color>, i: int) -> Color {
    if 0 <= i < colors.len() {
        colors[i]
    } else {
        default_mark_color_spec()
    }
}

/// Whether row `i` is plotted and drawn in colour `c`.
pub open spec fn in_series(present: Seq<bool>, colors: Seq<Color>, c: Color, i: int) -> bool {
    0 <= i < present.len() && present[i] && color_at(colors, i) == c
}

/// A grouping of the plotted rows into one series per colour: every group is
/// the ascending list of the plotted rows of its colour, colours do not
/// repeat, and groups come in the order their colour first appears.
pub open spec fn is_color_series(
    groups: Seq<(Color, Vec<usize>)>,
    present: Seq<bool>,
    colors: Seq<Color>,
) -> bool {
    &&& forall|g: int| 0 <= g < groups.len() ==> (#[trigger] groups[g]).1@.len() > 0
    &&& forall|g: int, a: int, b: int|
        0 <= g < groups.len() && 0 <= a < b < groups[g].1@.len() ==> #[trigger] groups[g].1@[a]
            < #[trigger] groups[g].1@[b]
    &&& forall|g: int, a: int|
        0 <= g < groups.len() && 0 <= a < groups[g].1@.len() ==> in_series(
            present,
            colors,
            groups[g].0,
            #[trigger] groups[g].1@[a] as int,
        )
    &&& forall|g: int, h: int| 0 <= g < h < groups.len() ==> (#[trigger] groups[g]).0 != (#[trigger] groups[h]).0
        && groups[g].1@[0] < groups[h].1@[0]
    &&& forall|g: int, i: int|
        0 <= g < groups.len() && #[trigger] in_series(present, colors, groups[g].0, i)
            ==> groups[g].1@.contains(i as usize)
    &&& forall|i: int|
        0 <= i < present.len() && present[i] ==> exists|g: int|
            0 <= g < groups.len() && #[trigger] groups[g].0 == color_at(colors, i)
}

/// Splits the plotted rows of a line mark into one series per colour, in the
/// order each colour first appears, so a colour encoding draws one line per
/// series rather than a single line that zig-zags between them.
pub fn color_series(present: &[bool], colors: &[Color]) -> (groups: Vec<(Color, Vec<usize>)>)
    ensures
        is_color_series(groups@, present@, colors@),
{
    let n = present.len();
    // The distinct colours, in order of first appearance, with the row where
    // each first appears.
    let mut palette: Vec<Color> = Vec::new();
    let mut firsts: Vec<usize> = Vec::new();
    let mut i: usize = 0;
    while i < n
        invariant
            n == present@.len(),
            0 <= i <= n,
            palette@.len() == firsts@.len(),
            forall|g: int, h: int| 0 <= g < h < palette@.len() ==> #[trigger] palette@[g] != #[trigger] palette@[h]
                && firsts@[g] < firsts@[h],
            forall|g: int| 0 <= g < palette@.len() ==> (#[trigger] firsts@[g]) < i
                && in_series(present@, colors@, palette@[g], firsts@[g] as int),
            forall|g: int, j: int| 0 <= g < palette@.len() && 0 <= j < firsts@[g]
                ==> !#[trigger] in_series(present@, colors@, palette@[g], j),
            forall|j: int| 0 <= j < i && present@[j] ==> exists|g: int|
                0 <= g < palette@.len() && #[trigger] palette@[g] == color_at(colors@, j),
        decreases n - i,
    {
        if present[i] {
            let c = if i < colors.len() { colors[i] } else { default_mark_color() };
            let mut g: usize = 0;
            while g < palette.len() && !(palette[g] == c)
                invariant
                    0 <= g <= palette@.len(),
                    forall|h: int| 0 <= h < g ==> palette@[h] != c,
                decreases palette@.len() - g,
            {
                g += 1;
            }
            let found = g < palette.len();
            if !found {
                proof {
                    assert forall|j: int| 0 <= j < i implies !#[trigger] in_series(present@, colors@, c, j) by {
                        if in_series(present@, colors@, c, j) {
                            let h = choose|h: int| 0 <= h < palette@.len() && #[trigger] palette@[h] == color_at(colors@, j);
                            assert(palette@[h] == c);
                        }
                    }
                }
                let ghost before = palette@;
                palette.push(c);
                firsts.push(i);
                proof {
                    let last = palette@.len() - 1;
                    assert forall|j: int| 0 <= j < i + 1 && present@[j] implies exists|g: int|
                        0 <= g < palette@.len() && #[trigger] palette@[g] == color_at(colors@, j) by {
                        if j == i {
                            assert(palette@[last] == color_at(colors@, j));
                        } else {
                            let h = choose|h: int| 0 <= h < before.len() && #[trigger] before[h] == color_at(colors@, j);
                            assert(palette@[h] == color_at(colors@, j));
                        }
                    }
                }
            } else {
                proof {
                    assert forall|j: int| 0 <= j < i + 1 && present@[j] implies exists|g: int|
                        0 <= g < palette@.len() && #[trigger] palette@[g] == color_at(colors@, j) by {
                        if j == i {
                            assert(palette@[g as int] == color_at(colors@, j));
                        }
                    }
                }
            }
        }
        i += 1;
    }
    // One group per colour: the plotted rows of that colour, ascending.
    let mut groups: Vec<(Color, Vec<usize>)> = Vec::new();
    let mut g: usize = 0;
    while g < palette.len()
        invariant
            n == present@.len(),
            0 <= g <= palette@.len(),
            palette@.len() == firsts@.len(),
            groups@.len() == g,
            forall|a: int, b: int| 0 <= a < b < palette@.len() ==> #[trigger] palette@[a] != #[trigger] palette@[b]
                && firsts@[a] < firsts@[b],
            forall|a: int| 0 <= a < palette@.len() ==> in_series(present@, colors@, #[trigger] palette@[a], firsts@[a] as int),
            forall|a: int, j: int| 0 <= a < palette@.len() && 0 <= j < firsts@[a]
                ==> !#[trigger] in_series(present@, colors@, palette@[a], j),
            forall|j: int| 0 <= j < n && present@[j] ==> exists|a: int|
                0 <= a < palette@.len() && #[trigger] palette@[a] == color_at(colors@, j),
            forall|a: int| 0 <= a < g ==> (#[trigger] groups@[a]).0 == palette@[a] && groups@[a].1@.len() > 0
                && groups@[a].1@[0] == firsts@[a],
            forall|a: int, x: int, y: int|
                0 <= a < g && 0 <= x < y < groups@[a].1@.len() ==> #[trigger] groups@[a].1@[x]
                    < #[trigger] groups@[a].1@[y],
            forall|a: int, x: int|
                0 <= a < g && 0 <= x < groups@[a].1@.len() ==> in_series(
                    present@,
                    colors@,
                    groups@[a].0,
                    #[trigger] groups@[a].1@[x] as int,
                ),
            forall|a: int, j: int|
                0 <= a < g && #[trigger] in_series(present@, colors@, groups@[a].0, j)
                    ==> groups@[a].1@.contains(j as usize),
        decreases palette@.len() - g,
    {
        let c = palette[g];
        let mut rows: Vec<usize> = Vec::new();
        let mut i: usize = 0;
        while i < n
            invariant
                n == present@.len(),
                0 <= i <= n,
                c == palette@[g as int],
                0 <= g < palette@.len(),
                palette@.len() == firsts@.len(),
                in_series(present@, colors@, c, firsts@[g as int] as int),
                forall|j: int| 0 <= j < firsts@[g as int] ==> !#[trigger] in_series(present@, colors@, c, j),
                forall|x: int| 0 <= x < rows@.len() ==> (#[trigger] rows@[x]) < i
                    && in_series(present@, colors@, c, rows@[x] as int),
                forall|x: int, y: int| 0 <= x < y < rows@.len() ==> #[trigger] rows@[x] < #[trigger] rows@[y],
                forall|j: int| 0 <= j < i && #[trigger] in_series(present@, colors@, c, j) ==> rows@.contains(j as usize),
                i > firsts@[g as int] ==> rows@.len() > 0 && rows@[0] == firsts@[g as int],
            decreases n - i,
        {
            let ci = if i < colors.len() { colors[i] } else { default_mark_color() };
            if present[i] && ci == c {
                let ghost before = rows@;
                rows.push(i);
                proof {
                    assert forall|j: int| 0 <= j < i + 1 && #[trigger] in_series(present@, colors@, c, j) implies rows@.contains(j as usize) by {
                        if j == i {
                            assert(rows@[before.len() as int] == j as usize);
                        } else {
                            let w = choose|w: int| 0 <= w < before.len() && before[w] == j as usize;
                            assert(rows@[w] == j as usize);
                        }
                    }
                    if i == firsts@[g as int] {
                        assert(before.len() == 0) by {
                            if before.len() > 0 {
                                assert(in_series(present@, colors@, c, before[0] as int));
                            }
                        }
                    }
                }
            } else {
                proof {
                    assert(!in_series(present@, colors@, c, i as int));
                }
            }
            i += 1;
        }
        groups.push((c, rows));
        g += 1;
    }
    proof {
        assert forall|a: int, b: int| 0 <= a < b < groups@.len() implies (#[trigger] groups@[a]).0 != (#[trigger] groups@[b]).0
            && groups@[a].1@[0] < groups@[b].1@[0] by {
            assert(palette@[a] != palette@[b] && firsts@[a] < firsts@[b]);
        }
        assert forall|j: int| 0 <= j < present@.len() && present@[j] implies exists|a: int|
            0 <= a < groups@.len() && #[trigger] groups@[a].0 == color_at(colors@, j) by {
            let a = choose|a: int| 0 <= a < palette@.len() && #[trigger] palette@[a] == color_at(colors@, j);
            assert(groups@[a].0 == color_at(colors@, j));
        }
    }
    groups
}

} // verus!
