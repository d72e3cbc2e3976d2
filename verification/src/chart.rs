//! The decisions that turn a spec into a chart.
//!
//! Orchestration runs spec -> domains -> insets -> layout -> scales -> scene.
//! The geometric stages are floating-point work done around this crate; what is
//! decided here is which channels a mark needs and how they resolve, which
//! orientation a bar takes, whether a scale includes zero, which colour every
//! row gets, and in what order pie slices stack.

use vstd::prelude::*;
use vstd::string::StringExecFns;

use crate::data::{
    category_of, cell, column_view, discrete_column, distinct, field_present, first_index,
    lemma_first_index,
    looks_numeric, looks_numeric_spec, occurs_in, position, require_present, strictly_sorted,
    texts, DiscreteColumn, Row,
};
use crate::error::{Error, Fault, Result};
use crate::ir::{color_from_hex, Color};
use crate::legend::{legend_for, Legend};
use crate::order::text_lt;
use crate::marks::{mark_color, mark_color_of};
use crate::palette::{categorical, categorical_color};
use crate::spec::{field_type_from, opt_text, Channel, FieldType, MarkType, ScaleDef, Spec};

verus! {

/// Which positional channel carries the discrete field, for a bar mark.
#[derive(Debug, Clone, Copy, PartialEq, Eq, Structural)]
pub enum Orientation {
    /// Discrete on x, quantitative on y — upright bars.
    Vertical,
    /// Discrete on y, quantitative on x — sideways bars.
    Horizontal,
}

/// Which positional channel a plan is for. Vega's `zero` default differs
/// between them, so this is not cosmetic.
#[derive(Debug, Clone, Copy, PartialEq, Eq, Structural)]
pub enum Axis {
    X,
    Y,
}

/// Whether a quantitative domain is extended to include zero.
///
/// Verified against Vega rather than assumed, because the rule is not uniform:
/// y always includes zero, and x does for `bar` and `point` but **not** for
/// `line`. It is genuinely channel-based, not value-axis-based — transposing a
/// line chart keeps zero off x and on y.
pub fn zero_default(mark: MarkType, axis: Axis) -> (r: bool)
    ensures
        r == !(mark == MarkType::Line && axis == Axis::X),
{
    !(mark == MarkType::Line && axis == Axis::X)
}

/// What a mark needs of its positional channels, given which of x and y are
/// discrete: a bar's orientation, or why the combination cannot be drawn.
pub open spec fn orientation_of(
    mark: MarkType,
    x_discrete: bool,
    y_discrete: bool,
) -> core::result::Result<Option<Orientation>, Fault> {
    if mark == MarkType::Bar {
        if x_discrete && !y_discrete {
            Ok(Some(Orientation::Vertical))
        } else if !x_discrete && y_discrete {
            Ok(Some(Orientation::Horizontal))
        } else {
            Err(
                Fault::UnsupportedEncoding(
                    "a bar mark needs exactly one discrete and one quantitative positional channel"@,
                ),
            )
        }
    } else if y_discrete {
        Err(Fault::UnsupportedEncoding("line and point marks need a quantitative y channel"@))
    } else {
        Ok(None)
    }
}

/// A bar needs exactly one discrete positional channel; line and point need a
/// quantitative y and will take either kind of x.
pub fn orientation(mark: MarkType, x_discrete: bool, y_discrete: bool) -> (r: Result<
    Option<Orientation>,
>)
    ensures
        match r {
            Ok(o) => orientation_of(mark, x_discrete, y_discrete) == Ok::<
                Option<Orientation>,
                Fault,
            >(o),
            Err(e) => orientation_of(mark, x_discrete, y_discrete) == Err::<
                Option<Orientation>,
                Fault,
            >(e@),
        },
{
    match mark {
        MarkType::Bar => {
            if x_discrete && !y_discrete {
                Ok(Some(Orientation::Vertical))
            } else if !x_discrete && y_discrete {
                Ok(Some(Orientation::Horizontal))
            } else {
                Err(
                    Error::UnsupportedEncoding(
                        String::from_str(
                            "a bar mark needs exactly one discrete and one quantitative positional channel",
                        ),
                    ),
                )
            }
        },
        _ => {
            if y_discrete {
                Err(
                    Error::UnsupportedEncoding(
                        String::from_str("line and point marks need a quantitative y channel"),
                    ),
                )
            } else {
                Ok(None)
            }
        },
    }
}

/// A positional or colour channel, resolved: its type, the field it reads,
/// the axis or legend title, and an explicit `scale.zero`.
#[derive(Debug)]
pub struct Resolved {
    pub ftype: FieldType,
    pub field: String,
    pub title: Option<String>,
    /// Explicit `scale.zero`, which overrides the per-mark default.
    pub zero: Option<bool>,
}

/// The explicit `zero` of an optional scale definition.
pub open spec fn scale_zero(scale: Option<ScaleDef>) -> Option<bool> {
    match scale {
        Some(s) => s.zero,
        None => None,
    }
}

/// How a channel resolves against the rows: `(type, field, title, zero)`, or
/// the fault that stops it.
pub open spec fn resolution(
    channel: Option<Channel>,
    name: Seq<char>,
    rows: Seq<Row>,
) -> core::result::Result<(FieldType, Seq<char>, Seq<char>, Option<bool>), Fault> {
    match channel {
        None => Err(Fault::MissingEncoding(name)),
        Some(c) => match c.field {
            None => Err(Fault::MissingField(name)),
            Some(f) => match field_type_from(
                opt_text(c.field_type),
                looks_numeric_spec(rows, f@),
            ) {
                Err(fault) => Err(fault),
                Ok(t) => Ok(
                    (
                        t,
                        f@,
                        match c.title {
                            Some(title) => title@,
                            None => f@,
                        },
                        scale_zero(c.scale),
                    ),
                ),
            },
        },
    }
}

/// The optional reference as an optional value.
pub open spec fn deref_opt(c: Option<&Channel>) -> Option<Channel> {
    match c {
        Some(c) => Some(*c),
        None => None,
    }
}

/// Extracts a channel's field and resolves its type.
///
/// Vega-Lite titles an axis with the field name unless told otherwise.
pub fn resolve(channel: Option<&Channel>, name: &'static str, rows: &[Row]) -> (r: Result<Resolved>)
    ensures
        match r {
            Ok(res) => resolution(deref_opt(channel), name@, rows@) == Ok::<
                (FieldType, Seq<char>, Seq<char>, Option<bool>),
                Fault,
            >((res.ftype, res.field@, res.title->0@, res.zero)) && res.title is Some,
            Err(e) => resolution(deref_opt(channel), name@, rows@) == Err::<
                (FieldType, Seq<char>, Seq<char>, Option<bool>),
                Fault,
            >(e@),
        },
{
    let channel = match channel {
        Some(c) => c,
        None => return Err(Error::MissingEncoding(name)),
    };
    let field = channel.field_name(name)?;
    let ftype = channel.resolve_type(looks_numeric(rows, field))?;
    let title = match &channel.title {
        Some(t) => t.clone(),
        None => String::from_str(field),
    };
    let zero = match &channel.scale {
        Some(s) => s.zero,
        None => None,
    };
    Ok(Resolved { ftype, field: String::from_str(field), title: Some(title), zero })
}

/// The field a pie's slice angles read: the `theta` channel's field. A pie
/// without a `theta` channel, or with one that names no field, is an error.
pub fn theta_field(channel: Option<&Channel>) -> (r: Result<&str>)
    ensures
        match channel {
            None => r matches Err(e) && e@ == Fault::MissingEncoding("theta"@),
            Some(c) => match c.field {
                None => r matches Err(e) && e@ == Fault::MissingField("theta"@),
                Some(f) => r matches Ok(name) && name@ == f@,
            },
        },
{
    match channel {
        Some(c) => c.field_name("theta"),
        None => Err(Error::MissingEncoding("theta")),
    }
}

/// A colour encoding, extracted: the per-row categories, their sorted domain,
/// and the legend title.
#[derive(Debug)]
pub struct ColorChannel {
    pub column: Option<DiscreteColumn>,
    pub domain: Vec<String>,
    pub title: Option<String>,
}

/// What the colour channel's resolution requires of it beyond resolving: that
/// its field be present and its type discrete.
pub open spec fn color_fault(t: FieldType, field: Seq<char>, rows: Seq<Row>) -> Option<Fault> {
    if !field_present(rows, field) {
        Some(Fault::UnknownField(field))
    } else if !(t == FieldType::Nominal || t == FieldType::Ordinal) {
        Some(Fault::UnsupportedEncoding("only discrete colour fields are supported"@))
    } else {
        None
    }
}

/// What resolving the colour encoding gives: nothing without a channel;
/// else the resolution's fault, or the field's absence, or a non-discrete
/// type; else the per-row categories, their strictly sorted distinct values,
/// and the title.
pub open spec fn color_channel_outcome(channel: Option<Channel>, rows: Seq<Row>, r: Result<ColorChannel>) -> bool {
    match channel {
        None => r matches Ok(cc) && cc.column is None && cc.domain@.len() == 0 && cc.title is None,
        Some(_) => match resolution(channel, "color"@, rows) {
            Err(fault) => r matches Err(e) && e@ == fault,
            Ok((t, field, title, _)) => match color_fault(t, field, rows) {
                Some(fault) => r matches Err(e) && e@ == fault,
                None => r matches Ok(cc) && cc.column is Some
                    && column_view(cc.column->0@) == rows.map_values(
                        |row: Row| category_of(cell(row, field)),
                    )
                    && strictly_sorted(texts(cc.domain@))
                    && (forall|v: Seq<char>| #[trigger] texts(cc.domain@).contains(v)
                        <==> occurs_in(cc.column->0@, v))
                    && opt_text(cc.title) == Some(title),
            },
        },
    }
}

/// Resolves the colour encoding, if any. Only discrete colour fields are
/// supported; the domain is the column's distinct values, sorted.
pub fn color_channel(channel: Option<&Channel>, rows: &[Row]) -> (r: Result<ColorChannel>)
    ensures
        color_channel_outcome(deref_opt(channel), rows@, r),
{
    let channel = match channel {
        Some(c) => c,
        None => return Ok(ColorChannel { column: None, domain: Vec::new(), title: None }),
    };
    let resolved = resolve(Some(channel), "color", rows)?;
    if resolved.ftype.is_discrete() {
        let column = discrete_column(rows, resolved.field.as_str())?;
        let domain = distinct(&column);
        Ok(ColorChannel { column: Some(column), domain, title: resolved.title })
    } else {
        require_present(rows, resolved.field.as_str())?;
        Err(Error::UnsupportedEncoding(String::from_str("only discrete colour fields are supported")))
    }
}

/// The canvas background a spec asks for: its `background` as hex, else white.
pub open spec fn background_of(spec: Spec) -> Color {
    match spec.background {
        Some(text) => match color_from_hex(text@) {
            Some(c) => c,
            None => Color { r: 255, g: 255, b: 255, a: 255 },
        },
        None => Color { r: 255, g: 255, b: 255, a: 255 },
    }
}

pub fn background(spec: &Spec) -> (c: Color)
    ensures
        c == background_of(*spec),
{
    match &spec.background {
        Some(text) => match Color::from_hex(text.as_str()) {
            Some(c) => c,
            None => Color::white(),
        },
        None => Color::white(),
    }
}

/// The colour of a row with the given category: the scheme colour of the
/// category's place in the domain, else the mark's own colour.
pub open spec fn row_color(domain: Seq<Seq<char>>, category: Option<Seq<char>>, default: Color) -> Color {
    match category {
        Some(v) => match first_index(domain, v) {
            Some(k) => categorical_color(k),
            None => default,
        },
        None => default,
    }
}

/// Per-row colours, from the colour encoding if present.
pub fn row_colors(len: usize, column: Option<&DiscreteColumn>, domain: &[String], spec: &Spec) -> (r:
    Vec<Color>)
    ensures
        match column {
            None => r@.len() == len && forall|i: int| 0 <= i < len ==> #[trigger] r@[i]
                == mark_color_of(*spec),
            Some(c) => r@.len() == c@.len() && forall|i: int| 0 <= i < c@.len() ==> #[trigger] r@[i]
                == row_color(texts(domain@), opt_text(c@[i]), mark_color_of(*spec)),
        },
{
    let default = mark_color(spec);
    let mut out: Vec<Color> = Vec::new();
    match column {
        None => {
            let mut i: usize = 0;
            while i < len
                invariant
                    0 <= i <= len,
                    out@.len() == i,
                    default == mark_color_of(*spec),
                    forall|j: int| 0 <= j < i ==> #[trigger] out@[j] == default,
                decreases len - i,
            {
                out.push(default);
                i += 1;
            }
        },
        Some(column) => {
            let mut i: usize = 0;
            while i < column.len()
                invariant
                    0 <= i <= column@.len(),
                    out@.len() == i,
                    default == mark_color_of(*spec),
                    forall|j: int| 0 <= j < i ==> #[trigger] out@[j] == row_color(
                        texts(domain@),
                        opt_text(column@[j]),
                        default,
                    ),
                decreases column@.len() - i,
            {
                let color = match &column[i] {
                    Some(v) => match position(domain, v.as_str()) {
                        Some(k) => categorical(k),
                        None => default,
                    },
                    None => default,
                };
                out.push(color);
                i += 1;
            }
        },
    }
    out
}

/// Rows of equal category get equal colours.
pub proof fn lemma_equal_categories_share_a_colour(
    domain: Seq<Seq<char>>,
    column: Seq<Option<String>>,
    default: Color,
    i: int,
    j: int,
)
    requires
        0 <= i < column.len(),
        0 <= j < column.len(),
        opt_text(column[i]) == opt_text(column[j]),
    ensures
        row_color(domain, opt_text(column[i]), default) == row_color(
            domain,
            opt_text(column[j]),
            default,
        ),
{
}

/// Rows whose categories differ get different colours, as long as both sit
/// among the first ten entries of the domain (beyond that the scheme wraps).
pub proof fn lemma_distinct_categories_differ(
    domain: Seq<Seq<char>>,
    a: Seq<char>,
    b: Seq<char>,
    default: Color,
)
    requires
        a != b,
        first_index(domain, a) matches Some(i) && i < 10,
        first_index(domain, b) matches Some(j) && j < 10,
    ensures
        row_color(domain, Some(a), default) != row_color(domain, Some(b), default),
{
    crate::data::lemma_first_index(domain, a);
    crate::data::lemma_first_index(domain, b);
    let i = first_index(domain, a)->0;
    let j = first_index(domain, b)->0;
    assert(i != j);
    if i < j {
        crate::palette::lemma_categorical_distinct(i as nat, j as nat);
    } else {
        crate::palette::lemma_categorical_distinct(j as nat, i as nat);
    }
}

/// Where a row's slice falls in the stacking order: its category's place in
/// the colour domain, with rows of no known category last.
pub open spec fn stack_key(domain: Seq<Seq<char>>, category: Option<Seq<char>>) -> int {
    match category {
        Some(v) => match first_index(domain, v) {
            Some(k) => k,
            None => usize::MAX as int,
        },
        None => usize::MAX as int,
    }
}

/// Row `a` stacks before row `b`: by key, then by row index, which is what a
/// stable sort by key gives.
pub open spec fn stacks_before(keys: Seq<int>, a: int, b: int) -> bool {
    keys[a] < keys[b] || (keys[a] == keys[b] && a < b)
}

/// The stacking key of every row of a column.
pub open spec fn stack_keys(domain: Seq<Seq<char>>, column: Seq<Option<String>>) -> Seq<int> {
    column.map_values(|c: Option<String>| stack_key(domain, opt_text(c)))
}

/// Row `ra`, of category `a`, stacks before row `rb`, of category `b`: by
/// category in `str` order, then by row, with rows of no category last.
pub open spec fn stacks_first(a: Option<Seq<char>>, b: Option<Seq<char>>, ra: int, rb: int) -> bool {
    match (a, b) {
        (Some(x), Some(y)) => text_lt(x, y) || (x == y && ra < rb),
        (Some(_), None) => true,
        (None, Some(_)) => false,
        (None, None) => ra < rb,
    }
}

/// The key of a row whose category occurs in the column is its category's
/// place in a domain that holds exactly the column's values.
proof fn lemma_stack_key_of_present(
    domain: Seq<Seq<char>>,
    column: Seq<Option<String>>,
    row: int,
)
    requires
        domain.len() <= usize::MAX,
        0 <= row < column.len(),
        opt_text(column[row]) is Some,
        forall|v: Seq<char>| #[trigger] domain.contains(v) <==> occurs_in(column, v),
    ensures
        0 <= stack_key(domain, opt_text(column[row])) < domain.len(),
        domain[stack_key(domain, opt_text(column[row]))] == opt_text(column[row])->0,
{
    let x = opt_text(column[row])->0;
    assert(occurs_in(column, x));
    assert(domain.contains(x));
    lemma_first_index(domain, x);
    if first_index(domain, x) is None {
        let k = choose|k: int| 0 <= k < domain.len() && domain[k] == x;
        assert(domain[k] != x);
    }
}

/// Pie slices stack in ascending order of their category, rows of one
/// category in row order, and rows with no category last: the order
/// `stack_order` gives over a domain of the column's distinct values, sorted,
/// which is the domain `color_channel` gives.
pub proof fn lemma_slices_stack_in_category_order(
    domain: Seq<Seq<char>>,
    column: Seq<Option<String>>,
    order: Seq<usize>,
)
    requires
        domain.len() <= usize::MAX,
        strictly_sorted(domain),
        forall|v: Seq<char>| #[trigger] domain.contains(v) <==> occurs_in(column, v),
        is_stack_order(order, column.len() as int, stack_keys(domain, column)),
    ensures
        forall|i: int, j: int|
            0 <= i < j < order.len() ==> stacks_first(
                opt_text(column[#[trigger] order[i] as int]),
                opt_text(column[#[trigger] order[j] as int]),
                order[i] as int,
                order[j] as int,
            ),
{
    let keys = stack_keys(domain, column);
    assert forall|i: int, j: int| 0 <= i < j < order.len() implies stacks_first(
        opt_text(column[#[trigger] order[i] as int]),
        opt_text(column[#[trigger] order[j] as int]),
        order[i] as int,
        order[j] as int,
    ) by {
        let a = order[i] as int;
        let b = order[j] as int;
        assert(stacks_before(keys, a, b));
        assert(keys[a] == stack_key(domain, opt_text(column[a])));
        assert(keys[b] == stack_key(domain, opt_text(column[b])));
        if opt_text(column[a]) is Some {
            lemma_stack_key_of_present(domain, column, a);
        }
        if opt_text(column[b]) is Some {
            lemma_stack_key_of_present(domain, column, b);
        }
        if opt_text(column[a]) is Some && opt_text(column[b]) is Some && keys[a] < keys[b] {
            assert(text_lt(domain[keys[a]], domain[keys[b]]));
        }
    }
}

/// An order of `n` rows that lists each row once, sorted by key then row.
pub open spec fn is_stack_order(order: Seq<usize>, n: int, keys: Seq<int>) -> bool {
    &&& order.len() == n
    &&& forall|i: int| 0 <= i < order.len() ==> (#[trigger] order[i]) < n
    &&& forall|i: int, j: int|
        0 <= i < j < order.len() ==> stacks_before(keys, #[trigger] order[i] as int, #[trigger] order[j] as int)
    &&& forall|row: int| 0 <= row < n ==> #[trigger] order.contains(row as usize)
}

/// A list of distinct rows below `n` that names every row below `n` has
/// exactly `n` entries.
proof fn lemma_permutation_len(order: Seq<usize>, n: int)
    requires
        0 <= n <= usize::MAX,
        forall|i: int, j: int| 0 <= i < j < order.len() ==> #[trigger] order[i] != #[trigger] order[j],
        forall|i: int| 0 <= i < order.len() ==> (#[trigger] order[i]) < n,
        forall|row: int| 0 <= row < n ==> #[trigger] order.contains(row as usize),
    ensures
        order.len() == n,
{
    let s = order.map_values(|x: usize| x as int);
    assert(s.no_duplicates()) by {
        assert forall|i: int, j: int| 0 <= i < s.len() && 0 <= j < s.len() && i != j implies s[i] != s[j] by {
            if i < j {
                assert(order[i] != order[j]);
            } else {
                assert(order[j] != order[i]);
            }
        }
    }
    s.unique_seq_to_set();
    assert(s.to_set() =~= vstd::set_lib::set_int_range(0, n)) by {
        assert forall|x: int| s.to_set().contains(x) implies vstd::set_lib::set_int_range(0, n).contains(x) by {
            let i = choose|i: int| 0 <= i < s.len() && s[i] == x;
            assert(order[i] < n);
        }
        assert forall|x: int| vstd::set_lib::set_int_range(0, n).contains(x) implies s.to_set().contains(x) by {
            assert(order.contains(x as usize));
            let i = choose|i: int| 0 <= i < order.len() && order[i] == x as usize;
            assert(s[i] == x);
        }
    }
    vstd::set_lib::lemma_int_range(0, n);
}

/// The order in which a pie's rows stack.
///
/// Vega stacks in the order of the colour scale's *domain*, which is sorted —
/// not in row order. Without a colour encoding there is no domain to follow,
/// so rows stack as they come.
pub fn stack_order(rows: usize, column: Option<&DiscreteColumn>, domain: &[String]) -> (order: Vec<
    usize,
>)
    requires
        column matches Some(c) ==> c@.len() == rows,
    ensures
        column is None ==> order@ == Seq::new(rows as nat, |i: int| i as usize),
        column matches Some(c) ==> is_stack_order(order@, rows as int, stack_keys(texts(domain@), c@)),
{
    let mut order: Vec<usize> = Vec::new();
    let column = match column {
        None => {
            let mut i: usize = 0;
            while i < rows
                invariant
                    0 <= i <= rows,
                    order@ == Seq::new(i as nat, |k: int| k as usize),
                decreases rows - i,
            {
                order.push(i);
                i += 1;
            }
            return order;
        },
        Some(c) => c,
    };
    let ghost keys = stack_keys(texts(domain@), column@);
    // Each row's key, computed once.
    let mut key_of: Vec<usize> = Vec::new();
    let mut row: usize = 0;
    while row < rows
        invariant
            0 <= row <= rows,
            column@.len() == rows,
            keys == stack_keys(texts(domain@), column@),
            key_of@.len() == row,
            forall|j: int| 0 <= j < row ==> #[trigger] key_of@[j] as int == keys[j],
            forall|j: int| 0 <= j < row ==> (#[trigger] key_of@[j] as int) < domain@.len() || key_of@[j] == usize::MAX,
        decreases rows - row,
    {
        let k = match &column[row] {
            Some(v) => match position(domain, v.as_str()) {
                Some(k) => k,
                None => usize::MAX,
            },
            None => usize::MAX,
        };
        proof {
            crate::data::lemma_first_index(texts(domain@), opt_text(column@[row as int])->0);
        }
        key_of.push(k);
        row += 1;
    }
    proof {
        assert forall|r: int| 0 <= r < rows implies 0 <= #[trigger] keys[r] by {
            assert(key_of@[r] as int == keys[r]);
        }
    }
    // Rows grouped by key in ascending order; within a group, by row index.
    let mut k: usize = 0;
    while k < domain.len()
        invariant
            0 <= k <= domain@.len(),
            column@.len() == rows,
            key_of@.len() == rows,
            keys.len() == rows,
            forall|j: int| 0 <= j < rows ==> #[trigger] key_of@[j] as int == keys[j],
            forall|j: int| 0 <= j < rows ==> #[trigger] keys[j] == key_of@[j] as int,
            forall|j: int| 0 <= j < rows ==> (#[trigger] key_of@[j] as int) < domain@.len() || key_of@[j] == usize::MAX,
            forall|i: int| 0 <= i < order@.len() ==> (#[trigger] order@[i]) < rows && keys[order@[i] as int] < k,
            forall|i: int, j: int|
                0 <= i < j < order@.len() ==> stacks_before(keys, #[trigger] order@[i] as int, #[trigger] order@[j] as int),
            forall|r: int| 0 <= r < rows && keys[r] < k ==> #[trigger] order@.contains(r as usize),
        decreases domain@.len() - k,
    {
        let mut row: usize = 0;
        while row < rows
            invariant
                0 <= k < domain@.len(),
                0 <= row <= rows,
                column@.len() == rows,
                key_of@.len() == rows,
                keys.len() == rows,
                forall|j: int| 0 <= j < rows ==> #[trigger] key_of@[j] as int == keys[j],
                forall|j: int| 0 <= j < rows ==> #[trigger] keys[j] == key_of@[j] as int,
                forall|j: int| 0 <= j < rows ==> (#[trigger] key_of@[j] as int) < domain@.len() || key_of@[j] == usize::MAX,
                forall|i: int| 0 <= i < order@.len() ==> (#[trigger] order@[i]) < rows
                    && (keys[order@[i] as int] < k || (keys[order@[i] as int] == k && order@[i] < row)),
                forall|i: int, j: int|
                    0 <= i < j < order@.len() ==> stacks_before(keys, #[trigger] order@[i] as int, #[trigger] order@[j] as int),
                forall|r: int| 0 <= r < rows && (keys[r] < k || (keys[r] == k && r < row)) ==> #[trigger] order@.contains(r as usize),
            decreases rows - row,
        {
            if key_of[row] == k {
                let ghost before = order@;
                assert(keys[row as int] == k);
                order.push(row);
                proof {
                    assert forall|r: int| 0 <= r < rows && (keys[r] < k || (keys[r] == k && r < row + 1)) implies #[trigger] order@.contains(r as usize) by {
                        if r == row {
                            assert(order@[before.len() as int] == r as usize);
                        } else {
                            assert(before.contains(r as usize));
                            let w = choose|w: int| 0 <= w < before.len() && before[w] == r as usize;
                            assert(order@[w] == r as usize);
                        }
                    }
                }
            } else {
                proof {
                    assert forall|r: int| 0 <= r < rows && (keys[r] < k || (keys[r] == k && r < row + 1)) implies #[trigger] order@.contains(r as usize) by {
                        if r == row {
                            assert(key_of@[r] as int == keys[r]);
                        }
                    }
                }
            }
            row += 1;
        }
        k += 1;
    }
    // Rows whose category has no place in the domain come last, in row order.
    let mut row: usize = 0;
    while row < rows
        invariant
            0 <= row <= rows,
            domain@.len() <= usize::MAX,
            column@.len() == rows,
            key_of@.len() == rows,
            keys.len() == rows,
            forall|j: int| 0 <= j < rows ==> #[trigger] key_of@[j] as int == keys[j],
            forall|j: int| 0 <= j < rows ==> #[trigger] keys[j] == key_of@[j] as int,
            forall|j: int| 0 <= j < rows ==> (#[trigger] key_of@[j] as int) < domain@.len() || key_of@[j] == usize::MAX,
            forall|i: int| 0 <= i < order@.len() ==> (#[trigger] order@[i]) < rows
                && (keys[order@[i] as int] < domain@.len() || (keys[order@[i] as int] == usize::MAX && order@[i] < row)),
            forall|i: int, j: int|
                0 <= i < j < order@.len() ==> stacks_before(keys, #[trigger] order@[i] as int, #[trigger] order@[j] as int),
            forall|r: int| 0 <= r < rows && (keys[r] < domain@.len() || (keys[r] == usize::MAX && r < row)) ==> #[trigger] order@.contains(r as usize),
        decreases rows - row,
    {
        if key_of[row] == usize::MAX {
            let ghost before = order@;
            assert(keys[row as int] == usize::MAX);
            order.push(row);
            proof {
                assert forall|r: int| 0 <= r < rows && (keys[r] < domain@.len() || (keys[r] == usize::MAX && r < row + 1)) implies #[trigger] order@.contains(r as usize) by {
                    if r == row {
                        assert(order@[before.len() as int] == r as usize);
                    } else {
                        assert(before.contains(r as usize));
                        let w = choose|w: int| 0 <= w < before.len() && before[w] == r as usize;
                        assert(order@[w] == r as usize);
                    }
                }
            }
        }
        row += 1;
    }
    proof {
        assert forall|r: int| 0 <= r < rows implies #[trigger] order@.contains(r as usize) by {
            assert(key_of@[r] as int == keys[r]);
        }
        lemma_permutation_len(order@, rows as int);
    }
    order
}

/// The scale a discrete positional channel sits on.
#[derive(Debug, Clone, Copy, PartialEq, Eq, Structural)]
pub enum DiscreteScale {
    /// Evenly spaced bands with a width, which give bars their width.
    Band,
    /// A band scale with no band width: where a point or a line vertex sits.
    Point,
}

/// Bars take a band scale, lines and points a point scale. An arc has no
/// positional scale; a band is the harmless answer for it.
pub fn discrete_scale(mark: MarkType) -> (k: DiscreteScale)
    ensures
        k == (if mark == MarkType::Line || mark == MarkType::Point {
            DiscreteScale::Point
        } else {
            DiscreteScale::Band
        }),
{
    match mark {
        MarkType::Line | MarkType::Point => DiscreteScale::Point,
        MarkType::Bar | MarkType::Arc => DiscreteScale::Band,
    }
}

/// Whether a field type maps onto a discrete scale.
pub open spec fn is_discrete_type(t: FieldType) -> bool {
    t == FieldType::Nominal || t == FieldType::Ordinal
}

/// Where a positional channel stops a chart: its resolution's fault, else its
/// field missing from the rows.
pub open spec fn positional_fault(channel: Option<Channel>, name: Seq<char>, rows: Seq<Row>) -> Option<Fault> {
    match resolution(channel, name, rows) {
        Err(fault) => Some(fault),
        Ok((_, field, _, _)) => if field_present(rows, field) {
            None
        } else {
            Some(Fault::UnknownField(field))
        },
    }
}

/// Where the colour encoding stops a chart, if it does.
pub open spec fn color_channel_fault(channel: Option<Channel>, rows: Seq<Row>) -> Option<Fault> {
    match channel {
        None => None,
        Some(_) => match resolution(channel, "color"@, rows) {
            Err(fault) => Some(fault),
            Ok((t, field, _, _)) => color_fault(t, field, rows),
        },
    }
}

/// The type a channel resolves to, where it resolves.
pub open spec fn resolved_type(channel: Option<Channel>, name: Seq<char>, rows: Seq<Row>) -> FieldType {
    match resolution(channel, name, rows) {
        Ok((t, _, _, _)) => t,
        Err(_) => FieldType::Quantitative,
    }
}

/// The first fault of a rectangular chart's decisions, in the order they are
/// taken: the x channel, the y channel, the pair's fit to the mark, then the
/// colour channel.
pub open spec fn chart_fault(mark: MarkType, spec: Spec, rows: Seq<Row>) -> Option<Fault> {
    match positional_fault(spec.encoding.x, "x"@, rows) {
        Some(fault) => Some(fault),
        None => match positional_fault(spec.encoding.y, "y"@, rows) {
            Some(fault) => Some(fault),
            None => match orientation_of(
                mark,
                is_discrete_type(resolved_type(spec.encoding.x, "x"@, rows)),
                is_discrete_type(resolved_type(spec.encoding.y, "y"@, rows)),
            ) {
                Err(fault) => Some(fault),
                Ok(_) => color_channel_fault(spec.encoding.color, rows),
            },
        },
    }
}

/// A resolved channel as `resolution` describes it.
pub open spec fn resolves_to(res: Resolved, channel: Option<Channel>, name: Seq<char>, rows: Seq<Row>) -> bool {
    &&& resolution(channel, name, rows) == Ok::<(FieldType, Seq<char>, Seq<char>, Option<bool>), Fault>(
        (res.ftype, res.field@, res.title->0@, res.zero),
    )
    &&& res.title is Some
}

/// Per-row colours: the mark's colour for every one of `n` rows without a
/// colour column, else each row's category colour.
pub open spec fn colors_for(
    colors: Seq<Color>,
    n: int,
    column: Option<DiscreteColumn>,
    domain: Seq<Seq<char>>,
    default: Color,
) -> bool {
    match column {
        None => colors.len() == n && forall|i: int| 0 <= i < n ==> #[trigger] colors[i] == default,
        Some(c) => colors.len() == c@.len() && forall|i: int| 0 <= i < c@.len() ==> #[trigger] colors[i]
            == row_color(domain, opt_text(c@[i]), default),
    }
}

/// A positional channel that names a field no row holds is reported by that
/// name, and before anything later: x's absent field before anything about y,
/// y's before the pair is fitted to the mark or the colour is judged.
pub proof fn lemma_absent_fields_are_reported(mark: MarkType, spec: Spec, rows: Seq<Row>)
    ensures
        match resolution(spec.encoding.x, "x"@, rows) {
            Err(fault) => chart_fault(mark, spec, rows) == Some(fault),
            Ok((_, fx, _, _)) => if !field_present(rows, fx) {
                chart_fault(mark, spec, rows) == Some(Fault::UnknownField(fx))
            } else {
                match resolution(spec.encoding.y, "y"@, rows) {
                    Err(fault) => chart_fault(mark, spec, rows) == Some(fault),
                    Ok((_, fy, _, _)) => !field_present(rows, fy) ==> chart_fault(mark, spec, rows)
                        == Some(Fault::UnknownField(fy)),
                }
            },
        },
{
}

/// What a rectangular chart decides before any geometry.
#[derive(Debug)]
pub struct Decisions {
    pub x: Resolved,
    pub y: Resolved,
    /// A bar's orientation; `None` for lines and points.
    pub orientation: Option<Orientation>,
    pub color: ColorChannel,
    pub legend: Legend,
    /// The colour of every row.
    pub colors: Vec<Color>,
}

/// The decisions of a bar, line or point chart over its rows, in the order a
/// build takes them, so that the first fault is the one reported: resolve x
/// and find its field in the rows, the same for y, fit the pair to the mark,
/// resolve the colour encoding; then the legend and every row's colour.
pub fn decide(spec: &Spec, mark: MarkType, rows: &[Row]) -> (r: Result<Decisions>)
    ensures
        match chart_fault(mark, *spec, rows@) {
            Some(fault) => r matches Err(e) && e@ == fault,
            None => r matches Ok(d) && resolves_to(d.x, spec.encoding.x, "x"@, rows@) && resolves_to(
                d.y,
                spec.encoding.y,
                "y"@,
                rows@,
            ) && orientation_of(mark, is_discrete_type(d.x.ftype), is_discrete_type(d.y.ftype))
                == Ok::<Option<Orientation>, Fault>(d.orientation) && color_channel_outcome(
                spec.encoding.color,
                rows@,
                Ok::<ColorChannel, Error>(d.color),
            ) && legend_for(d.legend, d.color.title, d.color.domain@, mark) && colors_for(
                d.colors@,
                rows@.len() as int,
                d.color.column,
                texts(d.color.domain@),
                mark_color_of(*spec),
            ),
        },
        match r {
            Ok(d) => field_present(rows@, d.x.field@) && field_present(rows@, d.y.field@),
            Err(_) => true,
        },
{
    let x = resolve(spec.encoding.x.as_ref(), "x", rows)?;
    require_present(rows, x.field.as_str())?;
    let y = resolve(spec.encoding.y.as_ref(), "y", rows)?;
    require_present(rows, y.field.as_str())?;
    let orientation = orientation(mark, x.ftype.is_discrete(), y.ftype.is_discrete())?;
    let color = color_channel(spec.encoding.color.as_ref(), rows)?;
    let legend = Legend::for_domain(color.title.clone(), &color.domain, mark);
    let colors = row_colors(rows.len(), color.column.as_ref(), &color.domain, spec);
    proof {
        if color.column is Some {
            assert(color.column->0@.len() == column_view(color.column->0@).len());
        }
    }
    Ok(Decisions { x, y, orientation, color, legend, colors })
}

/// What a pie or donut decides before any geometry.
#[derive(Debug)]
pub struct ArcDecisions {
    /// The field the slice angles read.
    pub theta: String,
    pub color: ColorChannel,
    /// The order in which the rows stack.
    pub order: Vec<usize>,
    pub legend: Legend,
    /// The colour of every row.
    pub colors: Vec<Color>,
}

/// The first fault of a pie's decisions, in the order they are taken: the
/// `theta` channel and its field, then the colour channel.
pub open spec fn arc_fault(spec: Spec, rows: Seq<Row>) -> Option<Fault> {
    match spec.encoding.theta {
        None => Some(Fault::MissingEncoding("theta"@)),
        Some(c) => match c.field {
            None => Some(Fault::MissingField("theta"@)),
            Some(f) => if !field_present(rows, f@) {
                Some(Fault::UnknownField(f@))
            } else {
                color_channel_fault(spec.encoding.color, rows)
            },
        },
    }
}

/// The field a spec's `theta` channel names, where it names one.
pub open spec fn theta_name(spec: Spec) -> Seq<char> {
    match spec.encoding.theta {
        Some(c) => match c.field {
            Some(f) => f@,
            None => Seq::empty(),
        },
        None => Seq::empty(),
    }
}

/// The decisions of a pie or donut over its rows, in the order a build takes
/// them: the `theta` channel and its field in the rows, the colour encoding;
/// then the stacking order, the legend and every row's colour.
pub fn decide_arc(spec: &Spec, rows: &[Row]) -> (r: Result<ArcDecisions>)
    ensures
        match arc_fault(*spec, rows@) {
            Some(fault) => r matches Err(e) && e@ == fault,
            None => r matches Ok(d) && d.theta@ == theta_name(*spec) && color_channel_outcome(
                spec.encoding.color,
                rows@,
                Ok::<ColorChannel, Error>(d.color),
            ) && (match d.color.column {
                None => d.order@ == Seq::new(rows@.len(), |i: int| i as usize),
                Some(c) => is_stack_order(d.order@, rows@.len() as int, stack_keys(texts(d.color.domain@), c@)),
            }) && legend_for(d.legend, d.color.title, d.color.domain@, MarkType::Arc) && colors_for(
                d.colors@,
                rows@.len() as int,
                d.color.column,
                texts(d.color.domain@),
                mark_color_of(*spec),
            ),
        },
        match r {
            Ok(d) => field_present(rows@, d.theta@),
            Err(_) => true,
        },
{
    let field = theta_field(spec.encoding.theta.as_ref())?;
    require_present(rows, field)?;
    let theta = String::from_str(field);
    let color = color_channel(spec.encoding.color.as_ref(), rows)?;
    proof {
        if color.column is Some {
            assert(color.column->0@.len() == column_view(color.column->0@).len());
        }
    }
    let order = stack_order(rows.len(), color.column.as_ref(), &color.domain);
    let legend = Legend::for_domain(color.title.clone(), &color.domain, MarkType::Arc);
    let colors = row_colors(rows.len(), color.column.as_ref(), &color.domain, spec);
    Ok(ArcDecisions { theta, color, order, legend, colors })
}

} // verus!
