//! Turning inline `data.values` rows into the columns the scales need.
//!
//! Vega-Lite rows are heterogeneous JSON objects. Scales want either a numeric
//! column or a discrete one, so each encoded field is extracted once, up front,
//! and missing or non-conforming cells become `None` rather than errors — a null
//! in one row should drop that datum, not fail the chart.

use vstd::prelude::*;
use vstd::string::StringExecFns;

use crate::order::{lemma_text_lt_asymmetric, lemma_text_lt_total, lemma_text_lt_transitive, str_eq, str_lt, text_lt};
use crate::spec::opt_text;

verus! {

/// One JSON value in a row, as far as column extraction reads it. A number is
/// carried as the text JSON would print for it.
#[derive(Debug, Clone)]
pub enum Cell {
    Null,
    Bool(bool),
    Number(String),
    Text(String),
    Array,
    Object,
}

/// A data row: the fields of a JSON object, in order. A row that is not an
/// object has no fields.
#[derive(Debug, Clone)]
pub struct Row {
    pub fields: Vec<(String, Cell)>,
}

/// The cell stored under `key` among `fields`: the first entry with that key.
pub open spec fn lookup(fields: Seq<(String, Cell)>, key: Seq<char>) -> Option<Cell>
    decreases fields.len(),
{
    if fields.len() == 0 {
        None
    } else if fields[0].0@ == key {
        Some(fields[0].1)
    } else {
        lookup(fields.drop_first(), key)
    }
}

/// The cell a row holds for a field, if the field is present.
pub open spec fn cell(row: Row, key: Seq<char>) -> Option<Cell> {
    lookup(row.fields@, key)
}

impl Row {
    /// The cell stored under `field`, if any.
    pub fn get(&self, field: &str) -> (r: Option<&Cell>)
        ensures
            (r is Some) == (cell(*self, field@) is Some),
            r is Some ==> cell(*self, field@) == Some(*r->0),
    {
        let mut i: usize = 0;
        assert(self.fields@.skip(0) =~= self.fields@);
        while i < self.fields.len()
            invariant
                0 <= i <= self.fields@.len(),
                lookup(self.fields@, field@) == lookup(self.fields@.skip(i as int), field@),
            decreases self.fields@.len() - i,
        {
            assert(self.fields@.skip(i as int).drop_first() =~= self.fields@.skip(i + 1));
            if crate::order::str_eq(self.fields[i].0.as_str(), field) {
                return Some(&self.fields[i].1);
            }
            i += 1;
        }
        None
    }
}

pub open spec fn is_number(c: Option<Cell>) -> bool {
    c matches Some(Cell::Number(_))
}

/// A cell that does not contradict a numeric column: a number, a null, or absent.
pub open spec fn numeric_or_absent(c: Option<Cell>) -> bool {
    match c {
        Some(Cell::Number(_)) | Some(Cell::Null) | None => true,
        _ => false,
    }
}

/// Whether a field looks numeric: present and numeric in at least one row, and
/// never a non-numeric non-null.
pub open spec fn looks_numeric_spec(rows: Seq<Row>, key: Seq<char>) -> bool {
    &&& exists|i: int| 0 <= i < rows.len() && #[trigger] is_number(cell(rows[i], key))
    &&& forall|i: int| 0 <= i < rows.len() ==> #[trigger] numeric_or_absent(cell(rows[i], key))
}

/// True if the field is present and numeric in at least one row, and never a
/// non-numeric non-null. Used only when the spec omits an explicit `type`.
pub fn looks_numeric(rows: &[Row], field: &str) -> (r: bool)
    ensures
        r == looks_numeric_spec(rows@, field@),
{
    let mut saw_number = false;
    let mut i: usize = 0;
    while i < rows.len()
        invariant
            0 <= i <= rows@.len(),
            saw_number == exists|j: int| 0 <= j < i && #[trigger] is_number(cell(rows@[j], field@)),
            forall|j: int| 0 <= j < i ==> #[trigger] numeric_or_absent(cell(rows@[j], field@)),
        decreases rows@.len() - i,
    {
        match rows[i].get(field) {
            Some(Cell::Number(_)) => {
                assert(is_number(cell(rows@[i as int], field@)));
                saw_number = true;
            },
            Some(Cell::Null) | None => {
                assert(!is_number(cell(rows@[i as int], field@)));
            },
            Some(_) => {
                assert(!numeric_or_absent(cell(rows@[i as int], field@)));
                return false;
            },
        }
        i += 1;
    }
    saw_number
}

/// Whether some row holds the field.
pub open spec fn field_present(rows: Seq<Row>, key: Seq<char>) -> bool {
    rows.len() == 0 || exists|i: int| 0 <= i < rows.len() && (#[trigger] cell(rows[i], key)) is Some
}

/// Confirms the field appears in at least one row, so that a typo in the spec is
/// reported instead of silently producing an empty chart.
pub fn require_present(rows: &[Row], field: &str) -> (r: crate::error::Result<()>)
    ensures
        match r {
            Ok(_) => field_present(rows@, field@),
            Err(e) => !field_present(rows@, field@)
                && e@ == crate::error::Fault::UnknownField(field@),
        },
{
    if rows.len() == 0 {
        return Ok(());
    }
    let mut i: usize = 0;
    while i < rows.len()
        invariant
            0 <= i <= rows@.len(),
            forall|j: int| 0 <= j < i ==> (#[trigger] cell(rows@[j], field@)) is None,
        decreases rows@.len() - i,
    {
        if rows[i].get(field).is_some() {
            return Ok(());
        }
        i += 1;
    }
    Err(crate::error::Error::UnknownField(String::from_str(field)))
}

/// A discrete column, aligned 1:1 with the input rows.
pub type DiscreteColumn = Vec<Option<String>>;

/// The category a cell contributes to a discrete column.
pub open spec fn category_of(c: Option<Cell>) -> Option<Seq<char>> {
    match c {
        Some(Cell::Text(s)) => Some(s@),
        Some(Cell::Number(t)) => Some(t@),
        Some(Cell::Bool(b)) => Some(if b { "true"@ } else { "false"@ }),
        _ => None,
    }
}

/// The characters of each entry of a discrete column.
pub open spec fn column_view(column: Seq<Option<String>>) -> Seq<Option<Seq<char>>> {
    column.map_values(|c: Option<String>| crate::spec::opt_text(c))
}

pub fn discrete_column(rows: &[Row], field: &str) -> (r: crate::error::Result<DiscreteColumn>)
    ensures
        match r {
            Ok(column) => field_present(rows@, field@)
                && column_view(column@) == rows@.map_values(|row: Row| category_of(cell(row, field@))),
            Err(e) => !field_present(rows@, field@)
                && e@ == crate::error::Fault::UnknownField(field@),
        },
{
    require_present(rows, field)?;
    let mut column: DiscreteColumn = Vec::new();
    let mut i: usize = 0;
    while i < rows.len()
        invariant
            0 <= i <= rows@.len(),
            column@.len() == i,
            forall|j: int| 0 <= j < i ==> crate::spec::opt_text(#[trigger] column@[j])
                == category_of(cell(rows@[j], field@)),
        decreases rows@.len() - i,
    {
        let entry = match rows[i].get(field) {
            Some(Cell::Text(s)) => Some(s.clone()),
            Some(Cell::Number(t)) => Some(t.clone()),
            Some(Cell::Bool(b)) => Some(if *b { String::from_str("true") } else { String::from_str("false") }),
            _ => None,
        };
        column.push(entry);
        i += 1;
    }
    assert(column_view(column@) =~= rows@.map_values(|row: Row| category_of(cell(row, field@))));
    Ok(column)
}

/// The characters of each string.
pub open spec fn texts(v: Seq<String>) -> Seq<Seq<char>> {
    v.map_values(|s: String| s@)
}

/// Strictly ascending in `str` order, hence also free of repeats.
pub open spec fn strictly_sorted(s: Seq<Seq<char>>) -> bool {
    forall|i: int, j: int| 0 <= i < j < s.len() ==> text_lt(#[trigger] s[i], #[trigger] s[j])
}

/// Whether `v` occurs among the first `upto` cells of a column.
pub open spec fn occurs_before(column: Seq<Option<String>>, upto: int, v: Seq<char>) -> bool {
    exists|k: int| 0 <= k < upto && #[trigger] opt_text(column[k]) == Some(v)
}

/// Whether `v` occurs anywhere in a column.
pub open spec fn occurs_in(column: Seq<Option<String>>, v: Seq<char>) -> bool {
    occurs_before(column, column.len() as int, v)
}

proof fn lemma_occurs_grow(column: Seq<Option<String>>, k: int, v: Seq<char>)
    requires
        occurs_before(column, k, v),
    ensures
        occurs_before(column, k + 1, v),
{
    let m = choose|m: int| 0 <= m < k && #[trigger] opt_text(column[m]) == Some(v);
    assert(opt_text(column[m]) == Some(v));
}

proof fn lemma_insert_keeps_sorted(s: Seq<Seq<char>>, p: int, v: Seq<char>)
    requires
        strictly_sorted(s),
        0 <= p <= s.len(),
        forall|q: int| 0 <= q < p ==> text_lt(#[trigger] s[q], v),
        p < s.len() ==> text_lt(v, s[p]),
    ensures
        strictly_sorted(s.insert(p, v)),
{
    let t = s.insert(p, v);
    assert forall|i: int, j: int| 0 <= i < j < t.len() implies text_lt(#[trigger] t[i], #[trigger] t[j]) by {
        if j < p {
            assert(t[i] == s[i] && t[j] == s[j]);
        } else if j == p {
            assert(t[i] == s[i] && t[j] == v);
        } else if i < p {
            assert(t[i] == s[i] && t[j] == s[j - 1]);
        } else if i == p {
            assert(t[i] == v && t[j] == s[j - 1]);
            if j - 1 > p {
                lemma_text_lt_transitive(v, s[p], s[j - 1]);
            }
        } else {
            assert(t[i] == s[i - 1] && t[j] == s[j - 1]);
        }
    }
}

/// Distinct values, **sorted**, which is Vega-Lite's default domain ordering for
/// a nominal or ordinal field with no explicit `sort`.
///
/// First-appearance order is the tempting implementation and it is wrong: given
/// rows `Zeta, Alpha, Mid`, Vega renders the bands `Alpha, Mid, Zeta`. The order
/// is `str`'s, by UTF-8 bytes.
pub fn distinct(column: &DiscreteColumn) -> (out: Vec<String>)
    ensures
        strictly_sorted(texts(out@)),
        forall|v: Seq<char>| texts(out@).contains(v) <==> occurs_in(column@, v),
{
    let mut out: Vec<String> = Vec::new();
    let mut k: usize = 0;
    while k < column.len()
        invariant
            0 <= k <= column@.len(),
            strictly_sorted(texts(out@)),
            forall|v: Seq<char>| texts(out@).contains(v) <==> occurs_before(column@, k as int, v),
        decreases column@.len() - k,
    {
        let ghost before = out@;
        match &column[k] {
            Some(v) => {
                let mut p: usize = 0;
                while p < out.len() && str_lt(out[p].as_str(), v.as_str())
                    invariant
                        0 <= p <= out@.len(),
                        out@ == before,
                        forall|q: int| 0 <= q < p ==> text_lt(#[trigger] texts(out@)[q], v@),
                    decreases out@.len() - p,
                {
                    p += 1;
                }
                if p < out.len() && str_eq(out[p].as_str(), v.as_str()) {
                    assert(texts(out@)[p as int] == v@);
                    assert(texts(out@).contains(v@));
                    assert forall|x: Seq<char>| texts(out@).contains(x) <==> occurs_before(column@, k + 1, x) by {
                        if occurs_before(column@, k + 1, x) {
                            let m = choose|m: int| 0 <= m < k + 1 && #[trigger] opt_text(column@[m]) == Some(x);
                            if m < k {
                                assert(occurs_before(column@, k as int, x));
                            }
                        }
                        if occurs_before(column@, k as int, x) {
                            let m = choose|m: int| 0 <= m < k && #[trigger] opt_text(column@[m]) == Some(x);
                            assert(opt_text(column@[m]) == Some(x));
                        }
                    }
                } else {
                    proof {
                        if p < out@.len() {
                            lemma_text_lt_total(texts(out@)[p as int], v@);
                        }
                        lemma_insert_keeps_sorted(texts(out@), p as int, v@);
                    }
                    let copy = v.clone();
                    out.insert(p, copy);
                    assert(texts(out@) =~= texts(before).insert(p as int, v@));
                    assert forall|x: Seq<char>| texts(out@).contains(x) <==> occurs_before(column@, k + 1, x) by {
                        if texts(out@).contains(x) {
                            let i = choose|i: int| 0 <= i < texts(out@).len() && texts(out@)[i] == x;
                            if i < p {
                                assert(texts(before)[i] == x);
                                assert(texts(before).contains(x));
                                lemma_occurs_grow(column@, k as int, x);
                            } else if i > p {
                                assert(texts(before)[i - 1] == x);
                                assert(texts(before).contains(x));
                                lemma_occurs_grow(column@, k as int, x);
                            } else {
                                assert(opt_text(column@[k as int]) == Some(x));
                            }
                        }
                        if occurs_before(column@, k + 1, x) {
                            let m = choose|m: int| 0 <= m < k + 1 && #[trigger] opt_text(column@[m]) == Some(x);
                            if m < k {
                                assert(occurs_before(column@, k as int, x));
                                let i = choose|i: int| 0 <= i < texts(before).len() && texts(before)[i] == x;
                                if i < p {
                                    assert(texts(out@)[i] == x);
                                } else {
                                    assert(texts(out@)[i + 1] == x);
                                }
                            } else {
                                assert(texts(out@)[p as int] == x);
                            }
                        }
                    }
                }
            },
            None => {
                assert forall|x: Seq<char>| texts(out@).contains(x) <==> occurs_before(column@, k + 1, x) by {
                    if occurs_before(column@, k + 1, x) {
                        let m = choose|m: int| 0 <= m < k + 1 && #[trigger] opt_text(column@[m]) == Some(x);
                        assert(m < k);
                        assert(occurs_before(column@, k as int, x));
                    }
                    if occurs_before(column@, k as int, x) {
                        let m = choose|m: int| 0 <= m < k && #[trigger] opt_text(column@[m]) == Some(x);
                        assert(opt_text(column@[m]) == Some(x));
                    }
                }
            },
        }
        k += 1;
    }
    out
}

/// Index of the first entry of `domain` equal to `v`.
pub open spec fn first_index(domain: Seq<Seq<char>>, v: Seq<char>) -> Option<int>
    decreases domain.len(),
{
    if domain.len() == 0 {
        None
    } else if domain[0] == v {
        Some(0)
    } else {
        match first_index(domain.drop_first(), v) {
            Some(i) => Some(i + 1),
            None => None,
        }
    }
}

/// What `first_index` finds is an index of `v`, and nothing earlier is `v`.
pub proof fn lemma_first_index(domain: Seq<Seq<char>>, v: Seq<char>)
    ensures
        match first_index(domain, v) {
            Some(i) => 0 <= i < domain.len() && domain[i] == v
                && forall|j: int| 0 <= j < i ==> domain[j] != v,
            None => forall|j: int| 0 <= j < domain.len() ==> domain[j] != v,
        },
    decreases domain.len(),
{
    if domain.len() > 0 {
        lemma_first_index(domain.drop_first(), v);
        if domain[0] != v {
            match first_index(domain.drop_first(), v) {
                Some(i) => {
                    assert forall|j: int| 0 <= j < i + 1 implies domain[j] != v by {
                        if j > 0 {
                            assert(domain[j] == domain.drop_first()[j - 1]);
                        }
                    }
                },
                None => {
                    assert forall|j: int| 0 <= j < domain.len() implies domain[j] != v by {
                        if j > 0 {
                            assert(domain[j] == domain.drop_first()[j - 1]);
                        }
                    }
                },
            }
        }
    }
}

/// The position of `v` in `domain`, as `Iterator::position` finds it.
pub fn position(domain: &[String], v: &str) -> (r: Option<usize>)
    ensures
        match r {
            Some(i) => first_index(texts(domain@), v@) == Some(i as int),
            None => first_index(texts(domain@), v@) is None,
        },
{
    let mut i: usize = 0;
    while i < domain.len()
        invariant
            0 <= i <= domain@.len(),
            forall|j: int| 0 <= j < i ==> texts(domain@)[j] != v@,
        decreases domain@.len() - i,
    {
        if str_eq(domain[i].as_str(), v) {
            proof {
                lemma_first_index(texts(domain@), v@);
                let f = first_index(texts(domain@), v@);
                if f is None || f->0 != i {
                    assert(texts(domain@)[i as int] == v@);
                }
            }
            return Some(i);
        }
        i += 1;
    }
    proof {
        lemma_first_index(texts(domain@), v@);
        if first_index(texts(domain@), v@) is Some {
            let k = first_index(texts(domain@), v@)->0;
            assert(texts(domain@)[k] != v@);
        }
    }
    None
}

/// A field whose every present cell is a number or a null, with at least one
/// number, looks numeric: rows that lack the field are passed over.
pub proof fn lemma_numbers_and_gaps_look_numeric(rows: Seq<Row>, key: Seq<char>, witness: int)
    requires
        0 <= witness < rows.len(),
        (cell(rows[witness], key) matches Some(Cell::Number(_))),
        forall|i: int|
            0 <= i < rows.len() ==> (#[trigger] cell(rows[i], key) is None || (cell(rows[i], key) matches Some(
                Cell::Number(_),
            )) || (cell(rows[i], key) matches Some(Cell::Null))),
    ensures
        looks_numeric_spec(rows, key),
{
    assert(is_number(cell(rows[witness], key)));
}

/// A row that lacks the field changes nothing about whether it looks numeric.
pub proof fn lemma_a_row_without_the_field_does_not_change_inference(rows: Seq<Row>, key: Seq<char>, k: int)
    requires
        0 <= k < rows.len(),
        cell(rows[k], key) is None,
    ensures
        looks_numeric_spec(rows, key) == looks_numeric_spec(rows.remove(k), key),
{
    let rest = rows.remove(k);
    assert forall|i: int| 0 <= i < rest.len() implies rest[i] == rows[if i < k { i } else { i + 1 }] by {}
    if looks_numeric_spec(rows, key) {
        let w = choose|w: int| 0 <= w < rows.len() && #[trigger] is_number(cell(rows[w], key));
        assert(w != k);
        let v = if w < k { w } else { w - 1 };
        assert(is_number(cell(rest[v], key)));
        assert forall|i: int| 0 <= i < rest.len() implies #[trigger] numeric_or_absent(cell(rest[i], key)) by {
            let j = if i < k { i } else { i + 1 };
            assert(numeric_or_absent(cell(rows[j], key)));
        }
    }
    if looks_numeric_spec(rest, key) {
        let w = choose|w: int| 0 <= w < rest.len() && #[trigger] is_number(cell(rest[w], key));
        let v = if w < k { w } else { w + 1 };
        assert(is_number(cell(rows[v], key)));
        assert forall|i: int| 0 <= i < rows.len() implies #[trigger] numeric_or_absent(cell(rows[i], key)) by {
            if i < k {
                assert(numeric_or_absent(cell(rest[i], key)));
            } else if i > k {
                assert(numeric_or_absent(cell(rest[i - 1], key)));
            }
        }
    }
}

} // verus!
