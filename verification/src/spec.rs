//! The Vega-Lite subset this library interprets.
//!
//! Deliberately **permissive about unknown fields** and **strict about
//! unsupported values**. Real Vega-Lite specs carry `$schema`, `description`,
//! and other keys that are never read; rejecting those would make the library
//! useless for pasting in a spec that works elsewhere. But an unsupported
//! *mark type* is a different matter — silently ignoring it would render a
//! blank chart, so it becomes a typed error.
//!
//! These types hold what the decisions below read. Sizes, padding, opacity and
//! radii are real numbers and are interpreted by the floating-point layer that
//! wraps this crate.

use vstd::prelude::*;
use vstd::string::StringExecFns;

use crate::data::Row;
use crate::error::{Error, Fault};
use crate::order::str_eq;

verus! {

/// The characters of an optional string.
pub open spec fn opt_text(o: Option<String>) -> Option<Seq<char>> {
    match o {
        Some(s) => Some(s@),
        None => None,
    }
}

/// The characters of an optional string slice.
pub open spec fn opt_str(o: Option<&str>) -> Option<Seq<char>> {
    match o {
        Some(s) => Some(s@),
        None => None,
    }
}

fn copy_text(o: &Option<String>) -> (r: Option<String>)
    ensures
        r == *o,
{
    match o {
        Some(s) => Some(s.clone()),
        None => None,
    }
}

/// `"title": "x"` or `"title": { "text": "x" }`.
#[derive(Debug, Clone)]
pub enum TitleDef {
    Text(String),
    Object { text: Option<String> },
}

impl TitleDef {
    pub fn text(&self) -> (r: Option<&str>)
        ensures
            opt_str(r) == match self {
                TitleDef::Text(s) => Some(s@),
                TitleDef::Object { text } => opt_text(*text),
            },
    {
        match self {
            TitleDef::Text(s) => Some(s.as_str()),
            TitleDef::Object { text } => match text {
                Some(t) => Some(t.as_str()),
                None => None,
            },
        }
    }
}

/// Where a chart's rows come from. Only inline `values` are supported.
#[derive(Debug, Clone)]
pub struct DataDef {
    pub values: Option<Vec<Row>>,
    pub url: Option<String>,
    pub name: Option<String>,
}

/// Why a data definition yields no rows, if it does not.
pub open spec fn data_fault(d: DataDef) -> Option<Fault> {
    if d.url is Some {
        Some(Fault::UnsupportedData("data.url"@))
    } else if d.values is None && d.name is Some {
        Some(Fault::UnsupportedData("named data sources"@))
    } else if d.values is None {
        Some(Fault::UnsupportedData("spec has no data.values"@))
    } else {
        None
    }
}

impl DataDef {
    /// Inline `values` is the only supported source: a Worker render must not
    /// make an outbound fetch as a side effect of drawing a chart.
    pub fn rows(&self) -> (r: Result<&[Row], Error>)
        ensures
            match r {
                Ok(rows) => data_fault(*self) is None && rows@ == self.values->0@,
                Err(e) => data_fault(*self) == Some(e@),
            },
    {
        if self.url.is_some() {
            return Err(Error::UnsupportedData("data.url"));
        }
        if self.values.is_none() && self.name.is_some() {
            return Err(Error::UnsupportedData("named data sources"));
        }
        match &self.values {
            Some(v) => Ok(v.as_slice()),
            None => Err(Error::UnsupportedData("spec has no data.values")),
        }
    }
}

/// `"mark": "bar"` or `"mark": { "type": "bar", ... }`.
#[derive(Debug, Clone)]
pub enum MarkDef {
    Shorthand(String),
    Full(MarkProps),
}

/// The mark properties the library's decisions read.
#[derive(Debug, Clone)]
pub struct MarkProps {
    pub mark_type: String,
    pub color: Option<String>,
    pub fill: Option<String>,
    pub stroke: Option<String>,
    pub filled: Option<bool>,
}

impl Default for MarkProps {
    fn default() -> (r: Self)
        ensures
            r.mark_type@ == Seq::<char>::empty(),
            r.color is None,
            r.fill is None,
            r.stroke is None,
            r.filled is None,
    {
        MarkProps { mark_type: String::new(), color: None, fill: None, stroke: None, filled: None }
    }
}

#[derive(Debug, Clone, Copy, PartialEq, Eq, Structural)]
pub enum MarkType {
    Bar,
    Line,
    Point,
    /// Pie and donut slices.
    Arc,
}

/// The mark a type name selects, or why it selects none.
pub open spec fn mark_from_name(raw: Seq<char>) -> core::result::Result<MarkType, Fault> {
    if raw == "bar"@ {
        Ok(MarkType::Bar)
    } else if raw == "line"@ {
        Ok(MarkType::Line)
    } else if raw == "point"@ || raw == "circle"@ {
        Ok(MarkType::Point)
    } else if raw == "arc"@ {
        Ok(MarkType::Arc)
    } else {
        Err(Fault::UnsupportedMark(raw))
    }
}

/// The type name a mark definition carries.
pub open spec fn mark_name(m: MarkDef) -> Seq<char> {
    match m {
        MarkDef::Shorthand(s) => s@,
        MarkDef::Full(p) => p.mark_type@,
    }
}

impl MarkType {
    pub fn parse(raw: &str) -> (r: Result<Self, Error>)
        ensures
            match r {
                Ok(m) => mark_from_name(raw@) == Ok::<MarkType, Fault>(m),
                Err(e) => mark_from_name(raw@) == Err::<MarkType, Fault>(e@),
            },
    {
        if str_eq(raw, "bar") {
            Ok(MarkType::Bar)
        } else if str_eq(raw, "line") {
            Ok(MarkType::Line)
        } else if str_eq(raw, "point") || str_eq(raw, "circle") {
            Ok(MarkType::Point)
        } else if str_eq(raw, "arc") {
            Ok(MarkType::Arc)
        } else {
            Err(Error::UnsupportedMark(String::from_str(raw)))
        }
    }
}

impl MarkDef {
    pub fn mark_type(&self) -> (r: Result<MarkType, Error>)
        ensures
            match r {
                Ok(m) => mark_from_name(mark_name(*self)) == Ok::<MarkType, Fault>(m),
                Err(e) => mark_from_name(mark_name(*self)) == Err::<MarkType, Fault>(e@),
            },
    {
        let raw = match self {
            MarkDef::Shorthand(s) => s.as_str(),
            MarkDef::Full(p) => p.mark_type.as_str(),
        };
        MarkType::parse(raw)
    }

    pub fn props(&self) -> (r: MarkProps)
        ensures
            r == match self {
                MarkDef::Shorthand(s) => MarkProps {
                    mark_type: *s,
                    color: None,
                    fill: None,
                    stroke: None,
                    filled: None,
                },
                MarkDef::Full(p) => *p,
            },
    {
        match self {
            MarkDef::Shorthand(s) => MarkProps {
                mark_type: s.clone(),
                color: None,
                fill: None,
                stroke: None,
                filled: None,
            },
            MarkDef::Full(p) => MarkProps {
                mark_type: p.mark_type.clone(),
                color: copy_text(&p.color),
                fill: copy_text(&p.fill),
                stroke: copy_text(&p.stroke),
                filled: p.filled,
            },
        }
    }
}

/// The channels a spec encodes.
#[derive(Debug, Clone)]
pub struct Encoding {
    pub x: Option<Channel>,
    pub y: Option<Channel>,
    pub color: Option<Channel>,
    /// Angular extent of an `arc` mark — the pie-chart equivalent of `y`.
    pub theta: Option<Channel>,
    pub radius: Option<Channel>,
}

impl Default for Encoding {
    fn default() -> (r: Self)
        ensures
            r.x is None && r.y is None && r.color is None && r.theta is None && r.radius is None,
    {
        Encoding { x: None, y: None, color: None, theta: None, radius: None }
    }
}

#[derive(Debug, Clone)]
pub struct Channel {
    pub field: Option<String>,
    pub field_type: Option<String>,
    pub title: Option<String>,
    pub scale: Option<ScaleDef>,
}

impl Default for Channel {
    fn default() -> (r: Self)
        ensures
            r.field is None && r.field_type is None && r.title is None && r.scale is None,
    {
        Channel { field: None, field_type: None, title: None, scale: None }
    }
}

#[derive(Debug, Clone, Copy, PartialEq, Eq, Structural)]
pub enum FieldType {
    Quantitative,
    Nominal,
    Ordinal,
}

/// The field type a channel resolves to, from its declared type name and
/// whether its data looks numeric.
pub open spec fn field_type_from(
    declared: Option<Seq<char>>,
    inferred_numeric: bool,
) -> core::result::Result<FieldType, Fault> {
    match declared {
        Some(t) => if t == "quantitative"@ {
            Ok(FieldType::Quantitative)
        } else if t == "nominal"@ {
            Ok(FieldType::Nominal)
        } else if t == "ordinal"@ {
            Ok(FieldType::Ordinal)
        } else {
            Err(Fault::UnsupportedFieldType(t))
        },
        None => if inferred_numeric {
            Ok(FieldType::Quantitative)
        } else {
            Ok(FieldType::Nominal)
        },
    }
}

impl Channel {
    pub fn field_name(&self, channel: &'static str) -> (r: Result<&str, Error>)
        ensures
            match r {
                Ok(f) => self.field is Some && f@ == self.field->0@,
                Err(e) => self.field is None && e@ == Fault::MissingField(channel@),
            },
    {
        match &self.field {
            Some(f) => Ok(f.as_str()),
            None => Err(Error::MissingField(channel)),
        }
    }

    /// Resolves the declared type. Vega-Lite infers this when omitted; only
    /// quantitative versus nominal is inferred, which is all the surface needs.
    pub fn resolve_type(&self, inferred_numeric: bool) -> (r: Result<FieldType, Error>)
        ensures
            match r {
                Ok(t) => field_type_from(opt_text(self.field_type), inferred_numeric)
                    == Ok::<FieldType, Fault>(t),
                Err(e) => field_type_from(opt_text(self.field_type), inferred_numeric)
                    == Err::<FieldType, Fault>(e@),
            },
    {
        match &self.field_type {
            Some(t) => {
                if str_eq(t.as_str(), "quantitative") {
                    Ok(FieldType::Quantitative)
                } else if str_eq(t.as_str(), "nominal") {
                    Ok(FieldType::Nominal)
                } else if str_eq(t.as_str(), "ordinal") {
                    Ok(FieldType::Ordinal)
                } else {
                    Err(Error::UnsupportedFieldType(t.clone()))
                }
            },
            None => if inferred_numeric {
                Ok(FieldType::Quantitative)
            } else {
                Ok(FieldType::Nominal)
            },
        }
    }
}

impl FieldType {
    /// Nominal and ordinal both map onto a discrete (band/point) scale.
    pub fn is_discrete(self) -> (r: bool)
        ensures
            r == (self == FieldType::Nominal || self == FieldType::Ordinal),
    {
        match self {
            FieldType::Nominal | FieldType::Ordinal => true,
            FieldType::Quantitative => false,
        }
    }
}

/// The scale options the library's decisions read.
#[derive(Debug, Clone, Copy)]
pub struct ScaleDef {
    pub zero: Option<bool>,
    pub nice: Option<bool>,
}

impl Default for ScaleDef {
    fn default() -> (r: Self)
        ensures
            r.zero is None && r.nice is None,
    {
        ScaleDef { zero: None, nice: None }
    }
}

/// A chart specification, as far as the library's decisions read it.
#[derive(Debug, Clone)]
pub struct Spec {
    pub title: Option<TitleDef>,
    pub background: Option<String>,
    pub data: DataDef,
    pub mark: MarkDef,
    pub encoding: Encoding,
}

} // verus!
