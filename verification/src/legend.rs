//! Categorical colour legend.
//!
//! Sized before layout, like the axes: the legend's width becomes part of the
//! right inset, so the plot keeps its requested size and the canvas grows.

use vstd::prelude::*;

use crate::data::texts;
use crate::ir::Color;
use crate::palette::{categorical, categorical_color};
use crate::spec::MarkType;

verus! {

#[derive(Debug, Clone)]
pub struct Legend {
    pub title: Option<String>,
    pub entries: Vec<(String, Color)>,
    /// Drives the symbol shape, so the legend matches what is plotted.
    pub mark: MarkType,
}

/// One legend entry per domain value, in domain order, each in the colour its
/// category is drawn in.
pub fn entries_for(domain: &[String]) -> (entries: Vec<(String, Color)>)
    ensures
        entries@.len() == domain@.len(),
        forall|i: int| 0 <= i < domain@.len() ==> (#[trigger] entries@[i]).0 == domain@[i]
            && entries@[i].1 == categorical_color(i),
{
    let mut entries: Vec<(String, Color)> = Vec::new();
    let mut i: usize = 0;
    while i < domain.len()
        invariant
            0 <= i <= domain@.len(),
            entries@.len() == i,
            forall|j: int| 0 <= j < i ==> (#[trigger] entries@[j]).0 == domain@[j]
                && entries@[j].1 == categorical_color(j),
        decreases domain@.len() - i,
    {
        entries.push((domain[i].clone(), categorical(i)));
        i += 1;
    }
    entries
}

/// A legend for a colour domain: the given title and mark, and one entry per
/// domain value, in domain order, in the colour its category is drawn in.
pub open spec fn legend_for(l: Legend, title: Option<String>, domain: Seq<String>, mark: MarkType) -> bool {
    &&& l.title == title
    &&& l.mark == mark
    &&& l.entries@.len() == domain.len()
    &&& forall|i: int| 0 <= i < domain.len() ==> (#[trigger] l.entries@[i]).0 == domain[i]
        && l.entries@[i].1 == categorical_color(i)
}

impl Legend {
    /// The legend for a colour domain: its title, one entry per category, and
    /// the mark whose symbol it shows.
    pub fn for_domain(title: Option<String>, domain: &[String], mark: MarkType) -> (l: Legend)
        ensures
            legend_for(l, title, domain@, mark),
    {
        Legend { title, entries: entries_for(domain), mark }
    }
}

} // verus!
