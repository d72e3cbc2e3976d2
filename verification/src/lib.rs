//! A lightweight, Vega-Lite-style declarative chart renderer: the verified core.
//!
//! The pipeline is `spec -> data columns -> scales -> marks -> raster -> PNG`.
//! This crate holds the parts of it that decide rather than measure: spec
//! interpretation, data extraction, colour assignment, stacking order and PNG
//! framing. Verus verifies every function here, and each that computes
//! something states what in its contract.
//!
//! Nothing here panics: a malformed spec comes back as an [`Error`], because a
//! panic under WASM takes the whole Worker isolate with it.

pub mod axis;
pub mod chart;
pub mod data;
pub mod error;
pub mod ir;
pub mod legend;
pub mod marks;
pub mod order;
pub mod palette;
pub mod render;
pub mod spec;
pub mod text;

pub use error::{Error, Result};
pub use ir::Color;
pub use render::Compression;
pub use spec::Spec;
