//! Text backends.
//!
//! Text is measured and outlined in floating point by the rendering layer that
//! wraps this crate. What lives here is the `full-text` backend's handle:
//! scaffolded for `cosmic-text`, for scripts that need real shaping (bidi,
//! contextual forms, reordering), and not yet implemented.

use vstd::prelude::*;

verus! {

pub struct CosmicShaper {
    _private: (),
}

impl CosmicShaper {
    pub fn new() -> Self {
        CosmicShaper { _private: () }
    }
}

impl Default for CosmicShaper {
    fn default() -> Self {
        Self::new()
    }
}

} // verus!
