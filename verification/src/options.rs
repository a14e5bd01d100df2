//! Initial rendering options.

use vstd::prelude::*;

verus! {

/// Structure used for setting initial rendering options.
#[derive(Debug, Clone, Copy, PartialEq, Eq, Structural)]
pub struct RenderOptions {
    /// Should raw mode be enabled?
    pub raw: bool,
}

impl Default for RenderOptions {
    /// A sensible set of defaults for the rendering options: raw mode off.
    fn default() -> (r: RenderOptions)
        ensures
            r.raw == false,
    {
        RenderOptions { raw: false }
    }
}

} // verus!
