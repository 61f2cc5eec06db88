//! Renewable generation: wind turbine operating regions.

use vstd::prelude::*;

verus! {

/// Wind turbine operating region.
#[derive(Debug, Clone, Copy, PartialEq, Eq, Structural)]
pub enum WindRegion {
    /// Below cut-in speed: no output.
    BelowCutIn,
    /// Between cut-in and rated: cubic power law.
    Partial,
    /// At or above rated but below cut-out: full rated power.
    Rated,
    /// Above cut-out: shutdown for safety.
    AboveCutOut,
}

} // verus!
