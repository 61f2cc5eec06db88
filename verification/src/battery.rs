//! Battery identifiers and chemistries.

use vstd::prelude::*;

verus! {

/// Unique battery identifier.
#[derive(Debug, Clone, Copy, PartialEq, Eq, Hash, Structural)]
pub struct BatteryId(pub u64);

/// Battery chemistry types.
#[derive(Debug, Clone, Copy, PartialEq, Eq, Structural)]
pub enum BatteryChemistry {
    LithiumIon,
    LithiumIronPhosphate,
    SolidState,
    SodiumIon,
    FlowBattery,
}

} // verus!
