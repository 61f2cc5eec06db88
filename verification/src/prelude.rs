//! The main types and functions in one import.

pub use crate::battery::{BatteryChemistry, BatteryId};
pub use crate::content_hash::hash_words;
pub use crate::fnv1a;
pub use crate::grid::{GridId, GridTopology};
pub use crate::load_flow::{AcBusType, BusType};
pub use crate::node::{NodeId, NodeKind};
pub use crate::renewable::WindRegion;
