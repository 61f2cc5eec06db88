//! Flexible AC Transmission System (FACTS) device kinds.

use vstd::prelude::*;

verus! {

/// FACTS device kind.
#[derive(Debug, Clone, Copy, PartialEq, Eq, Structural)]
pub enum FactsType {
    /// Static Synchronous Compensator.
    Statcom,
    /// Static Var Compensator.
    Svc,
    /// Unified Power Flow Controller.
    Upfc,
}

impl FactsType {
    /// The device's display name.
    pub open spec fn display_name(self) -> Seq<char> {
        match self {
            FactsType::Statcom => "STATCOM"@,
            FactsType::Svc => "SVC"@,
            FactsType::Upfc => "UPFC"@,
        }
    }

    /// The device's display name, as a string.
    pub fn to_string(&self) -> (s: String)
        ensures
            s@ == self.display_name(),
    {
        match self {
            FactsType::Statcom => "STATCOM".to_owned(),
            FactsType::Svc => "SVC".to_owned(),
            FactsType::Upfc => "UPFC".to_owned(),
        }
    }
}

} // verus!
