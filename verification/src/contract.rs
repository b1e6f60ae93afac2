//! The contract schema version. The contract record itself carries
//! prices as floating point and lives with the unverified service
//! wiring; the store tracks contract existence per asset id.

use vstd::prelude::*;

verus! {

/// The version a contract is written under.
#[derive(Debug, Clone, PartialEq, Eq, Structural)]
pub enum ContractVersion {
    V1,
}

impl ContractVersion {
    /// The version's storage label.
    pub fn label(&self) -> (r: &'static str)
        ensures
            r@ == "v1"@,
    {
        match self {
            ContractVersion::V1 => "v1",
        }
    }
}

} // verus!
