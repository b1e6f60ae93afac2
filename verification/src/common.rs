//! Request identity: a fresh id for each inbound request, carried in a
//! span extension.

use vstd::prelude::*;

verus! {

/// Relies on uuid's `Uuid::new_v4` and its hyphenated rendering: 36
/// characters. Nothing else is assumed of the random value.
#[verifier::external_body]
pub fn generate_request_id() -> (r: String)
    ensures
        r@.len() == 36,
{
    uuid::Uuid::new_v4().to_string()
}

/// The id a request is traced under.
#[derive(Debug, Clone)]
pub struct RequestId(pub String);

impl RequestId {
    /// The id as a string.
    pub fn value(&self) -> (r: &String)
        ensures
            r == self.0,
    {
        &self.0
    }
}

} // verus!
