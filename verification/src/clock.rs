//! Wall-clock reads. Nothing is assumed of the values a clock returns:
//! every caller states what holds of its result whatever time came back.

use vstd::prelude::*;
use crate::error::DomainError;

verus! {

/// Relies on std `SystemTime::now` and `duration_since`: the current
/// wall-clock time in milliseconds since the Unix epoch, or zero when
/// the clock reads before the epoch. Nothing is assumed of the value.
#[verifier::external_body]
pub fn now_millis() -> i64 {
    match std::time::SystemTime::now().duration_since(std::time::SystemTime::UNIX_EPOCH) {
        Ok(d) => d.as_millis() as i64,
        Err(_) => 0,
    }
}

/// Relies on std `SystemTime::now` and `duration_since`: nanoseconds
/// since the Unix epoch, or an error when the clock reads before the
/// epoch. Nothing is assumed of the value.
#[verifier::external_body]
pub fn now_unix_nanos() -> (r: Result<u128, DomainError>)
    ensures
        r matches Err(e) ==> e is ServerError,
{
    match std::time::SystemTime::now().duration_since(std::time::SystemTime::UNIX_EPOCH) {
        Ok(d) => Ok(d.as_nanos()),
        Err(_) => Err(DomainError::ServerError(String::from("failed to read the system clock"))),
    }
}

} // verus!
