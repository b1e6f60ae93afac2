//! Unique-key generation for entity ids: a fixed-length, high-entropy
//! random alphanumeric string.

use vstd::prelude::*;
use rand::Rng;

verus! {

/// The length of every generated entity key.
pub const DOMAIN_KEY_SIZE: usize = 32;

/// An ASCII letter or digit.
pub open spec fn is_alnum_char(c: char) -> bool {
    ('a' <= c && c <= 'z') || ('A' <= c && c <= 'Z') || ('0' <= c && c <= '9')
}

/// Relies on rand's `Alphanumeric` distribution: every sampled byte is an
/// ASCII letter or digit, so the collected string has exactly `length`
/// such characters. Nothing else is assumed of the random values.
#[verifier::external_body]
pub fn generate_unique_key(length: usize) -> (r: String)
    ensures
        r@.len() == length,
        forall|i: int| 0 <= i < r@.len() ==> is_alnum_char(#[trigger] r@[i]),
{
    rand::rng().sample_iter(&rand::distr::Alphanumeric).take(length).map(char::from).collect()
}

} // verus!
