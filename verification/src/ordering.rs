//! Sort order for the query engine: a two-valued enum with strict string
//! parsing. Every accepted synonym maps to one of the two values; any other
//! string is a parse error, never a silent default.

use vstd::prelude::*;
use crate::error::DomainError;
use crate::text::str_eq;

verus! {

/// The direction a sorted result set is served in.
#[derive(Debug, Clone, Copy, PartialEq, Eq, Hash, PartialOrd, Ord, Structural)]
pub enum OrderType {
    Asc,
    Desc,
}

/// The order named by a string, if it names one: the four ascending
/// synonyms map to `Asc`, the four descending synonyms to `Desc`.
pub open spec fn order_of_chars(s: Seq<char>) -> Option<OrderType> {
    if s == "asc"@ || s == "ascending"@ || s == "ASC"@ || s == "ASCENDING"@ {
        Some(OrderType::Asc)
    } else if s == "desc"@ || s == "descending"@ || s == "DESC"@ || s == "DESCENDING"@ {
        Some(OrderType::Desc)
    } else {
        None
    }
}

impl OrderType {
    /// Parses a sort order; an unrecognized string is rejected.
    pub fn parse(s: &str) -> (r: Result<OrderType, DomainError>)
        ensures
            order_of_chars(s@) matches Some(v) ==> r == Ok::<OrderType, DomainError>(v),
            r is Err <==> order_of_chars(s@) is None,
    {
        if str_eq(s, "asc") || str_eq(s, "ascending") || str_eq(s, "ASC") || str_eq(
            s,
            "ASCENDING",
        ) {
            Ok(OrderType::Asc)
        } else if str_eq(s, "desc") || str_eq(s, "descending") || str_eq(s, "DESC") || str_eq(
            s,
            "DESCENDING",
        ) {
            Ok(OrderType::Desc)
        } else {
            Err(DomainError::InvalidArgument(String::from_str("invalid order type")))
        }
    }
}

impl core::str::FromStr for OrderType {
    type Err = DomainError;

    fn from_str(s: &str) -> Result<OrderType, DomainError> {
        OrderType::parse(s)
    }
}

impl Default for OrderType {
    fn default() -> (r: Self)
        ensures
            r == OrderType::Asc,
    {
        OrderType::Asc
    }
}

impl From<String> for OrderType {
    /// Falls back to the default ascending order when the string does not
    /// parse; call sites that must reject bad input use [`OrderType::parse`].
    fn from(s: String) -> (r: Self) {
        match OrderType::parse(s.as_str()) {
            Ok(v) => v,
            Err(_) => OrderType::Asc,
        }
    }
}

impl vstd::std_specs::convert::FromSpecImpl<String> for OrderType {
    open spec fn obeys_from_spec() -> bool {
        true
    }

    open spec fn from_spec(s: String) -> OrderType {
        match order_of_chars(s@) {
            Some(v) => v,
            None => OrderType::Asc,
        }
    }
}

} // verus!
