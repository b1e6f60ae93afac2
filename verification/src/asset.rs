//! The asset record and its validation rules: name and symbol lengths,
//! the no-whitespace rule for symbols, and the UUID-shaped organization
//! id. A new asset starts listable, not tradable, with its symbol stored
//! upper-cased.

use vstd::prelude::*;
use crate::clock::now_millis;
use crate::error::DomainError;
use crate::key::{generate_unique_key, is_alnum_char, DOMAIN_KEY_SIZE};
use crate::text::{has_whitespace, is_space_char};
use vstd::string::StrSliceExecFns;

verus! {

/// Whether a string parses as a UUID; the outcome depends on the
/// characters alone.
pub uninterp spec fn is_uuid_str(s: Seq<char>) -> bool;

/// Relies on uuid's `Uuid::parse_str`: whether a string is accepted as a
/// UUID is a function of its characters alone.
#[verifier::external_body]
fn parse_uuid_ok(s: &str) -> (r: bool)
    ensures
        r == is_uuid_str(s@),
{
    uuid::Uuid::parse_str(s).is_ok()
}

/// The upper-cased form of a string; the result depends on the
/// characters alone.
pub uninterp spec fn upper_of(s: Seq<char>) -> Seq<char>;

/// Relies on `str::to_uppercase`: the upper-case mapping is a function of
/// the characters alone.
#[verifier::external_body]
fn to_uppercase(s: &str) -> (r: String)
    ensures
        r@ == upper_of(s@),
{
    s.to_uppercase()
}

/// A name is accepted when it has 3 to 32 characters.
pub open spec fn valid_name(s: Seq<char>) -> bool {
    3 <= s.len() && s.len() <= 32
}

/// A symbol is accepted when it has 3 to 10 characters, none of them
/// whitespace.
pub open spec fn valid_symbol(s: Seq<char>) -> bool {
    &&& 3 <= s.len() && s.len() <= 10
    &&& forall|i: int| 0 <= i < s.len() ==> !is_space_char(#[trigger] s[i])
}

/// An organization id is accepted when it has at least 32 characters and
/// parses as a UUID.
pub open spec fn valid_organization(s: Seq<char>) -> bool {
    s.len() >= 32 && is_uuid_str(s)
}

/// A registered digital asset.
#[derive(Debug, Clone)]
pub struct Asset {
    pub id: String,
    pub name: String,
    pub symbol: String,
    pub tradable: bool,
    pub listable: bool,
    pub updated_by: String,
    pub description: String,
    pub organization: String,
    pub owner_fp: String,
    pub created_at: i64,
    pub updated_at: i64,
}

impl Asset {
    /// Validates the inputs and builds a new asset: fresh unique id,
    /// symbol stored upper-cased, `listable` on and `tradable` off, and
    /// both timestamps equal. Nothing is persisted here.
    pub fn new(
        name: String,
        symbol: String,
        updated_by: String,
        description: String,
        organization: String,
    ) -> (r: Result<Asset, DomainError>)
        ensures
            r is Ok <==> (valid_name(name@) && valid_symbol(symbol@) && valid_organization(
                organization@,
            )),
            r matches Ok(a) ==> {
                &&& a.name == name
                &&& a.symbol@ == upper_of(symbol@)
                &&& a.updated_by == updated_by
                &&& a.owner_fp@ == updated_by@
                &&& a.description == description
                &&& a.organization == organization
                &&& a.listable == true
                &&& a.tradable == false
                &&& a.created_at == a.updated_at
                &&& a.id@.len() == DOMAIN_KEY_SIZE
                &&& forall|i: int| 0 <= i < a.id@.len() ==> is_alnum_char(#[trigger] a.id@[i])
            },
            r matches Err(e) ==> e is InvalidArgument,
    {
        Self::validate_name(name.as_str())?;
        Self::validate_symbol(symbol.as_str())?;
        Self::validate_organization(organization.as_str())?;
        let now = now_millis();
        let asset_id = generate_unique_key(DOMAIN_KEY_SIZE);
        let owner_fp = updated_by.clone();
        Ok(Asset {
            name,
            updated_by,
            description,
            organization,
            owner_fp,
            id: asset_id,
            listable: true,
            tradable: false,
            created_at: now,
            updated_at: now,
            symbol: to_uppercase(symbol.as_str()),
        })
    }

    /// Accepts exactly the names of 3 to 32 characters.
    fn validate_name(name: &str) -> (r: Result<(), DomainError>)
        ensures
            r is Ok <==> valid_name(name@),
            r matches Err(e) ==> e is InvalidArgument,
    {
        let len = name.unicode_len();
        if len < 3 || len > 32 {
            return Err(
                DomainError::InvalidArgument(
                    String::from_str("name should be between 3 and 32 characters long"),
                ),
            );
        }
        Ok(())
    }

    /// Accepts exactly the symbols of 3 to 10 characters holding no
    /// whitespace.
    fn validate_symbol(symbol: &str) -> (r: Result<(), DomainError>)
        ensures
            r is Ok <==> valid_symbol(symbol@),
            r matches Err(e) ==> e is InvalidArgument,
    {
        let len = symbol.unicode_len();
        if len < 3 || len > 10 {
            return Err(
                DomainError::InvalidArgument(
                    String::from_str("symbol should be between 3 and 10 characters long"),
                ),
            );
        }
        if has_whitespace(symbol) {
            return Err(
                DomainError::InvalidArgument(
                    String::from_str("symbol should not contain a whitespace"),
                ),
            );
        }
        Ok(())
    }

    /// Accepts exactly the organization ids of at least 32 characters
    /// that parse as a UUID.
    fn validate_organization(org: &str) -> (r: Result<(), DomainError>)
        ensures
            r is Ok <==> valid_organization(org@),
            r matches Err(e) ==> e is InvalidArgument,
    {
        let len = org.unicode_len();
        if len < 32 {
            return Err(
                DomainError::InvalidArgument(
                    String::from_str("orgId should at least be of length 32 characters long"),
                ),
            );
        }
        if !parse_uuid_ok(org) {
            return Err(
                DomainError::InvalidArgument(String::from_str("orgId should be a valid UUID")),
            );
        }
        Ok(())
    }
}

/// An exact copy of an asset record.
pub fn copy_asset(a: &Asset) -> (r: Asset)
    ensures
        r == *a,
{
    Asset {
        id: a.id.clone(),
        name: a.name.clone(),
        symbol: a.symbol.clone(),
        tradable: a.tradable,
        listable: a.listable,
        updated_by: a.updated_by.clone(),
        description: a.description.clone(),
        organization: a.organization.clone(),
        owner_fp: a.owner_fp.clone(),
        created_at: a.created_at,
        updated_at: a.updated_at,
    }
}

/// A partial update of an asset: only the fields that are `Some` are
/// written; `updated_by` is always stamped.
#[derive(Debug, Clone)]
pub struct UpdateAssetRequest {
    pub updated_by: String,
    pub name: Option<String>,
    pub symbol: Option<String>,
    pub listable: Option<bool>,
    pub tradable: Option<bool>,
    pub description: Option<String>,
    pub organization: Option<String>,
}

impl UpdateAssetRequest {
    /// Bundles the optional fields of a partial update.
    pub fn new(
        updated_by: String,
        name: Option<String>,
        listable: Option<bool>,
        tradable: Option<bool>,
        symbol: Option<String>,
        description: Option<String>,
        organization: Option<String>,
    ) -> (r: UpdateAssetRequest)
        ensures
            r.updated_by == updated_by,
            r.name == name,
            r.symbol == symbol,
            r.listable == listable,
            r.tradable == tradable,
            r.description == description,
            r.organization == organization,
    {
        UpdateAssetRequest { name, symbol, listable, tradable, updated_by, description, organization }
    }

    /// True when no updatable field is present, making an update a no-op.
    pub fn is_empty(&self) -> (r: bool)
        ensures
            r == self.is_empty_spec(),
    {
        self.name.is_none() && self.symbol.is_none() && self.listable.is_none()
            && self.tradable.is_none() && self.description.is_none() && self.organization.is_none()
    }

    pub open spec fn is_empty_spec(&self) -> bool {
        self.name is None && self.symbol is None && self.listable is None && self.tradable is None
            && self.description is None && self.organization is None
    }
}

} // verus!
