//! The storage model the registry, ledger and orchestrator are verified
//! against: the asset table, the certificate table, the append-only
//! ownership trail, and the set of asset ids holding a contract. Ids are
//! unique, and every certificate is bound to exactly one asset.

use vstd::prelude::*;
use crate::asset::{copy_asset, Asset, UpdateAssetRequest};
use crate::error::DatabaseError;
use crate::nfc::{copy_nfc, copy_trail, NFC, NFCTrail};
use crate::text::str_eq;
use vstd::string::StrSliceExecFns;

verus! {

/// Some asset in the table carries this id.
pub open spec fn has_asset_id(s: Seq<Asset>, id: Seq<char>) -> bool {
    exists|k: int| 0 <= k < s.len() && (#[trigger] s[k]).id@ == id
}

/// The index of the asset carrying this id (unique in a well-formed
/// table).
pub open spec fn asset_idx(s: Seq<Asset>, id: Seq<char>) -> int {
    choose|k: int| 0 <= k < s.len() && (#[trigger] s[k]).id@ == id
}

/// Some certificate is bound to this asset.
pub open spec fn has_nfc_for_asset(s: Seq<NFC>, asset_id: Seq<char>) -> bool {
    exists|k: int| 0 <= k < s.len() && (#[trigger] s[k]).asset_id@ == asset_id
}

/// The index of the certificate bound to this asset.
pub open spec fn nfc_idx_for_asset(s: Seq<NFC>, asset_id: Seq<char>) -> int {
    choose|k: int| 0 <= k < s.len() && (#[trigger] s[k]).asset_id@ == asset_id
}

/// Some certificate carries this id.
pub open spec fn has_nfc_id(s: Seq<NFC>, id: Seq<char>) -> bool {
    exists|k: int| 0 <= k < s.len() && (#[trigger] s[k]).id@ == id
}

/// A contract exists for this asset id.
pub open spec fn has_contract_id(s: Seq<String>, asset_id: Seq<char>) -> bool {
    exists|k: int| 0 <= k < s.len() && (#[trigger] s[k])@ == asset_id
}

/// The in-memory state of the store: assets, certificates, the ownership
/// trail, and which assets hold a contract.
pub struct AssetStore {
    pub assets: Vec<Asset>,
    pub nfcs: Vec<NFC>,
    pub trails: Vec<NFCTrail>,
    pub contract_asset_ids: Vec<String>,
}

impl AssetStore {
    /// Well-formedness: asset ids are unique, certificate ids are
    /// unique, at most one certificate is bound to an asset, and an
    /// asset holds at most one contract.
    pub open spec fn wf(&self) -> bool {
        &&& forall|p: int, q: int|
            0 <= p < q < self.assets@.len() ==> (#[trigger] self.assets@[p]).id@ != (
            #[trigger] self.assets@[q]).id@
        &&& forall|p: int, q: int|
            0 <= p < q < self.nfcs@.len() ==> (#[trigger] self.nfcs@[p]).id@ != (
            #[trigger] self.nfcs@[q]).id@
        &&& forall|p: int, q: int|
            0 <= p < q < self.nfcs@.len() ==> (#[trigger] self.nfcs@[p]).asset_id@ != (
            #[trigger] self.nfcs@[q]).asset_id@
        &&& forall|p: int, q: int|
            0 <= p < q < self.contract_asset_ids@.len() ==> (
            #[trigger] self.contract_asset_ids@[p])@ != (#[trigger] self.contract_asset_ids@[q])@
    }

    /// An empty store.
    pub fn new() -> (r: AssetStore)
        ensures
            r.wf(),
            r.assets@.len() == 0,
            r.nfcs@.len() == 0,
            r.trails@.len() == 0,
            r.contract_asset_ids@.len() == 0,
    {
        AssetStore {
            assets: Vec::new(),
            nfcs: Vec::new(),
            trails: Vec::new(),
            contract_asset_ids: Vec::new(),
        }
    }

    /// The position of the asset with this id, if one exists.
    fn find_asset_pos(&self, asset_id: &str) -> (r: Option<usize>)
        requires
            self.wf(),
        ensures
            r matches Some(k) ==> k < self.assets@.len() && self.assets@[k as int].id@ == asset_id@
                && k as int == asset_idx(self.assets@, asset_id@),
            r is None <==> !has_asset_id(self.assets@, asset_id@),
    {
        let n = self.assets.len();
        let mut i: usize = 0;
        while i < n
            invariant
                i <= n,
                self.wf(),
                n == self.assets@.len(),
                forall|j: int| 0 <= j < i ==> (#[trigger] self.assets@[j]).id@ != asset_id@,
            decreases n - i,
        {
            if str_eq(self.assets[i].id.as_str(), asset_id) {
                proof {
                    assert(self.assets@[i as int].id@ == asset_id@);
                    assert(has_asset_id(self.assets@, asset_id@));
                    let k = asset_idx(self.assets@, asset_id@);
                    assert(0 <= k < self.assets@.len() && self.assets@[k].id@ == asset_id@);
                    if k < i as int {
                        assert(self.assets@[k].id@ != asset_id@);
                        assert(false);
                    } else if k > i as int {
                        assert(self.assets@[i as int].id@ != self.assets@[k].id@);
                        assert(false);
                    }
                }
                return Some(i);
            }
            i = i + 1;
        }
        None
    }

    /// A point lookup by id: the matching asset, or `NotFound`.
    pub fn find_asset_by_id(&self, asset_id: &str) -> (r: Result<Asset, DatabaseError>)
        requires
            self.wf(),
        ensures
            r matches Ok(a) ==> has_asset_id(self.assets@, asset_id@) && a == self.assets@[
                asset_idx(self.assets@, asset_id@)],
            r is Err <==> !has_asset_id(self.assets@, asset_id@),
            r matches Err(e) ==> e == DatabaseError::NotFound,
    {
        match self.find_asset_pos(asset_id) {
            Some(k) => Ok(copy_asset(&self.assets[k])),
            None => Err(DatabaseError::NotFound),
        }
    }

    /// An ownership-scoped lookup: the asset must carry both the id and
    /// the organization, or `NotFound`.
    pub fn find_asset_by_id_and_org_id(&self, asset_id: &str, org_id: &str) -> (r: Result<
        Asset,
        DatabaseError,
    >)
        requires
            self.wf(),
        ensures
            r matches Ok(a) ==> has_asset_id(self.assets@, asset_id@) && a == self.assets@[
                asset_idx(self.assets@, asset_id@)] && a.organization@ == org_id@,
            r is Err <==> !(has_asset_id(self.assets@, asset_id@) && self.assets@[asset_idx(
                self.assets@,
                asset_id@,
            )].organization@ == org_id@),
            r matches Err(e) ==> e == DatabaseError::NotFound,
    {
        match self.find_asset_pos(asset_id) {
            Some(k) => {
                if str_eq(self.assets[k].organization.as_str(), org_id) {
                    Ok(copy_asset(&self.assets[k]))
                } else {
                    Err(DatabaseError::NotFound)
                }
            },
            None => Err(DatabaseError::NotFound),
        }
    }

    /// Inserts a new asset row; reports `false` without changing anything
    /// when the id is already taken.
    pub fn insert_asset(&mut self, a: Asset) -> (inserted: bool)
        requires
            old(self).wf(),
        ensures
            final(self).wf(),
            inserted <==> !has_asset_id(old(self).assets@, a.id@),
            inserted ==> final(self).assets@ == old(self).assets@.push(a),
            !inserted ==> final(self).assets@ == old(self).assets@,
            final(self).nfcs@ == old(self).nfcs@,
            final(self).trails@ == old(self).trails@,
            final(self).contract_asset_ids@ == old(self).contract_asset_ids@,
    {
        match self.find_asset_pos(a.id.as_str()) {
            Some(_) => false,
            None => {
                self.assets.push(a);
                true
            },
        }
    }

    /// Deletes the asset row with this id; `Ok(true)` exactly when a row
    /// was removed.
    pub fn delete_asset_by_id(&mut self, asset_id: &str) -> (r: Result<bool, DatabaseError>)
        requires
            old(self).wf(),
        ensures
            final(self).wf(),
            r matches Ok(b) ==> (b <==> has_asset_id(old(self).assets@, asset_id@)),
            r is Ok,
            has_asset_id(old(self).assets@, asset_id@) ==> final(self).assets@ == old(self).assets@.remove(asset_idx(old(self).assets@, asset_id@)),
            !has_asset_id(old(self).assets@, asset_id@) ==> final(self).assets@ == old(self).assets@,
            final(self).nfcs@ == old(self).nfcs@,
            final(self).trails@ == old(self).trails@,
            final(self).contract_asset_ids@ == old(self).contract_asset_ids@,
    {
        match self.find_asset_pos(asset_id) {
            Some(k) => {
                self.assets.remove(k);
                proof {
                    let s0 = old(self).assets@;
                    let s1 = self.assets@;
                    assert forall|p: int, q: int| 0 <= p < q < s1.len() implies (
                    #[trigger] s1[p]).id@ != (#[trigger] s1[q]).id@ by {
                        let p0 = if p < k as int { p } else { p + 1 };
                        let q0 = if q < k as int { q } else { q + 1 };
                        assert(s1[p] == s0[p0]);
                        assert(s1[q] == s0[q0]);
                    }
                }
                Ok(true)
            },
            None => Ok(false),
        }
    }

    /// A contract exists for this asset.
    pub fn has_contract(&self, asset_id: &str) -> (r: bool)
        ensures
            r <==> has_contract_id(self.contract_asset_ids@, asset_id@),
    {
        let n = self.contract_asset_ids.len();
        let mut i: usize = 0;
        while i < n
            invariant
                i <= n,
                n == self.contract_asset_ids@.len(),
                forall|j: int| 0 <= j < i ==> (#[trigger] self.contract_asset_ids@[j])@
                    != asset_id@,
            decreases n - i,
        {
            if str_eq(self.contract_asset_ids[i].as_str(), asset_id) {
                return true;
            }
            i = i + 1;
        }
        false
    }

    /// Records that a contract exists for this asset; a second contract
    /// for the same asset is a conflict.
    pub fn add_contract(&mut self, asset_id: String) -> (r: Result<bool, DatabaseError>)
        requires
            old(self).wf(),
        ensures
            final(self).wf(),
            r is Ok <==> !has_contract_id(old(self).contract_asset_ids@, asset_id@),
            r matches Err(e) ==> e is RecordExists,
            r is Ok ==> final(self).contract_asset_ids@ == old(self).contract_asset_ids@.push(
                asset_id,
            ),
            r is Err ==> final(self).contract_asset_ids@ == old(self).contract_asset_ids@,
            r matches Ok(b) ==> b == true,
            final(self).assets@ == old(self).assets@,
            final(self).nfcs@ == old(self).nfcs@,
            final(self).trails@ == old(self).trails@,
    {
        if self.has_contract(asset_id.as_str()) {
            return Err(
                DatabaseError::RecordExists(
                    String::from_str("contract for given asset id exists"),
                ),
            );
        }
        self.contract_asset_ids.push(asset_id);
        Ok(true)
    }

    /// The position of the certificate bound to this asset, if any.
    fn find_nfc_pos_for_asset(&self, asset_id: &str) -> (r: Option<usize>)
        requires
            self.wf(),
        ensures
            r matches Some(k) ==> k < self.nfcs@.len() && self.nfcs@[k as int].asset_id@
                == asset_id@ && k as int == nfc_idx_for_asset(self.nfcs@, asset_id@),
            r is None <==> !has_nfc_for_asset(self.nfcs@, asset_id@),
    {
        let n = self.nfcs.len();
        let mut i: usize = 0;
        while i < n
            invariant
                i <= n,
                self.wf(),
                n == self.nfcs@.len(),
                forall|j: int| 0 <= j < i ==> (#[trigger] self.nfcs@[j]).asset_id@ != asset_id@,
            decreases n - i,
        {
            if str_eq(self.nfcs[i].asset_id.as_str(), asset_id) {
                proof {
                    assert(self.nfcs@[i as int].asset_id@ == asset_id@);
                    assert(has_nfc_for_asset(self.nfcs@, asset_id@));
                    let k = nfc_idx_for_asset(self.nfcs@, asset_id@);
                    assert(0 <= k < self.nfcs@.len() && self.nfcs@[k].asset_id@ == asset_id@);
                    if k < i as int {
                        assert(self.nfcs@[k].asset_id@ != asset_id@);
                        assert(false);
                    } else if k > i as int {
                        assert(self.nfcs@[i as int].asset_id@ != self.nfcs@[k].asset_id@);
                        assert(false);
                    }
                }
                return Some(i);
            }
            i = i + 1;
        }
        None
    }

    /// The certificate bound to this asset, or `NotFound`.
    pub fn get_nfc_by_asset_id(&self, asset_id: &str) -> (r: Result<NFC, DatabaseError>)
        requires
            self.wf(),
        ensures
            r matches Ok(c) ==> has_nfc_for_asset(self.nfcs@, asset_id@) && c == self.nfcs@[
                nfc_idx_for_asset(self.nfcs@, asset_id@)],
            r is Err <==> !has_nfc_for_asset(self.nfcs@, asset_id@),
            r matches Err(e) ==> e == DatabaseError::NotFound,
    {
        match self.find_nfc_pos_for_asset(asset_id) {
            Some(k) => Ok(copy_nfc(&self.nfcs[k])),
            None => Err(DatabaseError::NotFound),
        }
    }

    /// The certificate with this id, or `NotFound`.
    pub fn get_nfc_by_id(&self, nfc_id: &str) -> (r: Result<NFC, DatabaseError>)
        ensures
            r matches Ok(c) ==> self.nfcs@.contains(c) && c.id@ == nfc_id@,
            r is Err <==> !has_nfc_id(self.nfcs@, nfc_id@),
            r matches Err(e) ==> e == DatabaseError::NotFound,
    {
        let n = self.nfcs.len();
        let mut i: usize = 0;
        while i < n
            invariant
                i <= n,
                n == self.nfcs@.len(),
                forall|j: int| 0 <= j < i ==> (#[trigger] self.nfcs@[j]).id@ != nfc_id@,
            decreases n - i,
        {
            if str_eq(self.nfcs[i].id.as_str(), nfc_id) {
                let c = copy_nfc(&self.nfcs[i]);
                proof {
                    assert(self.nfcs@[i as int] == c);
                }
                return Ok(c);
            }
            i = i + 1;
        }
        Err(DatabaseError::NotFound)
    }

    /// Inserts a certificate row; reports `false` without changing
    /// anything when its id is taken or its asset already holds one.
    pub fn insert_nfc(&mut self, nfc: NFC) -> (inserted: bool)
        requires
            old(self).wf(),
        ensures
            final(self).wf(),
            inserted <==> (!has_nfc_id(old(self).nfcs@, nfc.id@) && !has_nfc_for_asset(
                old(self).nfcs@,
                nfc.asset_id@,
            )),
            inserted ==> final(self).nfcs@ == old(self).nfcs@.push(nfc),
            !inserted ==> final(self).nfcs@ == old(self).nfcs@,
            final(self).assets@ == old(self).assets@,
            final(self).trails@ == old(self).trails@,
            final(self).contract_asset_ids@ == old(self).contract_asset_ids@,
    {
        let has_id = self.nfc_id_taken(nfc.id.as_str());
        let has_asset = self.find_nfc_pos_for_asset(nfc.asset_id.as_str());
        if has_id || has_asset.is_some() {
            false
        } else {
            self.nfcs.push(nfc);
            true
        }
    }

    /// Some certificate row already carries this id.
    pub(crate) fn nfc_id_taken(&self, nfc_id: &str) -> (r: bool)
        ensures
            r <==> has_nfc_id(self.nfcs@, nfc_id@),
    {
        let n = self.nfcs.len();
        let mut i: usize = 0;
        while i < n
            invariant
                i <= n,
                n == self.nfcs@.len(),
                forall|j: int| 0 <= j < i ==> (#[trigger] self.nfcs@[j]).id@ != nfc_id@,
            decreases n - i,
        {
            if str_eq(self.nfcs[i].id.as_str(), nfc_id) {
                return true;
            }
            i = i + 1;
        }
        false
    }

    /// Appends one entry to the ownership trail. The trail is append-only:
    /// no other row is touched.
    pub fn create_nfc_trail(&mut self, trail: NFCTrail)
        requires
            old(self).wf(),
        ensures
            final(self).wf(),
            final(self).trails@ == old(self).trails@.push(trail),
            final(self).assets@ == old(self).assets@,
            final(self).nfcs@ == old(self).nfcs@,
            final(self).contract_asset_ids@ == old(self).contract_asset_ids@,
    {
        self.trails.push(trail);
    }

    /// Every trail entry recorded for this certificate, in the order the
    /// entries were appended.
    pub fn get_nfc_trails_by_nfc_id(&self, nfc_id: &str) -> (r: Vec<NFCTrail>)
        ensures
            r@ == self.trails@.filter(|t: NFCTrail| t.nfc_id@ == nfc_id@),
    {
        let n = self.trails.len();
        let mut out: Vec<NFCTrail> = Vec::new();
        let mut i: usize = 0;
        proof {
            assert(self.trails@.subrange(0, 0).filter(|t: NFCTrail| t.nfc_id@ == nfc_id@)
                =~= Seq::<NFCTrail>::empty()) by {
                reveal(Seq::filter);
            }
        }
        while i < n
            invariant
                i <= n,
                n == self.trails@.len(),
                out@ == self.trails@.subrange(0, i as int).filter(
                    |t: NFCTrail| t.nfc_id@ == nfc_id@,
                ),
            decreases n - i,
        {
            let ghost pred = |t: NFCTrail| t.nfc_id@ == nfc_id@;
            let ghost prefix = self.trails@.subrange(0, i as int);
            let ghost next_prefix = self.trails@.subrange(0, i as int + 1);
            proof {
                assert(next_prefix.drop_last() =~= prefix);
                assert(next_prefix.last() == self.trails@[i as int]);
                reveal(Seq::filter);
            }
            if str_eq(self.trails[i].nfc_id.as_str(), nfc_id) {
                out.push(copy_trail(&self.trails[i]));
            }
            i = i + 1;
        }
        proof {
            assert(self.trails@.subrange(0, n as int) =~= self.trails@);
        }
        out
    }

    /// The ownership-change part of a transfer: sets the organization,
    /// owner fingerprint and `updated_by` of the asset row with this id,
    /// and reports how many rows that touched (one, or zero when the id
    /// matches nothing).
    pub fn transfer_asset_fields(&mut self, asset_id: &str, new_org: &str, new_owner: &str) -> (rows:
        usize)
        requires
            old(self).wf(),
        ensures
            final(self).wf(),
            rows == if has_asset_id(old(self).assets@, asset_id@) {
                1int
            } else {
                0int
            },
            !has_asset_id(old(self).assets@, asset_id@) ==> final(self).assets@ == old(self).assets@,
            has_asset_id(old(self).assets@, asset_id@) ==> {
                let k = asset_idx(old(self).assets@, asset_id@);
                let a0 = old(self).assets@[k];
                let a1 = final(self).assets@[k];
                &&& final(self).assets@.len() == old(self).assets@.len()
                &&& forall|j: int|
                    0 <= j < old(self).assets@.len() && j != k
                        ==> final(self).assets@[j] == old(self).assets@[j]
                &&& a1.id == a0.id
                &&& a1.name == a0.name
                &&& a1.symbol == a0.symbol
                &&& a1.tradable == a0.tradable
                &&& a1.listable == a0.listable
                &&& a1.description == a0.description
                &&& a1.created_at == a0.created_at
                &&& a1.updated_at == a0.updated_at
                &&& a1.organization@ == new_org@
                &&& a1.owner_fp@ == new_owner@
                &&& a1.updated_by@ == new_owner@
            },
            final(self).nfcs@ == old(self).nfcs@,
            final(self).trails@ == old(self).trails@,
            final(self).contract_asset_ids@ == old(self).contract_asset_ids@,
    {
        match self.find_asset_pos(asset_id) {
            Some(k) => {
                let a0 = copy_asset(&self.assets[k]);
                let a1 = Asset {
                    organization: new_org.to_owned(),
                    owner_fp: new_owner.to_owned(),
                    updated_by: new_owner.to_owned(),
                    ..a0
                };
                let _ = self.assets.remove(k);
                self.assets.insert(k, a1);
                proof {
                    assert(final(self).assets@ =~= old(self).assets@.update(k as int, a1));
                    let s0 = old(self).assets@;
                    let s1 = self.assets@;
                    assert forall|p: int, q: int| 0 <= p < q < s1.len() implies (
                    #[trigger] s1[p]).id@ != (#[trigger] s1[q]).id@ by {
                        assert(s0[p].id@ != s0[q].id@);
                        assert(s1[p].id@ == s0[p].id@);
                        assert(s1[q].id@ == s0[q].id@);
                    }
                }
                1
            },
            None => 0,
        }
    }

    /// Applies a partial update to the asset row with this id, stamping
    /// `updated_by` and the update time; reports `Ok(false)` when no row
    /// matched. An `updated_by` under 50 characters is rejected before
    /// anything is touched, and a request with no field present is a
    /// no-op success.
    pub fn update_asset(
        &mut self,
        asset_id: &str,
        updated_by: &str,
        asset: &UpdateAssetRequest,
    ) -> (r: Result<bool, DatabaseError>)
        requires
            old(self).wf(),
        ensures
            final(self).wf(),
            final(self).nfcs@ == old(self).nfcs@,
            final(self).trails@ == old(self).trails@,
            final(self).contract_asset_ids@ == old(self).contract_asset_ids@,
            updated_by@.len() < 50 ==> (r matches Err(e) && e is InvalidArgument
                && final(self).assets@ == old(self).assets@),
            updated_by@.len() >= 50 && asset.is_empty_spec() ==> (r == Ok::<
                bool,
                DatabaseError,
            >(true) && final(self).assets@ == old(self).assets@),
            updated_by@.len() >= 50 && !asset.is_empty_spec() && !has_asset_id(
                old(self).assets@,
                asset_id@,
            ) ==> (r == Ok::<bool, DatabaseError>(false)
                && final(self).assets@ == old(self).assets@),
            updated_by@.len() >= 50 && !asset.is_empty_spec() && has_asset_id(
                old(self).assets@,
                asset_id@,
            ) ==> {
                let k = asset_idx(old(self).assets@, asset_id@);
                let a0 = old(self).assets@[k];
                let a1 = final(self).assets@[k];
                &&& r == Ok::<bool, DatabaseError>(true)
                &&& final(self).assets@.len() == old(self).assets@.len()
                &&& forall|j: int|
                    0 <= j < old(self).assets@.len() && j != k
                        ==> final(self).assets@[j] == old(self).assets@[j]
                &&& a1.id == a0.id
                &&& a1.name == (if asset.name is Some {
                    asset.name.unwrap()
                } else {
                    a0.name
                })
                &&& a1.symbol == (if asset.symbol is Some {
                    asset.symbol.unwrap()
                } else {
                    a0.symbol
                })
                &&& a1.description == (if asset.description is Some {
                    asset.description.unwrap()
                } else {
                    a0.description
                })
                &&& a1.organization == (if asset.organization is Some {
                    asset.organization.unwrap()
                } else {
                    a0.organization
                })
                &&& a1.listable == (if asset.listable is Some {
                    asset.listable.unwrap()
                } else {
                    a0.listable
                })
                &&& a1.tradable == (if asset.tradable is Some {
                    asset.tradable.unwrap()
                } else {
                    a0.tradable
                })
                &&& a1.owner_fp == a0.owner_fp
                &&& a1.created_at == a0.created_at
                &&& a1.updated_by@ == updated_by@
            },
    {
        if updated_by.unicode_len() < 50 {
            return Err(
                DatabaseError::InvalidArgument(String::from_str("updated_by is required")),
            );
        }
        if asset.is_empty() {
            // no field is there to be updated: a no-op success
            return Ok(true);
        }
        match self.find_asset_pos(asset_id) {
            None => Ok(false),
            Some(k) => {
                let a0 = copy_asset(&self.assets[k]);
                let name = match &asset.name {
                    Some(n) => n.clone(),
                    None => a0.name.clone(),
                };
                let symbol = match &asset.symbol {
                    Some(s) => s.clone(),
                    None => a0.symbol.clone(),
                };
                let description = match &asset.description {
                    Some(d) => d.clone(),
                    None => a0.description.clone(),
                };
                let organization = match &asset.organization {
                    Some(o) => o.clone(),
                    None => a0.organization.clone(),
                };
                let listable = match asset.listable {
                    Some(b) => b,
                    None => a0.listable,
                };
                let tradable = match asset.tradable {
                    Some(b) => b,
                    None => a0.tradable,
                };
                let now = crate::clock::now_millis();
                let a1 = Asset {
                    id: a0.id.clone(),
                    name,
                    symbol,
                    description,
                    organization,
                    listable,
                    tradable,
                    owner_fp: a0.owner_fp.clone(),
                    created_at: a0.created_at,
                    updated_at: now,
                    updated_by: updated_by.to_owned(),
                };
                let _ = self.assets.remove(k);
                self.assets.insert(k, a1);
                proof {
                    assert(final(self).assets@ =~= old(self).assets@.update(k as int, a1));
                    let s0 = old(self).assets@;
                    let s1 = self.assets@;
                    assert forall|p: int, q: int| 0 <= p < q < s1.len() implies (
                    #[trigger] s1[p]).id@ != (#[trigger] s1[q]).id@ by {
                        assert(s0[p].id@ != s0[q].id@);
                        assert(s1[p].id@ == s0[p].id@);
                        assert(s1[q].id@ == s0[q].id@);
                    }
                }
                Ok(true)
            },
        }
    }
}

} // verus!
