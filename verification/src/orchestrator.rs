//! The transfer/issuance orchestrator: multi-step flows executed as one
//! atomic unit of work. Each step either succeeds or aborts the whole
//! unit; no partial write survives. The storage engine's verdict on the
//! trail append (its reported row count) is an input, so every outcome
//! the engine can report is covered, including the rollback paths.

use vstd::prelude::*;
use crate::asset::{copy_asset, Asset};
use crate::error::{DatabaseError, OrchestrateError};
use crate::nfc::{CertificateIssuer, NFC, NFCTrail};
use crate::store::{
    asset_idx, has_asset_id, has_contract_id, has_nfc_for_asset, nfc_idx_for_asset, AssetStore,
};

verus! {

/// The asset exists and is held by the given organization.
pub open spec fn transfer_scoped_found(s: &AssetStore, asset_id: Seq<char>, org_id: Seq<char>) -> bool {
    has_asset_id(s.assets@, asset_id) && s.assets@[asset_idx(s.assets@, asset_id)].organization@
        == org_id
}

/// The transfer targets the organization and the current owner the
/// asset already has: invalid input, not a no-op success.
pub open spec fn transfer_to_self(
    s: &AssetStore,
    asset_id: Seq<char>,
    new_org_id: Seq<char>,
    new_owner: Seq<char>,
) -> bool {
    &&& s.assets@[asset_idx(s.assets@, asset_id)].organization@ == new_org_id
    &&& s.assets@[asset_idx(s.assets@, asset_id)].owner_fp@ == new_owner
}

/// Nothing in the store changed.
pub open spec fn store_unchanged(s0: &AssetStore, s1: &AssetStore) -> bool {
    &&& s1.assets@ == s0.assets@
    &&& s1.nfcs@ == s0.nfcs@
    &&& s1.trails@ == s0.trails@
    &&& s1.contract_asset_ids@ == s0.contract_asset_ids@
}

/// Transfers an asset to a new organization and owner: fetch the asset
/// scoped by organization, reject a transfer to the same organization
/// and owner, require a contract and the asset's certificate, then
/// update the ownership fields and append one trail entry — both inside
/// one transaction, committed only when the storage engine confirms the
/// append (`trail_insert_applied` is its reported outcome). On every
/// error path the store is exactly as it was.
pub fn orchestrate_transfer_asset(
    org_id: &str,
    asset_id: &str,
    new_org_id: &str,
    new_asset_owner: &str,
    store: &mut AssetStore,
    trail_insert_applied: bool,
) -> (r: Result<NFC, OrchestrateError>)
    requires
        old(store).wf(),
    ensures
        final(store).wf(),
        !transfer_scoped_found(old(store), asset_id@, org_id@) ==> (r matches Err(e) && e
            is NotFoundError && store_unchanged(old(store), final(store))),
        transfer_scoped_found(old(store), asset_id@, org_id@) && transfer_to_self(
            old(store),
            asset_id@,
            new_org_id@,
            new_asset_owner@,
        ) ==> (r matches Err(e) && e is InvalidArgument && store_unchanged(
            old(store),
            final(store),
        )),
        transfer_scoped_found(old(store), asset_id@, org_id@) && !transfer_to_self(
            old(store),
            asset_id@,
            new_org_id@,
            new_asset_owner@,
        ) && !has_contract_id(old(store).contract_asset_ids@, asset_id@) ==> (r matches Err(e) && e
            is NotFoundError && store_unchanged(old(store), final(store))),
        transfer_scoped_found(old(store), asset_id@, org_id@) && !transfer_to_self(
            old(store),
            asset_id@,
            new_org_id@,
            new_asset_owner@,
        ) && has_contract_id(old(store).contract_asset_ids@, asset_id@) && !has_nfc_for_asset(
            old(store).nfcs@,
            asset_id@,
        ) ==> (r matches Err(e) && e matches OrchestrateError::DatabaseError(d) && d
            is InvalidRecordState && store_unchanged(old(store), final(store))),
        transfer_scoped_found(old(store), asset_id@, org_id@) && !transfer_to_self(
            old(store),
            asset_id@,
            new_org_id@,
            new_asset_owner@,
        ) && has_contract_id(old(store).contract_asset_ids@, asset_id@) && has_nfc_for_asset(
            old(store).nfcs@,
            asset_id@,
        ) && !trail_insert_applied ==> (r matches Err(e) && e matches OrchestrateError::DatabaseError(
            d,
        ) && d is TransactionStepError && store_unchanged(old(store), final(store))),
        transfer_scoped_found(old(store), asset_id@, org_id@) && !transfer_to_self(
            old(store),
            asset_id@,
            new_org_id@,
            new_asset_owner@,
        ) && has_contract_id(old(store).contract_asset_ids@, asset_id@) && has_nfc_for_asset(
            old(store).nfcs@,
            asset_id@,
        ) && trail_insert_applied ==> {
            let k = asset_idx(old(store).assets@, asset_id@);
            let a0 = old(store).assets@[k];
            let a1 = final(store).assets@[k];
            let cert = old(store).nfcs@[nfc_idx_for_asset(old(store).nfcs@, asset_id@)];
            &&& r == Ok::<NFC, OrchestrateError>(cert)
            &&& final(store).nfcs@ == old(store).nfcs@
            &&& final(store).contract_asset_ids@ == old(store).contract_asset_ids@
            &&& final(store).assets@.len() == old(store).assets@.len()
            &&& forall|j: int|
                0 <= j < old(store).assets@.len() && j != k
                    ==> final(store).assets@[j] == old(store).assets@[j]
            &&& a1.id == a0.id
            &&& a1.name == a0.name
            &&& a1.symbol == a0.symbol
            &&& a1.created_at == a0.created_at
            &&& a1.organization@ == new_org_id@
            &&& a1.owner_fp@ == new_asset_owner@
            &&& a1.updated_by@ == new_asset_owner@
            &&& final(store).trails@.len() == old(store).trails@.len() + 1
            &&& final(store).trails@.subrange(0, old(store).trails@.len() as int) == old(
                store,
            ).trails@
            &&& final(store).trails@.last().nfc_id@ == cert.id@
            &&& final(store).trails@.last().user_fp@ == new_asset_owner@
            &&& final(store).trails@.last().asset_id@ == asset_id@
        },
{
    // 1. the asset must exist under the given organization
    let asset = match store.find_asset_by_id_and_org_id(asset_id, org_id) {
        Ok(a) => a,
        Err(DatabaseError::NotFound) => {
            return Err(
                OrchestrateError::NotFoundError(
                    String::from_str("asset not found in specified org"),
                ),
            );
        },
        Err(e) => {
            return Err(OrchestrateError::DatabaseError(e));
        },
    };

    // 2. a transfer to the same organization and the same current owner
    // is invalid input
    if crate::text::str_eq(asset.organization.as_str(), new_org_id) && crate::text::str_eq(
        asset.owner_fp.as_str(),
        new_asset_owner,
    ) {
        return Err(OrchestrateError::InvalidArgument(String::from_str("invalid")));
    }

    // 3. an asset without an active contract cannot be transferred
    if !store.has_contract(asset_id) {
        return Err(OrchestrateError::NotFoundError(asset_id.to_owned()));
    }

    // 4. the asset's certificate documents the ownership; an asset
    // without one is in an invalid state
    let nfc = match store.get_nfc_by_asset_id(asset_id) {
        Ok(c) => c,
        Err(_) => {
            return Err(
                OrchestrateError::DatabaseError(
                    DatabaseError::InvalidRecordState(
                        String::from_str("Invalid asset without nfc"),
                    ),
                ),
            );
        },
    };

    // 5. one transaction: the ownership update and the trail append
    // stand or fall together; a rejected append rolls everything back
    if !trail_insert_applied {
        return Err(
            OrchestrateError::DatabaseError(
                DatabaseError::TransactionStepError(
                    String::from_str("failed to create NFC trail and rolled back"),
                ),
            ),
        );
    }
    let rows = store.transfer_asset_fields(asset_id, new_org_id, new_asset_owner);
    if rows != 1 {
        return Err(
            OrchestrateError::DatabaseError(
                DatabaseError::TransactionStepError(
                    String::from_str("Failed to transfer asset and rolled back"),
                ),
            ),
        );
    }
    let trail = NFCTrail::new(nfc.id.clone(), new_asset_owner.to_owned(), asset_id.to_owned());
    store.create_nfc_trail(trail);

    // 6. both writes confirmed: the unchanged certificate documents the
    // new ownership
    Ok(nfc)
}

/// Creates an asset together with its first certificate and the first
/// trail entry, as one atomic unit: either all three rows are written,
/// or none is. An asset insert that would affect zero rows (the id is
/// taken) reports `Ok(false)` — without error and without issuing a
/// certificate — and that is the only `Ok(false)`; a
/// certificate-issuance failure aborts with a server error and nothing
/// persisted; a certificate insert or trail append the storage engine
/// does not confirm (`trail_insert_applied`) aborts with a
/// transaction-step error, the store untouched. On a store that holds
/// no certificate yet, a free asset id and a confirmed trail append,
/// success is owed up to the entropy source and the clock.
pub fn create_new_asset(
    asset: &Asset,
    user_fp: String,
    store: &mut AssetStore,
    issuer: &mut CertificateIssuer,
    trail_insert_applied: bool,
) -> (r: Result<bool, OrchestrateError>)
    requires
        old(store).wf(),
        old(issuer).counter < u128::MAX,
    ensures
        final(store).wf(),
        r == Ok::<bool, OrchestrateError>(false) <==> has_asset_id(old(store).assets@, asset.id@),
        has_asset_id(old(store).assets@, asset.id@) ==> (store_unchanged(
            old(store),
            final(store),
        ) && *final(issuer) == *old(issuer)),
        !has_asset_id(old(store).assets@, asset.id@) ==> final(issuer).counter == old(
            issuer,
        ).counter + 1,
        r is Err ==> store_unchanged(old(store), final(store)),
        r matches Err(e) ==> (e is ServerError || (e matches OrchestrateError::DatabaseError(d)
            && d is TransactionStepError)),
        r == Ok::<bool, OrchestrateError>(false) ==> store_unchanged(old(store), final(store)),
        !trail_insert_applied ==> r != Ok::<bool, OrchestrateError>(true),
        (r matches Err(e) && e matches OrchestrateError::DatabaseError(d)) ==> (
        !trail_insert_applied || has_nfc_for_asset(old(store).nfcs@, asset.id@) || old(
            store,
        ).nfcs@.len() > 0),
        (!has_asset_id(old(store).assets@, asset.id@) && trail_insert_applied
            && !has_nfc_for_asset(old(store).nfcs@, asset.id@) && old(store).nfcs@.len() == 0)
            ==> (r == Ok::<bool, OrchestrateError>(true) || (r matches Err(e)
            && e is ServerError)),
        r == Ok::<bool, OrchestrateError>(true) ==> {
            &&& !has_asset_id(old(store).assets@, asset.id@)
            &&& !has_nfc_for_asset(old(store).nfcs@, asset.id@)
            &&& trail_insert_applied
            &&& final(store).assets@ == old(store).assets@.push(*asset)
            &&& final(store).nfcs@.len() == old(store).nfcs@.len() + 1
            &&& final(store).nfcs@.subrange(0, old(store).nfcs@.len() as int) == old(store).nfcs@
            &&& final(store).nfcs@.last().asset_id@ == asset.id@
            &&& final(store).trails@.len() == old(store).trails@.len() + 1
            &&& final(store).trails@.subrange(0, old(store).trails@.len() as int) == old(
                store,
            ).trails@
            &&& final(store).trails@.last().nfc_id@ == final(store).nfcs@.last().id@
            &&& final(store).trails@.last().user_fp@ == user_fp@
            &&& final(store).trails@.last().asset_id@ == asset.id@
            &&& final(store).contract_asset_ids@ == old(store).contract_asset_ids@
        },
{
    // every step is checked before anything is applied: "all steps
    // succeeded" is the only path to commit
    if store.find_asset_by_id(asset.id.as_str()).is_ok() {
        // the insert would affect zero rows
        return Ok(false);
    }
    let nfc = match issuer.issue(asset.id.as_str()) {
        Ok(c) => c,
        Err(e) => {
            // the asset row must not persist when issuance fails
            return Err(OrchestrateError::ServerError(e.message()));
        },
    };
    if store.nfc_id_taken(nfc.id.as_str()) || store.get_nfc_by_asset_id(
        asset.id.as_str(),
    ).is_ok() {
        // the certificate insert would affect zero rows: the whole unit
        // rolls back
        return Err(
            OrchestrateError::DatabaseError(
                DatabaseError::TransactionStepError(
                    String::from_str("failed to create NFC record and rolled back"),
                ),
            ),
        );
    }
    if !trail_insert_applied {
        // the certificate and the asset are discarded together
        return Err(
            OrchestrateError::DatabaseError(
                DatabaseError::TransactionStepError(
                    String::from_str("failed to create NFC trail and rolled back"),
                ),
            ),
        );
    }
    let inserted = store.insert_asset(copy_asset(asset));
    if !inserted {
        return Ok(false);
    }
    let trail = NFCTrail::new(nfc.id.clone(), user_fp, nfc.asset_id.clone());
    let nfc_inserted = store.insert_nfc(nfc);
    if !nfc_inserted {
        // unreachable: both the certificate id and the asset were just
        // checked to be free
        proof {
            assert(false);
        }
        return Ok(false);
    }
    store.create_nfc_trail(trail);
    Ok(true)
}

} // verus!
