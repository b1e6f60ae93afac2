use xrf1::asset::Asset;
use xrf1::error::{DatabaseError, OrchestrateError};
use xrf1::nfc::CertificateIssuer;
use xrf1::orchestrator::{create_new_asset, orchestrate_transfer_asset};
use xrf1::store::AssetStore;

const ORG_A: &str = "67e55044-10b1-426f-9247-bb680e5fe0c8";
const ORG_B: &str = "91f2c5a0-33d7-4e8b-a1c2-0d94b7a3e611";
const OWNER_A: &str = "owner-a-fingerprint-owner-a-fingerprint-owner-a-01";
const OWNER_B: &str = "owner-b-fingerprint-owner-b-fingerprint-owner-b-02";

fn seeded(with_contract: bool) -> (AssetStore, CertificateIssuer, String) {
    let mut store = AssetStore::new();
    let mut issuer = CertificateIssuer::new();
    let asset = Asset::new(
        "gold bar".to_string(),
        "XAU".to_string(),
        OWNER_A.to_string(),
        "a bar of gold".to_string(),
        ORG_A.to_string(),
    )
    .unwrap();
    let asset_id = asset.id.clone();
    let created = create_new_asset(&asset, OWNER_A.to_string(), &mut store, &mut issuer, true);
    assert_eq!(created.unwrap(), true);
    if with_contract {
        assert!(store.add_contract(asset_id.clone()).is_ok());
    }
    (store, issuer, asset_id)
}

#[test]
fn test_create_writes_all_three_rows() {
    let (store, _issuer, asset_id) = seeded(false);
    assert_eq!(store.assets.len(), 1);
    assert_eq!(store.nfcs.len(), 1);
    assert_eq!(store.trails.len(), 1);
    assert_eq!(store.nfcs[0].asset_id, asset_id);
    assert_eq!(store.trails[0].nfc_id, store.nfcs[0].id);
    assert_eq!(store.trails[0].user_fp, OWNER_A);
}

#[test]
fn test_create_rolls_back_on_unconfirmed_trail_append() {
    let mut store = AssetStore::new();
    let mut issuer = CertificateIssuer::new();
    let asset = Asset::new(
        "gold bar".to_string(),
        "XAU".to_string(),
        OWNER_A.to_string(),
        "a bar of gold".to_string(),
        ORG_A.to_string(),
    )
    .unwrap();
    let created = create_new_asset(&asset, OWNER_A.to_string(), &mut store, &mut issuer, false);
    // an unconfirmed trail append aborts the whole unit with an error
    assert!(matches!(
        created,
        Err(OrchestrateError::DatabaseError(
            DatabaseError::TransactionStepError(_)
        ))
    ));
    assert_eq!(store.assets.len(), 0);
    assert_eq!(store.nfcs.len(), 0);
    assert_eq!(store.trails.len(), 0);
    // the counter still moved
    assert_eq!(issuer.counter, 1);
}

#[test]
fn test_create_duplicate_id_reports_false_without_issuing() {
    let (mut store, mut issuer, asset_id) = seeded(false);
    let counter_before = issuer.counter;
    let mut duplicate = Asset::new(
        "silver bar".to_string(),
        "XAG".to_string(),
        OWNER_A.to_string(),
        "a bar of silver".to_string(),
        ORG_A.to_string(),
    )
    .unwrap();
    duplicate.id = asset_id;
    let created = create_new_asset(&duplicate, OWNER_A.to_string(), &mut store, &mut issuer, true);
    assert_eq!(created.unwrap(), false);
    assert_eq!(store.assets.len(), 1);
    assert_eq!(store.nfcs.len(), 1);
    assert_eq!(issuer.counter, counter_before);
}

#[test]
fn test_create_aborts_when_asset_already_certified() {
    let mut store = AssetStore::new();
    let mut issuer = CertificateIssuer::new();
    let asset = Asset::new(
        "gold bar".to_string(),
        "XAU".to_string(),
        OWNER_A.to_string(),
        "a bar of gold".to_string(),
        ORG_A.to_string(),
    )
    .unwrap();
    // a certificate already bound to the asset id: the certificate
    // insert would affect zero rows, so the whole unit aborts
    let stray = xrf1::nfc::NFC {
        id: "a-stray-certificate-id".to_string(),
        cert: "a-stray-payload".to_string(),
        asset_id: asset.id.clone(),
        created_at: 0,
    };
    assert!(store.insert_nfc(stray));
    let created = create_new_asset(&asset, OWNER_A.to_string(), &mut store, &mut issuer, true);
    assert!(matches!(
        created,
        Err(OrchestrateError::DatabaseError(
            DatabaseError::TransactionStepError(_)
        ))
    ));
    assert_eq!(store.assets.len(), 0);
    assert_eq!(store.nfcs.len(), 1);
    assert_eq!(store.trails.len(), 0);
    assert_eq!(issuer.counter, 1);
}

#[test]
fn test_transfer_to_same_org_and_owner_is_rejected_without_writes() {
    let (mut store, _issuer, asset_id) = seeded(true);
    let trails_before = store.trails.len();
    let result =
        orchestrate_transfer_asset(ORG_A, &asset_id, ORG_A, OWNER_A, &mut store, true);
    assert!(matches!(result, Err(OrchestrateError::InvalidArgument(_))));
    assert_eq!(store.assets[0].organization, ORG_A);
    assert_eq!(store.assets[0].owner_fp, OWNER_A);
    assert_eq!(store.trails.len(), trails_before);
}

#[test]
fn test_self_transfer_is_judged_on_the_owner_fingerprint() {
    // stamp updated_by with a different fingerprint first: the
    // self-transfer test follows the current owner, not the last editor
    let (mut store, _issuer, asset_id) = seeded(true);
    let req = xrf1::asset::UpdateAssetRequest::new(
        OWNER_B.to_string(),
        None,
        None,
        None,
        None,
        Some("edited by the second user".to_string()),
        None,
    );
    assert_eq!(store.update_asset(&asset_id, OWNER_B, &req).unwrap(), true);
    assert_eq!(store.assets[0].updated_by, OWNER_B);
    assert_eq!(store.assets[0].owner_fp, OWNER_A);

    // same organization and same current owner: rejected without writes
    let trails_before = store.trails.len();
    let result =
        orchestrate_transfer_asset(ORG_A, &asset_id, ORG_A, OWNER_A, &mut store, true);
    assert!(matches!(result, Err(OrchestrateError::InvalidArgument(_))));
    assert_eq!(store.assets[0].owner_fp, OWNER_A);
    assert_eq!(store.trails.len(), trails_before);

    // same organization but a genuinely new owner — even one who matches
    // the stored updated_by — is a legitimate transfer
    let result =
        orchestrate_transfer_asset(ORG_A, &asset_id, ORG_A, OWNER_B, &mut store, true);
    assert!(result.is_ok());
    assert_eq!(store.assets[0].owner_fp, OWNER_B);
    assert_eq!(store.trails.len(), trails_before + 1);
}

#[test]
fn test_transfer_without_contract_fails_not_found_without_writes() {
    let (mut store, _issuer, asset_id) = seeded(false);
    let trails_before = store.trails.len();
    let result =
        orchestrate_transfer_asset(ORG_A, &asset_id, ORG_B, OWNER_B, &mut store, true);
    assert!(matches!(result, Err(OrchestrateError::NotFoundError(_))));
    assert_eq!(store.assets[0].organization, ORG_A);
    assert_eq!(store.assets[0].owner_fp, OWNER_A);
    assert_eq!(store.trails.len(), trails_before);
}

#[test]
fn test_transfer_unknown_asset_fails_not_found() {
    let (mut store, _issuer, _asset_id) = seeded(true);
    let result =
        orchestrate_transfer_asset(ORG_A, "no-such-asset", ORG_B, OWNER_B, &mut store, true);
    assert!(matches!(result, Err(OrchestrateError::NotFoundError(_))));
}

#[test]
fn test_transfer_wrong_org_fails_not_found() {
    let (mut store, _issuer, asset_id) = seeded(true);
    let result =
        orchestrate_transfer_asset(ORG_B, &asset_id, ORG_A, OWNER_B, &mut store, true);
    assert!(matches!(result, Err(OrchestrateError::NotFoundError(_))));
}

#[test]
fn test_transfer_rolls_back_when_ledger_append_unconfirmed() {
    let (mut store, _issuer, asset_id) = seeded(true);
    let trails_before = store.trails.len();
    let result =
        orchestrate_transfer_asset(ORG_A, &asset_id, ORG_B, OWNER_B, &mut store, false);
    assert!(matches!(
        result,
        Err(OrchestrateError::DatabaseError(
            DatabaseError::TransactionStepError(_)
        ))
    ));
    // atomicity: the ownership fields are at their pre-transfer values
    assert_eq!(store.assets[0].organization, ORG_A);
    assert_eq!(store.assets[0].owner_fp, OWNER_A);
    assert_eq!(store.assets[0].updated_by, OWNER_A);
    assert_eq!(store.trails.len(), trails_before);
}

#[test]
fn test_transfer_without_certificate_is_invalid_record_state() {
    let mut store = AssetStore::new();
    let asset = Asset::new(
        "gold bar".to_string(),
        "XAU".to_string(),
        OWNER_A.to_string(),
        "a bar of gold".to_string(),
        ORG_A.to_string(),
    )
    .unwrap();
    let asset_id = asset.id.clone();
    assert!(store.insert_asset(asset));
    assert!(store.add_contract(asset_id.clone()).is_ok());
    let result =
        orchestrate_transfer_asset(ORG_A, &asset_id, ORG_B, OWNER_B, &mut store, true);
    assert!(matches!(
        result,
        Err(OrchestrateError::DatabaseError(
            DatabaseError::InvalidRecordState(_)
        ))
    ));
    assert_eq!(store.assets[0].organization, ORG_A);
}

#[test]
fn test_transfer_success_updates_ownership_and_appends_trail() {
    let (mut store, _issuer, asset_id) = seeded(true);
    let trails_before = store.trails.len();
    let cert_id_before = store.nfcs[0].id.clone();
    let result =
        orchestrate_transfer_asset(ORG_A, &asset_id, ORG_B, OWNER_B, &mut store, true);
    let nfc = result.unwrap();
    // the certificate's identity never changes across transfers
    assert_eq!(nfc.id, cert_id_before);
    assert_eq!(store.nfcs.len(), 1);
    assert_eq!(store.nfcs[0].id, cert_id_before);
    // ownership moved
    assert_eq!(store.assets[0].organization, ORG_B);
    assert_eq!(store.assets[0].owner_fp, OWNER_B);
    assert_eq!(store.assets[0].updated_by, OWNER_B);
    // exactly one new trail entry, for the same certificate
    assert_eq!(store.trails.len(), trails_before + 1);
    let last = store.trails.last().unwrap();
    assert_eq!(last.nfc_id, cert_id_before);
    assert_eq!(last.user_fp, OWNER_B);
    assert_eq!(last.asset_id, asset_id);
}
