use xrf1::asset::{Asset, UpdateAssetRequest};
use xrf1::error::DatabaseError;
use xrf1::nfc::NFCTrail;
use xrf1::store::AssetStore;

const ORG: &str = "67e55044-10b1-426f-9247-bb680e5fe0c8";
const OWNER: &str = "owner-fingerprint-owner-fingerprint-owner-00000001";

fn an_asset(name: &str) -> Asset {
    Asset::new(
        name.to_string(),
        "SYM".to_string(),
        OWNER.to_string(),
        "row".to_string(),
        ORG.to_string(),
    )
    .unwrap()
}

fn empty_update(updated_by: &str) -> UpdateAssetRequest {
    UpdateAssetRequest::new(updated_by.to_string(), None, None, None, None, None, None)
}

#[test]
fn test_find_asset_by_id() {
    let mut store = AssetStore::new();
    let a = an_asset("gold bar");
    let id = a.id.clone();
    assert!(store.insert_asset(a));
    let found = store.find_asset_by_id(&id).unwrap();
    assert_eq!(found.name, "gold bar");
    assert!(matches!(
        store.find_asset_by_id("missing"),
        Err(DatabaseError::NotFound)
    ));
}

#[test]
fn test_find_asset_by_id_and_org_id() {
    let mut store = AssetStore::new();
    let a = an_asset("gold bar");
    let id = a.id.clone();
    assert!(store.insert_asset(a));
    assert!(store.find_asset_by_id_and_org_id(&id, ORG).is_ok());
    assert!(matches!(
        store.find_asset_by_id_and_org_id(&id, "another-organization-id-0000000000000"),
        Err(DatabaseError::NotFound)
    ));
}

#[test]
fn test_insert_asset_rejects_duplicate_id() {
    let mut store = AssetStore::new();
    let a = an_asset("gold bar");
    let mut b = an_asset("silver bar");
    b.id = a.id.clone();
    assert!(store.insert_asset(a));
    assert!(!store.insert_asset(b));
    assert_eq!(store.assets.len(), 1);
}

#[test]
fn test_delete_asset_by_id() {
    let mut store = AssetStore::new();
    let a = an_asset("gold bar");
    let id = a.id.clone();
    assert!(store.insert_asset(a));
    assert_eq!(store.delete_asset_by_id(&id).unwrap(), true);
    assert_eq!(store.delete_asset_by_id(&id).unwrap(), false);
    assert!(store.assets.is_empty());
}

#[test]
fn test_update_asset_requires_updated_by() {
    let mut store = AssetStore::new();
    let a = an_asset("gold bar");
    let id = a.id.clone();
    assert!(store.insert_asset(a));
    let req = UpdateAssetRequest::new(
        "short".to_string(),
        Some("new name".to_string()),
        None,
        None,
        None,
        None,
        None,
    );
    let result = store.update_asset(&id, "short", &req);
    assert!(matches!(result, Err(DatabaseError::InvalidArgument(_))));
    assert_eq!(store.assets[0].name, "gold bar");
}

#[test]
fn test_update_asset_with_no_fields_is_a_noop_success() {
    let mut store = AssetStore::new();
    let a = an_asset("gold bar");
    let id = a.id.clone();
    assert!(store.insert_asset(a));
    let req = empty_update(OWNER);
    assert_eq!(store.update_asset(&id, OWNER, &req).unwrap(), true);
    assert_eq!(store.assets[0].name, "gold bar");
}

#[test]
fn test_update_asset_applies_present_fields_and_stamps_updated_by() {
    let mut store = AssetStore::new();
    let a = an_asset("gold bar");
    let id = a.id.clone();
    assert!(store.insert_asset(a));
    let other = "second-fingerprint-second-fingerprint-second-00002";
    let req = UpdateAssetRequest::new(
        other.to_string(),
        Some("platinum bar".to_string()),
        None,
        Some(true),
        None,
        None,
        None,
    );
    assert_eq!(store.update_asset(&id, other, &req).unwrap(), true);
    let updated = store.find_asset_by_id(&id).unwrap();
    assert_eq!(updated.name, "platinum bar");
    assert_eq!(updated.symbol, "SYM");
    assert_eq!(updated.tradable, true);
    assert_eq!(updated.listable, true);
    assert_eq!(updated.updated_by, other);
}

#[test]
fn test_update_asset_unknown_id_reports_false() {
    let mut store = AssetStore::new();
    let req = UpdateAssetRequest::new(
        OWNER.to_string(),
        Some("a name".to_string()),
        None,
        None,
        None,
        None,
        None,
    );
    assert_eq!(store.update_asset("missing", OWNER, &req).unwrap(), false);
}

#[test]
fn test_contract_registration_conflicts_on_duplicate() {
    let mut store = AssetStore::new();
    assert!(!store.has_contract("a1"));
    assert_eq!(store.add_contract("a1".to_string()).unwrap(), true);
    assert!(store.has_contract("a1"));
    assert!(matches!(
        store.add_contract("a1".to_string()),
        Err(DatabaseError::RecordExists(_))
    ));
}

#[test]
fn test_certificate_lookup_by_asset_and_by_id_agree() {
    let mut store = AssetStore::new();
    let mut issuer = xrf1::nfc::CertificateIssuer::new();
    let a = an_asset("gold bar");
    let asset_id = a.id.clone();
    xrf1::orchestrator::create_new_asset(&a, OWNER.to_string(), &mut store, &mut issuer, true)
        .unwrap();
    let by_asset = store.get_nfc_by_asset_id(&asset_id).unwrap();
    let by_id = store.get_nfc_by_id(&by_asset.id).unwrap();
    assert_eq!(by_id.id, by_asset.id);
    assert_eq!(by_id.asset_id, asset_id);
    assert!(matches!(
        store.get_nfc_by_id("missing"),
        Err(DatabaseError::NotFound)
    ));
    assert!(matches!(
        store.get_nfc_by_asset_id("missing"),
        Err(DatabaseError::NotFound)
    ));
}

#[test]
fn test_trails_filtered_by_certificate_in_order() {
    let mut store = AssetStore::new();
    store.create_nfc_trail(NFCTrail::new(
        "cert-1".to_string(),
        "owner-1".to_string(),
        "a-1".to_string(),
    ));
    store.create_nfc_trail(NFCTrail::new(
        "cert-2".to_string(),
        "owner-9".to_string(),
        "a-2".to_string(),
    ));
    store.create_nfc_trail(NFCTrail::new(
        "cert-1".to_string(),
        "owner-2".to_string(),
        "a-1".to_string(),
    ));
    let trail = store.get_nfc_trails_by_nfc_id("cert-1");
    assert_eq!(trail.len(), 2);
    assert_eq!(trail[0].user_fp, "owner-1");
    assert_eq!(trail[1].user_fp, "owner-2");
}
