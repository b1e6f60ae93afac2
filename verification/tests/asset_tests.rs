use xrf1::asset::Asset;
use xrf1::error::DomainError;

const ORG: &str = "67e55044-10b1-426f-9247-bb680e5fe0c8";

fn new_asset(name: &str, symbol: &str, org: &str) -> Result<Asset, DomainError> {
    Asset::new(
        name.to_string(),
        symbol.to_string(),
        "a-user-fingerprint-that-identifies-the-caller-0001".to_string(),
        "a test asset".to_string(),
        org.to_string(),
    )
}

#[test]
fn test_new_asset_defaults_and_symbol_case() {
    let asset = new_asset("gold bar", "btc", ORG).unwrap();
    assert!(asset.listable);
    assert!(!asset.tradable);
    assert_eq!(asset.symbol, "BTC");
    assert_eq!(asset.created_at, asset.updated_at);
    assert_eq!(asset.id.len(), 32);
    assert_eq!(asset.owner_fp, asset.updated_by);

    let mixed = new_asset("gold bar", "gLd", ORG).unwrap();
    assert_eq!(mixed.symbol, "GLD");
    let upper = new_asset("gold bar", "XAU", ORG).unwrap();
    assert_eq!(upper.symbol, "XAU");
}

#[test]
fn test_name_length_boundaries() {
    assert!(new_asset("", "BTC", ORG).is_err());
    assert!(new_asset("ab", "BTC", ORG).is_err());
    assert!(new_asset(&"a".repeat(33), "BTC", ORG).is_err());
    assert!(new_asset("abc", "BTC", ORG).is_ok());
    assert!(new_asset(&"a".repeat(32), "BTC", ORG).is_ok());
}

#[test]
fn test_symbol_validation() {
    assert!(new_asset("gold bar", "ab", ORG).is_err());
    assert!(new_asset("gold bar", "abcdefghijk", ORG).is_err());
    assert!(new_asset("gold bar", "a c", ORG).is_err());
    assert!(new_asset("gold bar", "ab\tc", ORG).is_err());
    assert!(new_asset("gold bar", "abc", ORG).is_ok());
    assert!(new_asset("gold bar", "abcdefghij", ORG).is_ok());
}

#[test]
fn test_organization_validation() {
    // too short
    let short = new_asset("gold bar", "BTC", "1234");
    assert!(matches!(short, Err(DomainError::InvalidArgument(_))));
    // long enough but not a UUID
    let not_uuid = new_asset("gold bar", "BTC", &"x".repeat(36));
    assert!(matches!(not_uuid, Err(DomainError::InvalidArgument(_))));
    // a valid UUID
    assert!(new_asset("gold bar", "BTC", ORG).is_ok());
}
