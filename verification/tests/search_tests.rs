use xrf1::asset::Asset;
use xrf1::error::DatabaseError;
use xrf1::ordering::OrderType;
use xrf1::queries::{find_assets_by_owner, find_assets_name_like, find_assets_symbol_like};
use xrf1::store::AssetStore;

const ORG: &str = "67e55044-10b1-426f-9247-bb680e5fe0c8";
const OWNER_A: &str = "owner-a-fingerprint-owner-a-fingerprint-owner-a-01";
const OWNER_B: &str = "owner-b-fingerprint-owner-b-fingerprint-owner-b-02";

fn seeded() -> AssetStore {
    let mut store = AssetStore::new();
    let rows = [
        ("Gold Bar", "xau", OWNER_A, true),
        ("Silver Bar", "xag", OWNER_A, true),
        ("golden gate", "ggb", OWNER_B, true),
        ("oil barrel", "wti", OWNER_A, false),
    ];
    for (name, symbol, owner, listable) in rows {
        let mut a = Asset::new(
            name.to_string(),
            symbol.to_string(),
            owner.to_string(),
            "row".to_string(),
            ORG.to_string(),
        )
        .unwrap();
        a.listable = listable;
        assert!(store.insert_asset(a));
    }
    store
}

#[test]
fn test_find_assets_name_like_is_case_insensitive() {
    let store = seeded();
    let hits = find_assets_name_like("GOLD", 0, 10, OrderType::Asc, &store).unwrap();
    let names: Vec<&str> = hits.iter().map(|a| a.name.as_str()).collect();
    assert_eq!(names, vec!["Gold Bar", "golden gate"]);

    let none = find_assets_name_like("copper", 0, 10, OrderType::Asc, &store).unwrap();
    assert!(none.is_empty());

    let bad = find_assets_name_like("gold", -1, 10, OrderType::Asc, &store);
    assert!(matches!(bad, Err(DatabaseError::InvalidArgument(_))));
}

#[test]
fn test_find_assets_name_like_windows() {
    let store = seeded();
    let second = find_assets_name_like("gold", 1, 10, OrderType::Asc, &store).unwrap();
    assert_eq!(second.len(), 1);
    assert_eq!(second[0].name, "golden gate");
    let first_desc = find_assets_name_like("gold", 0, 1, OrderType::Desc, &store).unwrap();
    assert_eq!(first_desc[0].name, "golden gate");
}

#[test]
fn test_find_assets_symbol_like() {
    let store = seeded();
    // symbols are stored upper-cased; the search is case-insensitive
    let hits = find_assets_symbol_like("xa", 10, 0, OrderType::Asc, &store).unwrap();
    let symbols: Vec<&str> = hits.iter().map(|a| a.symbol.as_str()).collect();
    assert_eq!(symbols, vec!["XAG", "XAU"]);

    let bad = find_assets_symbol_like("xa", -2, 0, OrderType::Asc, &store);
    assert!(matches!(bad, Err(DatabaseError::InvalidArgument(_))));
}

#[test]
fn test_find_assets_by_owner_respects_listable_flag() {
    let store = seeded();
    let listed = find_assets_by_owner(OWNER_A, 10, 0, true, OrderType::Asc, &store).unwrap();
    let symbols: Vec<&str> = listed.iter().map(|a| a.symbol.as_str()).collect();
    assert_eq!(symbols, vec!["XAG", "XAU"]);

    let unlisted = find_assets_by_owner(OWNER_A, 10, 0, false, OrderType::Asc, &store).unwrap();
    assert_eq!(unlisted.len(), 1);
    assert_eq!(unlisted[0].symbol, "WTI");

    let other = find_assets_by_owner(OWNER_B, 10, 0, true, OrderType::Asc, &store).unwrap();
    assert_eq!(other.len(), 1);
    assert_eq!(other[0].name, "golden gate");
}
