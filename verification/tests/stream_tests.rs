use std::collections::HashSet;
use xrf1::asset::Asset;
use xrf1::error::DatabaseError;
use xrf1::ordering::OrderType;
use xrf1::queries::get_all_assets;
use xrf1::store::AssetStore;
use xrf1::stream::{get_streamed_assets, validate_request_parameters};

const ORG: &str = "67e55044-10b1-426f-9247-bb680e5fe0c8";
const OWNER: &str = "owner-fingerprint-owner-fingerprint-owner-00000001";

fn store_with(n: usize) -> AssetStore {
    let mut store = AssetStore::new();
    for i in 0..n {
        let asset = Asset::new(
            format!("asset{:03}", i),
            "SYM".to_string(),
            OWNER.to_string(),
            "row".to_string(),
            ORG.to_string(),
        )
        .unwrap();
        assert!(store.insert_asset(asset));
    }
    store
}

#[test]
fn test_page_limit_is_validated_before_storage() {
    let store = store_with(3);
    let zero = get_all_assets(&store, 0, 0, OrderType::Asc);
    assert!(matches!(zero, Err(DatabaseError::InvalidArgument(_))));
    let over = get_all_assets(&store, 0, 101, OrderType::Asc);
    assert!(matches!(over, Err(DatabaseError::InvalidArgument(_))));
    assert!(get_all_assets(&store, 0, 1, OrderType::Asc).is_ok());
    assert!(get_all_assets(&store, 0, 100, OrderType::Asc).is_ok());
}

#[test]
fn test_stream_parameters_are_validated() {
    assert!(validate_request_parameters(0, 0).is_err());
    assert!(validate_request_parameters(0, 101).is_err());
    assert!(validate_request_parameters(-1, 10).is_err());
    assert!(validate_request_parameters(0, -3).is_err());
    assert!(validate_request_parameters(0, 1).is_ok());
    assert!(validate_request_parameters(5, 100).is_ok());
}

#[test]
fn test_page_contents_sorted_and_sliced() {
    let store = store_with(5);
    let page = get_all_assets(&store, 1, 2, OrderType::Asc).unwrap();
    assert_eq!(page.len(), 2);
    assert_eq!(page[0].name, "asset001");
    assert_eq!(page[1].name, "asset002");
    let desc = get_all_assets(&store, 0, 2, OrderType::Desc).unwrap();
    assert_eq!(desc[0].name, "asset004");
    assert_eq!(desc[1].name, "asset003");
    // an offset past the end is an empty page, not an error
    let empty = get_all_assets(&store, 10, 2, OrderType::Asc).unwrap();
    assert!(empty.is_empty());
}

#[test]
fn test_stream_of_25_rows_with_limit_10() {
    let store = store_with(25);
    let batches = get_streamed_assets(&store, 0, 10, "asc").unwrap();
    let sizes: Vec<usize> = batches.iter().map(|b| b.assets.len()).collect();
    assert_eq!(sizes, vec![10, 10, 5]);

    // strictly increasing offsets, stamped where each batch starts
    let offsets: Vec<i64> = batches.iter().map(|b| b.offset).collect();
    assert_eq!(offsets, vec![0, 10, 20]);
    for b in &batches {
        assert_eq!(b.total as usize, b.assets.len());
    }

    // every row exactly once, in sorted order
    let mut seen = HashSet::new();
    let mut names = Vec::new();
    for b in &batches {
        for a in &b.assets {
            assert!(seen.insert(a.id.clone()), "row delivered twice");
            names.push(a.name.clone());
        }
    }
    assert_eq!(seen.len(), 25);
    let mut expected: Vec<String> = (0..25).map(|i| format!("asset{:03}", i)).collect();
    expected.sort();
    assert_eq!(names, expected);
}

#[test]
fn test_stream_rejects_bad_parameters_and_order() {
    let store = store_with(3);
    assert!(get_streamed_assets(&store, 0, 0, "asc").is_err());
    assert!(get_streamed_assets(&store, 0, 101, "asc").is_err());
    assert!(get_streamed_assets(&store, -1, 10, "asc").is_err());
    assert!(get_streamed_assets(&store, 0, 10, "sideways").is_err());
}

#[test]
fn test_stream_from_offset_past_end_is_empty() {
    let store = store_with(3);
    let batches = get_streamed_assets(&store, 7, 10, "asc").unwrap();
    assert!(batches.is_empty());
}

#[test]
fn test_stream_descending_order() {
    let store = store_with(12);
    let batches = get_streamed_assets(&store, 0, 10, "DESCENDING").unwrap();
    let sizes: Vec<usize> = batches.iter().map(|b| b.assets.len()).collect();
    assert_eq!(sizes, vec![10, 2]);
    assert_eq!(batches[0].assets[0].name, "asset011");
    assert_eq!(batches[1].assets[1].name, "asset000");
}
