use std::str::FromStr;
use xrf1::ordering::OrderType;

#[test]
fn test_order_type_from_str() {
    assert_eq!(OrderType::from_str("asc").unwrap(), OrderType::Asc);
    assert_eq!(OrderType::from_str("ASC").unwrap(), OrderType::Asc);
    assert_eq!(OrderType::from_str("ASCENDING").unwrap(), OrderType::Asc);
    assert_eq!(OrderType::from_str("ascending").unwrap(), OrderType::Asc);
    assert_eq!(OrderType::from_str("desc").unwrap(), OrderType::Desc);
    assert_eq!(OrderType::from_str("DESC").unwrap(), OrderType::Desc);
    assert_eq!(OrderType::from_str("descending").unwrap(), OrderType::Desc);
    assert_eq!(OrderType::from_str("DESCENDING").unwrap(), OrderType::Desc);
    assert!(OrderType::from_str("invalid").is_err());
}

#[test]
fn test_order_type_from_string() {
    assert_eq!(OrderType::from("asc".to_string()), OrderType::Asc);
    assert_eq!(OrderType::from("DESC".to_string()), OrderType::Desc);
}

#[test]
fn test_order_type_rejects_other_spellings() {
    assert!(OrderType::from_str("").is_err());
    assert!(OrderType::from_str("Asc").is_err());
    assert!(OrderType::from_str("asc ").is_err());
    assert!(OrderType::from_str("ASCE").is_err());
    assert!(OrderType::from_str("down").is_err());
}

#[test]
fn test_order_type_default_is_ascending() {
    assert_eq!(OrderType::default(), OrderType::Asc);
}
