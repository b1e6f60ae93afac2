use xrf1::key::generate_unique_key;

#[test]
fn test_generate_unique_key() {
    let unique_key = generate_unique_key(10);
    assert_eq!(unique_key.len(), 10);
}

#[test]
fn test_generate_unique_key_alphanumeric() {
    let key = generate_unique_key(32);
    assert!(key.chars().all(|c| c.is_alphanumeric()));
}

#[test]
fn test_generate_unique_keys_differ() {
    let a = generate_unique_key(32);
    let b = generate_unique_key(32);
    assert_ne!(a, b);
}
