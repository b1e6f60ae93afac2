use std::collections::HashSet;
use xrf1::nfc::CertificateIssuer;

#[test]
fn test_generate_certificate() {
    let asset_id = "1234";
    let mut issuer = CertificateIssuer::new();
    let cert_1 = issuer.issue(asset_id);
    assert!(cert_1.is_ok());
    let cert_2 = issuer.issue(asset_id);
    assert!(cert_2.is_ok());
    assert_ne!(
        cert_1.unwrap().cert,
        cert_2.unwrap().cert,
        "IDs should be different"
    );
}

#[test]
fn test_certificates_pairwise_distinct() {
    let mut issuer = CertificateIssuer::new();
    let mut payloads = HashSet::new();
    let mut ids = HashSet::new();
    for _ in 0..1000 {
        let nfc = issuer.issue("1234").unwrap();
        assert!(!payloads.contains(&nfc.cert), "Duplicate payload found");
        assert!(!ids.contains(&nfc.id), "Duplicate ID found");
        payloads.insert(nfc.cert);
        ids.insert(nfc.id);
    }
    assert_eq!(payloads.len(), 1000);
    assert_eq!(ids.len(), 1000);
    assert_eq!(issuer.counter, 1000);
}

#[test]
fn test_certificate_payload_shape() {
    // a SHA-512 digest rendered as unpadded URL-safe base64: 86
    // characters from the URL-safe alphabet
    let mut issuer = CertificateIssuer::new();
    let nfc = issuer.issue("asset-1").unwrap();
    assert_eq!(nfc.cert.len(), 86);
    assert!(nfc
        .cert
        .chars()
        .all(|c| c.is_ascii_alphanumeric() || c == '-' || c == '_'));
    assert_eq!(nfc.asset_id, "asset-1");
    assert_eq!(nfc.id.len(), 32);
}

#[test]
fn test_counter_moves_once_per_call() {
    let mut issuer = CertificateIssuer::new();
    assert_eq!(issuer.counter, 0);
    let _ = issuer.issue("a-1");
    assert_eq!(issuer.counter, 1);
    let _ = issuer.issue("a-1");
    assert_eq!(issuer.counter, 2);
}
