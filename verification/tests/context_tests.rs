use xrf1::common::generate_request_id;
use xrf1::context::{AppContext, ContextError, Environment};
use xrf1::contract::ContractVersion;
use xrf1::queries::sanitize_search_term;

#[test]
fn test_environment_parse_and_names() {
    assert_eq!(Environment::parse("live").unwrap(), Environment::Live);
    assert_eq!(Environment::parse("LIVE").unwrap(), Environment::Live);
    assert_eq!(Environment::parse("stg").unwrap(), Environment::Staging);
    assert_eq!(Environment::parse("prod").unwrap(), Environment::Production);
    assert_eq!(Environment::parse("dev").unwrap(), Environment::Dev);
    assert_eq!(Environment::parse("local").unwrap(), Environment::Dev);
    assert!(Environment::parse("moon").is_err());

    assert_eq!(Environment::Dev.as_str(), "dev");
    assert_eq!(Environment::Live.as_str(), "live");
    assert_eq!(Environment::Staging.as_str(), "stg");
    assert_eq!(Environment::Production.as_str(), "prod");

    assert!(Environment::Dev.is_local());
    assert!(!Environment::Live.is_local());
    assert!(Environment::Live.is_not_local());
}

#[test]
fn test_resolve_app_context() {
    let ok = AppContext::resolve(
        Some("live".to_string()),
        Some("xrf_live_pg_db".to_string()),
        generate_request_id(),
    )
    .unwrap();
    assert_eq!(ok.environment, Environment::Live);
    assert!(!ok.server_id.is_empty());
    assert_eq!(ok.environment(), Environment::Live);

    let missing = AppContext::resolve(None, Some("db".to_string()), "sid".to_string());
    assert!(matches!(missing, Err(ContextError::MissingEnvironment(_))));

    let invalid = AppContext::resolve(
        Some("moon".to_string()),
        Some("db".to_string()),
        "sid".to_string(),
    );
    assert!(matches!(invalid, Err(ContextError::InvalidEnvironment(_))));

    let missing_db = AppContext::resolve(Some("live".to_string()), None, "sid".to_string());
    assert!(matches!(missing_db, Err(ContextError::MissingEnvironment(_))));

    // outside dev the database locator must mention the environment name
    let conflict = AppContext::resolve(
        Some("live".to_string()),
        Some("xrf_stg_pg_db".to_string()),
        "sid".to_string(),
    );
    assert!(matches!(
        conflict,
        Err(ContextError::ConflictingEnvironmentVariables)
    ));

    // in dev it need not
    let dev = AppContext::resolve(
        Some("dev".to_string()),
        Some("anything".to_string()),
        "sid".to_string(),
    );
    assert!(dev.is_ok());
}

#[test]
fn test_generate_request_id_shape() {
    let id = generate_request_id();
    assert_eq!(id.len(), 36);
    let bytes = id.as_bytes();
    assert_eq!(bytes[8], b'-');
    assert_eq!(bytes[13], b'-');
    assert_eq!(bytes[18], b'-');
    assert_eq!(bytes[23], b'-');
    assert_ne!(generate_request_id(), id);
}

#[test]
fn test_sanitize_search_term_escapes_wildcards() {
    assert_eq!(sanitize_search_term("%a_b"), "\\%a\\_b");
    assert_eq!(sanitize_search_term("plain"), "plain");
    assert_eq!(sanitize_search_term(""), "");
    assert_eq!(sanitize_search_term("__%%"), "\\_\\_\\%\\%");
}

#[test]
fn test_contract_version_label() {
    assert_eq!(ContractVersion::V1.label(), "v1");
}
