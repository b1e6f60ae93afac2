use std::str::FromStr;
use xrf1::currency::{process_accepted_currencies, Currency};

#[test]
fn test_from_string_valid_values() {
    let test_cases = vec![
        ("USD", Ok(Currency::USD)),
        ("usd", Ok(Currency::USD)),
        ("EUR", Ok(Currency::EUR)),
        ("eur", Ok(Currency::EUR)),
        ("XRP", Ok(Currency::XRP)),
        ("xrp", Ok(Currency::XRP)),
        ("Ripple", Ok(Currency::XRP)),
        ("Cardano", Ok(Currency::ADA)),
        ("Argentine Peso", Ok(Currency::ARS)),
    ];

    for (input, expected) in test_cases {
        assert_eq!(Currency::from_str(input), expected);
        assert_eq!(input.parse::<Currency>(), expected);
    }
}

#[test]
fn test_from_string_invalid_values() {
    let test_cases = vec![
        "INVALID",
        "",
        "  EUR  ",
        "YEN",
        "  USD  ",
        "  ",
        "US ",
        "EUR-",
        "USSD",
        "UsD",
        "123",
        "-$£",
        " USD ",
        "USD EUR",
        ".",
        "...",
        "USD.",
    ];

    for input in test_cases {
        let result = Currency::from_str(input);
        assert!(result.is_err(), "Expected an error for input: \"{}\"", input);

        let result = input.parse::<Currency>();
        assert!(result.is_err(), "Expected an error for input: \"{}\"", input);
    }
}

#[test]
fn test_process_accepted_currencies() {
    let valid_currencies = vec![
        "USD".to_string(),
        "EUR".to_string(),
        "GBP".to_string(),
        "Euro".to_string(),
    ];

    let result = process_accepted_currencies(valid_currencies);
    assert!(result.is_ok());
}

#[test]
fn test_invalid_currencies() {
    let invalid_currencies = vec![
        "Unknown".to_string(),
        "EUR ".to_string(),
        " GBP".to_string(),
    ];
    let result = process_accepted_currencies(invalid_currencies);
    assert!(result.is_err());
}

#[test]
fn test_process_accepted_currencies_deduplicates() {
    let names = vec!["EUR".to_string(), "Euro".to_string(), "eur".to_string()];
    let result = process_accepted_currencies(names).unwrap();
    assert_eq!(result, vec![Currency::EUR]);
}

#[test]
fn test_is_crypto() {
    assert!(Currency::BTC.is_crypto());
    assert!(Currency::XRP.is_crypto());
    assert!(Currency::BNB.is_crypto());
    assert!(!Currency::USD.is_crypto());
    assert!(!Currency::JPY.is_crypto());
}

#[test]
fn test_db_string() {
    assert_eq!(Currency::USD.db_string(), "USD");
    assert_eq!(Currency::DOGE.db_string(), "DOGE");
    assert_eq!(Currency::from_str("ripple").unwrap().db_string(), "XRP");
}
