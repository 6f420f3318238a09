use anonpaste::config::{admin_authorized, get_test_config};
use anonpaste::decimal::parse_decimal_u64;
use anonpaste::error::Error;
use anonpaste::text::{filter_paste_links, join_with_newlines, split_newlines};

#[test]
fn every_error_maps_to_its_status_and_message() {
    assert_eq!(Error::Unauthorized.status_code(), 401);
    assert_eq!(Error::NotFound.status_code(), 404);
    assert_eq!(Error::Conflict.status_code(), 409);
    assert_eq!(Error::Throttled.status_code(), 429);
    assert_eq!(Error::Storage.status_code(), 500);

    assert_eq!(Error::Unauthorized.message(), "NO_AUTHORIZATION".to_string());
    assert_eq!(Error::NotFound.message(), "NOT_FOUND".to_string());
    assert_eq!(Error::Conflict.message(), "CONFLICT".to_string());
    assert_eq!(Error::Throttled.message(), "TOO_MANY_REQUESTS".to_string());
    assert_eq!(Error::Storage.message(), "INTERNAL_ERROR".to_string());

    assert_eq!(Error::NotFound.to_message().msg, "NOT_FOUND".to_string());
}

#[test]
fn the_test_config_holds_the_fixed_values() {
    let config = get_test_config();
    assert_eq!(config.db_url, "sqlite://:memory:".to_string());
    assert_eq!(config.frontend_origin, "http://localhost:1337".to_string());
    assert_eq!(config.admin_token, "MAGIC".to_string());
    assert_eq!(config.sendgrid_api_key, "TEST".to_string());
    assert_eq!(config.email_from, "test@test.com".to_string());
    assert_eq!(config.email_name, "test test".to_string());
}

#[test]
fn the_admin_gate_compares_the_shared_secret() {
    let secret = "MAGIC".to_string();
    assert!(admin_authorized(&"MAGIC".to_string(), &secret));
    assert!(!admin_authorized(&"magic".to_string(), &secret));
    assert!(!admin_authorized(&"".to_string(), &secret));
}

#[test]
fn joining_and_splitting_newlines_round_trips() {
    let parts = vec!["a".to_string(), "b".to_string(), "c".to_string()];
    let joined = join_with_newlines(&parts);
    assert_eq!(joined, "a\nb\nc".to_string());
    assert_eq!(split_newlines(&joined), parts);

    let one = vec!["alone".to_string()];
    assert_eq!(join_with_newlines(&one), "alone".to_string());
    assert_eq!(split_newlines("alone"), one);

    // An empty column is one empty part, and every newline ends a part.
    assert_eq!(split_newlines(""), vec!["".to_string()]);
    assert_eq!(
        split_newlines("x\n"),
        vec!["x".to_string(), "".to_string()]
    );
    assert_eq!(join_with_newlines(&Vec::new()), "".to_string());
}

#[test]
fn decimal_ids_parse_exactly_when_they_are_digits_that_fit() {
    assert_eq!(parse_decimal_u64("0"), Some(0));
    assert_eq!(parse_decimal_u64("42"), Some(42));
    assert_eq!(parse_decimal_u64("007"), Some(7));
    assert_eq!(
        parse_decimal_u64("18446744073709551615"),
        Some(u64::MAX)
    );
    assert_eq!(parse_decimal_u64("18446744073709551616"), None);
    assert_eq!(parse_decimal_u64(""), None);
    assert_eq!(parse_decimal_u64("12a"), None);
    assert_eq!(parse_decimal_u64("-1"), None);
    assert_eq!(parse_decimal_u64("+1"), None);
    assert_eq!(parse_decimal_u64(" 1"), None);
}

#[test]
fn only_links_with_a_fifth_segment_reference_a_paste() {
    let links = vec![
        "https://website/test-id#magic-key".to_string(),
        "https://website".to_string(),
        "https://website/a".to_string(),
        "https://website/a/b".to_string(),
        "plain#one#two#three#four".to_string(),
    ];
    let kept = filter_paste_links(&links);
    assert_eq!(
        kept,
        vec![
            "https://website/test-id#magic-key".to_string(),
            "https://website/a/b".to_string(),
            "plain#one#two#three#four".to_string(),
        ]
    );
}
