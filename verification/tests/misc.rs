use hibernation::auth::{cached_token_usable, refusal_is_error, token_expired};
use hibernation::client::token_request_path;
use hibernation::config::{check_db_url, ConfigError};
use hibernation::management::{permissions, query_is_blank, quota_bytes};
use hibernation::text::{i64_to_decimal, parse_u64, u64_to_decimal};
use std::collections::HashMap;

use hibernation::timing::{
    finish_session_alive, fresh_entry, lookup_is_fresh, upload_session_alive, LOOKUP_TTL_SECS,
};

#[test]
fn decimal_numbers() {
    assert_eq!(u64_to_decimal(0), "0");
    assert_eq!(u64_to_decimal(1234567890), "1234567890");
    assert_eq!(u64_to_decimal(u64::MAX), "18446744073709551615");
    assert_eq!(i64_to_decimal(-42), "-42");
    assert_eq!(i64_to_decimal(i64::MIN), "-9223372036854775808");
    assert_eq!(parse_u64("18446744073709551615"), Some(u64::MAX));
    assert_eq!(parse_u64("18446744073709551616"), None);
    assert_eq!(parse_u64("+7"), Some(7));
    assert_eq!(parse_u64("+"), None);
    assert_eq!(parse_u64("-7"), None);
    assert_eq!(parse_u64("007"), Some(7));
    assert_eq!(parse_u64(""), None);
    assert_eq!(parse_u64("1 "), None);
    for s in ["0", "42", "+9", "99999999999999999999", "x"] {
        assert_eq!(parse_u64(s), s.parse::<u64>().ok());
    }
}

#[test]
fn fresh_expires_after_ttl() {
    // A map of remembered values, each with its age in nanoseconds.
    let ttl = LOOKUP_TTL_SECS as u128 * 1_000_000_000;
    let map: HashMap<&str, (u128, i32)> = HashMap::from([("new", (0, 1)), ("old", (ttl, 2))]);
    let fresh = |key: &str| fresh_entry(map.get(key).copied());
    assert_eq!(fresh("new"), Some(1));
    assert_eq!(fresh("old"), None);
    assert_eq!(fresh("missing"), None);
}

#[test]
fn session_lifetimes() {
    assert!(lookup_is_fresh(0));
    assert!(lookup_is_fresh(29_999_999_999));
    assert!(!lookup_is_fresh(30_000_000_000));
    assert!(upload_session_alive(299_999_999_999));
    assert!(!upload_session_alive(300_000_000_000));
    assert!(finish_session_alive(119_999_999_999));
    assert!(!finish_session_alive(120_000_000_000));
}

#[test]
fn cli_tokens() {
    assert!(cached_token_usable(10, 9));
    assert!(!cached_token_usable(10, 10));
    assert!(token_expired(9, 10));
    assert!(!token_expired(10, 10));
    assert!(refusal_is_error(500));
    assert!(refusal_is_error(503));
    assert!(!refusal_is_error(401));
}

#[test]
fn white_space_matches_std() {
    for c in (0u32..0x11_0000).filter_map(char::from_u32) {
        let s = c.to_string();
        assert_eq!(query_is_blank(&s), c.is_whitespace(), "{:x}", c as u32);
    }
}

#[test]
fn cache_management_rules() {
    assert_eq!(quota_bytes(3), 3 * 1024 * 1024);
    assert_eq!(quota_bytes(-5), 0);
    assert!(query_is_blank(""));
    assert!(query_is_blank(" \t\n\u{3000}"));
    assert!(!query_is_blank(" hello "));
    assert_eq!(
        permissions(vec!["settings:view"]),
        vec!["settings:view", "cache:create", "cache:view", "cache:edit"]
    );
}

#[test]
fn config_checks() {
    assert!(matches!(check_db_url(""), Err(ConfigError::MissingDbUrl)));
    assert_eq!(check_db_url("sqlite://db.sqlite").unwrap(), true);
    assert_eq!(check_db_url("postgres://x").unwrap(), false);
    assert_eq!(check_db_url("sql").unwrap(), false);
}

#[test]
fn client_paths() {
    assert_eq!(token_request_path("abc"), "/api/cli?code=abc");
}
