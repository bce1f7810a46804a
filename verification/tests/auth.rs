use hibernation::auth::{cli_token_key, cli_token_step, optional_auth, CliTokenStep, CLI_TOKEN_LEN};
use hibernation::timing::{fresh_entry, LOOKUP_TTL_SECS};
use hibernation::upload::{PushEndpoint, PushError};
use sha2::Digest;
use uuid::Uuid;

const SEC: u128 = 1_000_000_000;

#[test]
fn token_key_is_sha256_of_token() {
    let token = "0123456789abcdef0123456789abcdef";
    let key = cli_token_key(token);
    assert_eq!(key.len(), 32);
    assert_eq!(key, sha2::Sha256::digest(token.as_bytes()).to_vec());
    assert_ne!(key, token.as_bytes().to_vec());
    assert_ne!(cli_token_key("another token"), key);
}

fn is_cached(step: Option<CliTokenStep>, user: Uuid) -> bool {
    matches!(step, Some(CliTokenStep::Cached(u)) if u == user)
}

fn is_verify(step: Option<CliTokenStep>) -> bool {
    matches!(step, Some(CliTokenStep::Verify))
}

#[test]
fn token_step_choices() {
    let user = Uuid::from_u128(7);
    let now: i128 = 1_000 * SEC as i128;
    // Not 32 bytes long: a JWT.
    assert!(cli_token_step(31, None, now).is_none());
    assert!(cli_token_step("eyJhbGciOiJIUzI1NiJ9.e30.x".len(), None, now).is_none());
    assert!(is_verify(cli_token_step("a".repeat(32).len(), None, now)));
    assert!(cli_token_step(200, Some((user, now + 1, 0)), now).is_none());
    // Nothing remembered.
    assert!(is_verify(cli_token_step(CLI_TOKEN_LEN, None, now)));
    // Remembered recently and not expired.
    assert!(is_cached(cli_token_step(CLI_TOKEN_LEN, Some((user, now + 1, 0)), now), user));
    assert!(is_cached(cli_token_step(CLI_TOKEN_LEN, Some((user, now + 1, 30 * SEC - 1)), now), user));
    // Remembered too long ago.
    assert!(is_verify(cli_token_step(CLI_TOKEN_LEN, Some((user, now + 1, 30 * SEC)), now)));
    // Expired, or expiring right now.
    assert!(is_verify(cli_token_step(CLI_TOKEN_LEN, Some((user, now, 0)), now)));
    assert!(is_verify(cli_token_step(CLI_TOKEN_LEN, Some((user, now - 1, 0)), now)));
}

#[test]
fn optional_auth_maps_refusals() {
    assert_eq!(optional_auth::<u32, &str>(Ok(5), 200), Ok(Some(5)));
    assert_eq!(optional_auth::<u32, &str>(Ok(5), 500), Ok(Some(5)));
    assert_eq!(optional_auth::<u32, &str>(Err("down"), 500), Err("down"));
    assert_eq!(optional_auth::<u32, &str>(Err("down"), 503), Err("down"));
    assert_eq!(optional_auth::<u32, &str>(Err("no"), 401), Ok(None));
    assert_eq!(optional_auth::<u32, &str>(Err("no"), 403), Ok(None));
    assert_eq!(optional_auth::<u32, &str>(Err("no"), 600), Ok(None));
    assert_eq!(optional_auth::<u32, &str>(Err("no"), 499), Ok(None));
}

#[test]
fn push_error_statuses() {
    assert_eq!(PushError::InvalidStorePaths.status(PushEndpoint::Info), Some(422));
    assert_eq!(PushError::ForcePushNotAllowed.status(PushEndpoint::Info), Some(406));
    assert_eq!(PushError::AllPresent.status(PushEndpoint::Info), Some(204));
    assert_eq!(PushError::AllPresentDownstream.status(PushEndpoint::Info), Some(204));
    assert_eq!(PushError::InvalidStorePath.status(PushEndpoint::Path), Some(422));
    assert_eq!(PushError::InvalidReferences.status(PushEndpoint::Path), Some(422));
    assert_eq!(PushError::ForcePushNotAllowed.status(PushEndpoint::Path), None);
    assert_eq!(PushError::FileMismatch.status(PushEndpoint::Finish), None);
    assert_eq!(PushError::OverQuota.status(PushEndpoint::Finish), None);
}

#[test]
fn remembered_lookups_expire() {
    let ttl = LOOKUP_TTL_SECS as u128 * SEC;
    assert_eq!(fresh_entry(Some((0, 1))), Some(1));
    assert_eq!(fresh_entry(Some((ttl - 1, 2))), Some(2));
    assert_eq!(fresh_entry(Some((ttl, 3))), None);
    assert_eq!(fresh_entry::<u8>(None), None);
}
