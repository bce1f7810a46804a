//! How requests are authenticated: CLI tokens and their expiry.
use vstd::prelude::*;
use vstd::string::StringSliceAdditionalSpecFns;
use crate::digest;
use crate::timing;

verus! {

/// The length in bytes of a CLI token; other bearer tokens are JWTs.
pub const CLI_TOKEN_LEN: usize = 32;

/// The key under which a verified CLI token is remembered: the SHA-256
/// of its bytes, so that the token itself is not kept.
pub fn cli_token_key(token: &str) -> (r: Vec<u8>)
    ensures
        r@ == digest::sha256(token.spec_bytes()),
        r@.len() == 32,
{
    let mut h = digest::sha256_new();
    digest::sha256_update(&mut h, token.as_bytes());
    assert(digest::sha256_absorbed(h) =~= token.spec_bytes());
    digest::sha256_finalize(h)
}

/// How a CLI token is authenticated.
pub enum CliTokenStep {
    /// It was verified a short while ago, for this user, and has not
    /// expired since: no database lookup.
    Cached(uuid::Uuid),
    /// It is checked against the database (and then remembered).
    Verify,
}

/// Whether a remembered verification (user, expiry in nanoseconds since
/// the epoch, age in nanoseconds) may stand for the token at `now`.
pub open spec fn cached_entry_usable(entry: (uuid::Uuid, i128, u128), now: i128) -> bool {
    timing::younger_than(entry.2, timing::LOOKUP_TTL_SECS) && entry.1 > now
}

/// Chooses how a bearer token of `token_len` bytes is authenticated:
/// `None` when it is no CLI token (it is then a JWT); otherwise from the
/// remembered verification of the token, if any, at time `now`.
pub fn cli_token_step(token_len: usize, cached: Option<(uuid::Uuid, i128, u128)>, now: i128) -> (r: Option<CliTokenStep>)
    ensures
        r is None <==> token_len != CLI_TOKEN_LEN,
        token_len == CLI_TOKEN_LEN ==> match cached {
            Some(entry) => if cached_entry_usable(entry, now) {
                r == Some(CliTokenStep::Cached(entry.0))
            } else {
                r == Some(CliTokenStep::Verify)
            },
            None => r == Some(CliTokenStep::Verify),
        },
{
    if token_len != CLI_TOKEN_LEN {
        return None;
    }
    match cached {
        Some((user, exp, age)) => {
            if timing::lookup_is_fresh(age) && cached_token_usable(exp, now) {
                Some(CliTokenStep::Cached(user))
            } else {
                Some(CliTokenStep::Verify)
            }
        },
        None => Some(CliTokenStep::Verify),
    }
}

/// A CLI token remembered from an earlier check is used again only while
/// its expiry lies after `now` (both in nanoseconds since the epoch).
pub fn cached_token_usable(exp: i128, now: i128) -> (r: bool)
    ensures
        r == (exp > now),
{
    exp > now
}

/// A CLI token checked against the database is refused once its expiry
/// lies before `now` (both in nanoseconds since the epoch).
pub fn token_expired(exp: i128, now: i128) -> (r: bool)
    ensures
        r == (exp < now),
{
    exp < now
}

/// When authentication is optional, a refusal with a server error status
/// (5xx) is still an error; any other refusal just means "anonymous".
pub fn refusal_is_error(status: u16) -> (r: bool)
    ensures
        r == (500 <= status && status < 600),
{
    500 <= status && status < 600
}

/// Authentication made optional: a success gives the user; a refusal
/// whose status (`error_status`) is a server error (5xx) stays an error;
/// any other refusal gives an anonymous request.
pub fn optional_auth<T, E>(result: Result<T, E>, error_status: u16) -> (r: Result<Option<T>, E>)
    ensures
        match result {
            Ok(a) => r == Ok::<Option<T>, E>(Some(a)),
            Err(e) => if 500 <= error_status && error_status < 600 {
                r == Err::<Option<T>, E>(e)
            } else {
                r == Ok::<Option<T>, E>(None)
            },
        },
{
    match result {
        Ok(a) => Ok(Some(a)),
        Err(e) => {
            if refusal_is_error(error_status) {
                Err(e)
            } else {
                Ok(None)
            }
        },
    }
}

} // verus!
