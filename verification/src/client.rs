//! The requests that the command line client makes.
use vstd::prelude::*;

verus! {

/// The endpoint that tells whether the client's token is accepted.
pub const TEST_PATH: &'static str = "/api/cache/test";

/// The path under which a one-time login code is exchanged for a token.
pub open spec fn token_request_text(code: Seq<char>) -> Seq<char> {
    "/api/cli?code="@ + code
}

/// The path under which the one-time login code `code` is exchanged for a
/// CLI token.
pub fn token_request_path(code: &str) -> (r: String)
    ensures
        r@ == token_request_text(code@),
{
    let mut r = String::from_str("/api/cli?code=");
    crate::text::append_str(&mut r, code);
    r
}

} // verus!
