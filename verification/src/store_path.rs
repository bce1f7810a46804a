//! Nix store paths in their base form `<hash>-<name>`, as parsed by
//! `harmonia-store-core`.
use vstd::prelude::*;
use crate::nixbase32;

verus! {

/// The number of symbols of the hash part of a store path.
pub const HASH_LEN: usize = 32;

/// The longest name part that a store path may have.
pub const MAX_NAME_LEN: usize = 211;

/// A symbol of Nix base-32.
pub open spec fn is_nix32_symbol(c: char) -> bool {
    nixbase32::alphabet().contains(c)
}

/// A character allowed in the name part of a store path.
pub open spec fn is_name_char(c: char) -> bool {
    ||| ('a' <= c && c <= 'z')
    ||| ('A' <= c && c <= 'Z')
    ||| ('0' <= c && c <= '9')
    ||| c == '+' || c == '-' || c == '_' || c == '?' || c == '=' || c == '.'
}

/// `s` is a store path in base form: 32 Nix base-32 symbols, a `-`, and a
/// name of 1 to 211 allowed characters.
pub open spec fn is_store_path(s: Seq<char>) -> bool {
    &&& HASH_LEN + 2 <= s.len() <= HASH_LEN + 1 + MAX_NAME_LEN
    &&& forall|i: int| 0 <= i < HASH_LEN ==> is_nix32_symbol(#[trigger] s[i])
    &&& s[HASH_LEN as int] == '-'
    &&& forall|i: int| HASH_LEN + 1 <= i < s.len() ==> is_name_char(#[trigger] s[i])
}

/// `StorePath::from_base_path` followed by the text of the path's hash.
/// The claim, from the crate's source: parsing succeeds exactly on
/// `is_store_path` strings (hash part decodes as Nix base-32, `-`, then a
/// name checked byte by byte against the allowed set and length), and the
/// hash, written back in Nix base-32, is the first 32 symbols of the path
/// (32 symbols carry exactly the 20 bytes of the hash, so decoding and
/// encoding again gives the same text).
#[verifier::external_body]
pub(crate) fn parse_store_path_hash(s: &str) -> (r: Option<String>)
    ensures
        r is Some <==> is_store_path(s@),
        r matches Some(h) ==> h@ == s@.subrange(0, HASH_LEN as int),
{
    match harmonia_store_core::store_path::StorePath::from_base_path(s) {
        Ok(p) => Some(p.hash().to_string()),
        Err(_) => None,
    }
}

/// Whether every string of `paths` is a store path in base form.
pub fn all_store_paths(paths: &Vec<String>) -> (r: bool)
    ensures
        r == forall|i: int| 0 <= i < paths@.len() ==> is_store_path(#[trigger] paths@[i]@),
{
    let mut i: usize = 0;
    while i < paths.len()
        invariant
            i <= paths@.len(),
            forall|j: int| 0 <= j < i ==> is_store_path(#[trigger] paths@[j]@),
        decreases paths@.len() - i,
    {
        if parse_store_path_hash(paths[i].as_str()).is_none() {
            return false;
        }
        i = i + 1;
    }
    true
}

} // verus!
