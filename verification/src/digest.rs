//! SHA-256, as computed by the `sha2` crate, and its Nix text form.
use vstd::prelude::*;
use crate::nixbase32;

verus! {

/// The incremental SHA-256 hasher of the `sha2` crate.
#[verifier::external_type_specification]
#[verifier::external_body]
pub struct ExSha256(sha2::Sha256);

/// The bytes that a hasher has absorbed since it was created, in order.
pub uninterp spec fn sha256_absorbed(h: sha2::Sha256) -> Seq<u8>;

/// The SHA-256 digest of `data`.
pub uninterp spec fn sha256(data: Seq<u8>) -> Seq<u8>;

/// `sha2::Sha256::new` (through `Digest::new`): a hasher that has absorbed
/// nothing yet.
#[verifier::external_body]
pub(crate) fn sha256_new() -> (h: sha2::Sha256)
    ensures
        sha256_absorbed(h) == Seq::<u8>::empty(),
{
    <sha2::Sha256 as sha2::Digest>::new()
}

/// `Digest::update` on `sha2::Sha256`: the hasher has absorbed `data` after
/// what it had absorbed before.
#[verifier::external_body]
pub(crate) fn sha256_update(h: &mut sha2::Sha256, data: &[u8])
    ensures
        sha256_absorbed(*final(h)) == sha256_absorbed(*old(h)) + data@,
{
    sha2::Digest::update(h, data);
}

/// `Digest::finalize` on `sha2::Sha256`: the 32-byte SHA-256 digest of all
/// that the hasher absorbed.
#[verifier::external_body]
pub(crate) fn sha256_finalize(h: sha2::Sha256) -> (d: Vec<u8>)
    ensures
        d@ == sha256(sha256_absorbed(h)),
        d@.len() == 32,
{
    sha2::Digest::finalize(h).to_vec()
}

/// The Nix base-32 form of the SHA-256 of `data`, as narinfo files write it.
pub open spec fn nix_sha256(data: Seq<u8>) -> Seq<char> {
    nixbase32::nix32(sha256(data))
}

/// The Nix base-32 text of the SHA-256 of `data`.
pub fn sha256_nix32(data: &[u8]) -> (r: String)
    ensures
        r@ == nix_sha256(data@),
{
    let mut h = sha256_new();
    sha256_update(&mut h, data);
    assert(sha256_absorbed(h) =~= data@);
    let d = sha256_finalize(h);
    nixbase32::to_nix_base32(d.as_slice())
}

} // verus!
