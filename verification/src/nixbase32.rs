//! Nix's base-32 text form of hashes, as it appears in narinfo files and
//! store paths.
use vstd::prelude::*;
use crate::text;

verus! {

/// The 32 symbols of Nix base-32 (no `e`, `o`, `t`, `u`).
pub open spec fn alphabet() -> Seq<char> {
    seq![
        '0', '1', '2', '3', '4', '5', '6', '7', '8', '9', 'a', 'b', 'c', 'd', 'f', 'g',
        'h', 'i', 'j', 'k', 'l', 'm', 'n', 'p', 'q', 'r', 's', 'v', 'w', 'x', 'y', 'z',
    ]
}

/// The number of symbols for `n` bytes: one per started group of five bits.
pub open spec fn encoded_len(n: nat) -> nat {
    (8 * n + 4) / 5
}

/// `2^j`.
pub open spec fn pow2(j: nat) -> nat
    decreases j,
{
    if j == 0 { 1 } else { 2 * pow2((j - 1) as nat) }
}

/// The `k`-th group of five bits of `bytes`, reading the bytes as one
/// little-endian number (bits past the end are zero).
pub open spec fn group(bytes: Seq<u8>, k: int) -> nat {
    let i = (5 * k) / 8;
    let lo = bytes[i] as nat;
    let hi: nat = if i + 1 < bytes.len() { bytes[i + 1] as nat } else { 0 };
    ((lo + 256 * hi) / pow2(((5 * k) % 8) as nat)) % 32
}

/// Nix base-32 of `bytes`: the five-bit groups, most significant first,
/// each written as a symbol of `alphabet()`.
pub open spec fn nix32(bytes: Seq<u8>) -> Seq<char> {
    let n = encoded_len(bytes.len());
    Seq::new(n, |p: int| alphabet()[group(bytes, n - 1 - p) as int])
}

proof fn lemma_window(lo: u32, hi: u32, j: u32)
    by (bit_vector)
    requires
        lo < 256,
        hi < 256,
        j < 8,
    ensures
        ((lo | (hi << 8u32)) >> j) & 31u32 == (((lo + 256 * hi) as u32) / (1u32 << j)) % 32,
{
}

proof fn lemma_shift_pow2(j: u32)
    requires
        j < 8,
    ensures
        (1u32 << j) as nat == pow2(j as nat),
{
    reveal_with_fuel(pow2, 9);
    if j == 0 { assert(1u32 << 0u32 == 1) by (bit_vector); }
    else if j == 1 { assert(1u32 << 1u32 == 2) by (bit_vector); }
    else if j == 2 { assert(1u32 << 2u32 == 4) by (bit_vector); }
    else if j == 3 { assert(1u32 << 3u32 == 8) by (bit_vector); }
    else if j == 4 { assert(1u32 << 4u32 == 16) by (bit_vector); }
    else if j == 5 { assert(1u32 << 5u32 == 32) by (bit_vector); }
    else if j == 6 { assert(1u32 << 6u32 == 64) by (bit_vector); }
    else { assert(1u32 << 7u32 == 128) by (bit_vector); }
}

proof fn lemma_group_in_bounds(n: nat, k: int)
    requires
        n > 0,
        0 <= k < encoded_len(n),
    ensures
        0 <= (5 * k) / 8 < n,
        5 * k < 8 * n,
{
    assert(5 * k < 8 * n) by (nonlinear_arith)
        requires
            0 <= k,
            k < (8 * n + 4) / 5,
    ;
}

fn symbol(d: u32) -> (c: char)
    requires
        d < 32,
    ensures
        c == alphabet()[d as int],
{
    let table = vec![
        '0', '1', '2', '3', '4', '5', '6', '7', '8', '9', 'a', 'b', 'c', 'd', 'f', 'g',
        'h', 'i', 'j', 'k', 'l', 'm', 'n', 'p', 'q', 'r', 's', 'v', 'w', 'x', 'y', 'z',
    ];
    assert(table@ =~= alphabet());
    table[d as usize]
}

/// Writes `bytes` in Nix base-32.
pub fn to_nix_base32(bytes: &[u8]) -> (r: String)
    requires
        8 * bytes@.len() + 4 <= usize::MAX,
    ensures
        r@ == nix32(bytes@),
{
    let size = bytes.len();
    let n = (8 * size + 4) / 5;
    let mut r = String::new();
    let mut p: usize = 0;
    while p < n
        invariant
            size == bytes@.len(),
            8 * size + 4 <= usize::MAX,
            n == encoded_len(size as nat),
            p <= n,
            r@ == nix32(bytes@).subrange(0, p as int),
        decreases n - p,
    {
        let k = n - 1 - p;
        proof {
            lemma_group_in_bounds(size as nat, k as int);
        }
        let i = (5 * k) / 8;
        let j = ((5 * k) % 8) as u32;
        let lo = bytes[i] as u32;
        let hi: u32 = if i + 1 < size { bytes[i + 1] as u32 } else { 0 };
        let d = ((lo | (hi << 8u32)) >> j) & 31u32;
        proof {
            lemma_window(lo, hi, j);
            lemma_shift_pow2(j);
            assert(d as nat == group(bytes@, k as int));
        }
        text::push_char(&mut r, symbol(d));
        p = p + 1;
        assert(r@ =~= nix32(bytes@).subrange(0, p as int));
    }
    assert(r@ =~= nix32(bytes@));
    r
}

} // verus!
