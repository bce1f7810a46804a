//! Rules of cache management: quotas, searches and permissions.
use vstd::prelude::*;

verus! {

/// The number of bytes in a mebibyte.
pub const MIB: i64 = 1048576;

/// The quota in bytes of a cache created with a quota of `mib` MiB; a
/// negative quota counts as zero.
pub open spec fn spec_quota_bytes(mib: i64) -> int {
    (if mib < 0 { 0 } else { mib as int }) * MIB
}

/// Converts a quota given in MiB into bytes, counting negative quotas as zero.
pub fn quota_bytes(mib: i64) -> (r: i64)
    requires
        spec_quota_bytes(mib) <= i64::MAX,
    ensures
        r == spec_quota_bytes(mib),
        r >= 0,
{
    let m = if mib < 0 { 0 } else { mib };
    m * 1024 * 1024
}

/// Whether `c` has the Unicode `White_Space` property, as
/// `char::is_whitespace` tests it: tab to carriage return, space, next
/// line, no-break space, ogham space mark, the spaces from en quad to hair
/// space, line and paragraph separators, narrow no-break space, medium
/// mathematical space and ideographic space.
pub open spec fn unicode_white_space(c: char) -> bool {
    let n = c as u32;
    ||| (0x09 <= n && n <= 0x0d)
    ||| n == 0x20 || n == 0x85 || n == 0xa0 || n == 0x1680
    ||| (0x2000 <= n && n <= 0x200a)
    ||| n == 0x2028 || n == 0x2029 || n == 0x202f || n == 0x205f || n == 0x3000
}

fn is_white_space(c: char) -> (r: bool)
    ensures
        r == unicode_white_space(c),
{
    let n = c as u32;
    (0x09 <= n && n <= 0x0d) || n == 0x20 || n == 0x85 || n == 0xa0 || n == 0x1680
        || (0x2000 <= n && n <= 0x200a) || n == 0x2028 || n == 0x2029 || n == 0x202f
        || n == 0x205f || n == 0x3000
}

/// A search query that is empty once white space is trimmed is refused.
pub fn query_is_blank(query: &str) -> (r: bool)
    ensures
        r == forall|i: int| 0 <= i < query@.len() ==> unicode_white_space(#[trigger] query@[i]),
{
    let n = query.unicode_len();
    let mut i: usize = 0;
    while i < n
        invariant
            n == query@.len(),
            i <= n,
            forall|j: int| 0 <= j < i ==> unicode_white_space(#[trigger] query@[j]),
        decreases n - i,
    {
        if !is_white_space(query.get_char(i)) {
            return false;
        }
        i = i + 1;
    }
    true
}

/// The permission to create caches.
pub const CACHE_CREATE: &'static str = "cache:create";
/// The permission to view caches.
pub const CACHE_VIEW: &'static str = "cache:view";
/// The permission to edit caches.
pub const CACHE_EDIT: &'static str = "cache:edit";

/// All permissions that can be granted: those of the base system followed
/// by the cache permissions.
pub fn permissions(base: Vec<&'static str>) -> (r: Vec<&'static str>)
    ensures
        r@ == base@ + seq![CACHE_CREATE, CACHE_VIEW, CACHE_EDIT],
{
    let mut perms = base;
    perms.push(CACHE_CREATE);
    perms.push(CACHE_VIEW);
    perms.push(CACHE_EDIT);
    assert(perms@ =~= base@ + seq![CACHE_CREATE, CACHE_VIEW, CACHE_EDIT]);
    perms
}

} // verus!
