//! Properties that tie the library's pieces together: what one part
//! writes, another part reads back.
use vstd::prelude::*;
use crate::narinfo;
use crate::nixbase32;
use crate::range;
use crate::session;
use crate::text;
use crate::timing;
use crate::upload;

verus! {

proof fn lemma_digit_char(d: nat)
    requires
        d < 10,
    ensures
        text::is_digit(text::digit_char(d)),
        text::digit_value(text::digit_char(d)) == d,
{
}

proof fn lemma_dec_digits(n: nat)
    ensures
        dec_ok(n),
    decreases n,
{
    if n < 10 {
        lemma_digit_char(n);
        let s = text::dec(n);
        assert(s.drop_last() =~= Seq::<char>::empty());
        assert(s.last() == text::digit_char(n));
        assert(text::digits_value(s) == text::digits_value(s.drop_last()) * 10 + text::digit_value(s.last()));
        assert(text::digits_value(Seq::<char>::empty()) == 0);
        assert(text::is_digit(s[0]));
    } else {
        lemma_dec_digits(n / 10);
        lemma_digit_char(n % 10);
        let s = text::dec(n);
        assert(s.drop_last() =~= text::dec(n / 10));
        assert(s.last() == text::digit_char(n % 10));
        assert(text::digits_value(s) == text::digits_value(s.drop_last()) * 10 + text::digit_value(s.last()));
        assert forall|i: int| 0 <= i < s.len() implies text::is_digit(#[trigger] s[i]) by {
            if i < s.len() - 1 {
                assert(s[i] == text::dec(n / 10)[i]);
            }
        }
    }
}

spec fn dec_ok(n: nat) -> bool {
    &&& text::dec(n).len() >= 1
    &&& text::all_digits(text::dec(n))
    &&& text::digits_value(text::dec(n)) == n
}

/// Reading back a written number: the decimal text of any `u64` parses,
/// as `u64::from_str` does, to the same number.
pub proof fn decimal_round_trip(n: u64)
    ensures
        text::spec_parse_u64(text::dec(n as nat)) == Some(n),
{
    lemma_dec_digits(n as nat);
    let s = text::dec(n as nat);
    assert(text::is_digit(s[0]));
}

proof fn lemma_dash_at(s: Seq<char>, from: int, k: int)
    requires
        0 <= from <= k <= s.len(),
        forall|i: int| from <= i < k ==> s[i] != '-',
        k == s.len() || s[k] == '-',
    ensures
        range::dash_or_end(s, from) == k,
    decreases k - from,
{
    if from < k {
        lemma_dash_at(s, from + 1, k);
    }
}

/// A range request written the usual way, `bytes=<start>-<end>`, is read
/// back as that range (the end clamped to the file) whenever it starts
/// inside the file.
pub proof fn range_request_round_trip(start: u64, end: u64, file_size: u64)
    requires
        start < file_size,
    ensures
        range::spec_parse_range(
            range::bytes_unit() + text::dec(start as nat) + seq!['-'] + text::dec(end as nat),
            file_size,
        ) == Some((start, if end < file_size - 1 { end } else { (file_size - 1) as u64 })),
{
    let ds = text::dec(start as nat);
    let de = text::dec(end as nat);
    let r = range::bytes_unit() + ds + seq!['-'] + de;
    lemma_dec_digits(start as nat);
    lemma_dec_digits(end as nat);
    decimal_round_trip(start);
    decimal_round_trip(end);
    assert(r.subrange(0, 6) =~= range::bytes_unit());
    let rest = range::range_spec_of(r);
    assert(rest =~= ds + seq!['-'] + de);
    assert forall|i: int| 0 <= i < ds.len() implies rest[i] != '-' by {
        assert(rest[i] == ds[i]);
        assert(text::is_digit(ds[i]));
    }
    lemma_dash_at(rest, 0, ds.len() as int);
    assert(rest.subrange(0, ds.len() as int) =~= ds);
    let k: int = (ds.len() + 1) as int;
    assert forall|i: int| k <= i < rest.len() implies rest[i] != '-' by {
        assert(rest[i] == de[i - k]);
        assert(text::is_digit(de[i - k]));
    }
    lemma_dash_at(rest, k, rest.len() as int);
    assert(rest.subrange(k, rest.len() as int) =~= de);
}

/// A parsed range always lies inside the file: it starts before the end of
/// the file and its end is at most the file's last byte.
pub proof fn range_inside_file(r: Seq<char>, file_size: u64)
    ensures
        range::spec_parse_range(r, file_size) matches Some((s, e)) ==> s < file_size && e < file_size,
{
}

/// Nix base-32 text has one symbol per started five bits, every one of
/// them from the Nix alphabet; a SHA-256 digest takes 52 symbols.
pub proof fn nix32_shape(bytes: Seq<u8>)
    ensures
        nixbase32::nix32(bytes).len() == nixbase32::encoded_len(bytes.len()),
        forall|i: int| 0 <= i < nixbase32::nix32(bytes).len()
            ==> nixbase32::alphabet().contains(#[trigger] nixbase32::nix32(bytes)[i]),
        bytes.len() == 32 ==> nixbase32::nix32(bytes).len() == 52,
{
    assert forall|i: int| 0 <= i < nixbase32::nix32(bytes).len()
        implies nixbase32::alphabet().contains(#[trigger] nixbase32::nix32(bytes)[i]) by {
        let n = nixbase32::encoded_len(bytes.len());
        let g = nixbase32::group(bytes, n - 1 - i);
        assert(0 <= g < 32);
        assert(nixbase32::alphabet()[g as int] == nixbase32::nix32(bytes)[i]);
    }
}

/// The narinfo file name under which a push looks a path up downstream is
/// read back by the narinfo endpoint as the path's hash.
pub proof fn narinfo_name_round_trip(hash: Seq<char>)
    ensures
        text::has_suffix(upload::narinfo_file(hash), narinfo::narinfo_ext()),
        upload::narinfo_file(hash).subrange(0, upload::narinfo_file(hash).len() - narinfo::narinfo_ext().len()) == hash,
{
    reveal_strlit(".narinfo");
    let f = upload::narinfo_file(hash);
    assert(".narinfo"@ =~= narinfo::narinfo_ext());
    assert(f.subrange(f.len() - 8, f.len() as int) =~= narinfo::narinfo_ext());
    assert(f.subrange(0, f.len() - 8) =~= hash);
}

/// The file that a narinfo's `URL` line names, `<hash>.nar.<compression>`,
/// is split by the NAR endpoint back into that hash and compression, for
/// any hash without a `.` (as Nix base-32 hashes are).
pub proof fn nar_url_round_trip(hash: Seq<char>, compression: Seq<char>)
    requires
        forall|i: int| 0 <= i < hash.len() ==> hash[i] != '.',
    ensures
        ({
            let f = hash + narinfo::nar_sep() + compression;
            &&& text::first_occurrence(f, narinfo::nar_sep()) == Some(hash.len() as int)
            &&& f.subrange(0, hash.len() as int) == hash
            &&& f.subrange((hash.len() + 5) as int, f.len() as int) == compression
        }),
{
    let f = hash + narinfo::nar_sep() + compression;
    let sep = narinfo::nar_sep();
    assert(f.subrange(hash.len() as int, (hash.len() + 5) as int) =~= sep);
    assert forall|j: int| 0 <= j < hash.len() implies !text::occurs_at(f, sep, j) by {
        if text::occurs_at(f, sep, j) {
            assert(f.subrange(j, j + 5)[0] == sep[0]);
            assert(f[j] == hash[j]);
        }
    }
    reveal(text::first_occurrence);
    let k = choose|k: int| text::occurs_at(f, sep, k) && forall|j: int| 0 <= j < k ==> !text::occurs_at(f, sep, j);
    assert(text::occurs_at(f, sep, hash.len() as int));
    if k < hash.len() {
        assert(!text::occurs_at(f, sep, k));
    }
    if k > hash.len() {
        assert(!text::occurs_at(f, sep, hash.len() as int));
    }
    assert(f.subrange(0, hash.len() as int) =~= hash);
    assert(f.subrange((hash.len() + 5) as int, f.len() as int) =~= compression);
}

/// Every path that is still to be pushed after asking a downstream cache
/// was reported missing by that cache.
pub proof fn downstream_only_drops(results: Seq<Option<(bool, String)>>)
    ensures
        forall|k: int| 0 <= k < upload::still_missing(results).len() ==>
            exists|i: int| 0 <= i < results.len() && results[i] == Some((false, #[trigger] upload::still_missing(results)[k])),
    decreases results.len(),
{
    if results.len() > 0 {
        let init = results.drop_last();
        downstream_only_drops(init);
        let rest = upload::still_missing(init);
        assert forall|k: int| 0 <= k < upload::still_missing(results).len() implies
            exists|i: int| 0 <= i < results.len() && results[i] == Some((false, #[trigger] upload::still_missing(results)[k])) by {
            let m = upload::still_missing(results);
            if k < rest.len() {
                assert(m[k] == rest[k]);
                let i = choose|i: int| 0 <= i < init.len() && init[i] == Some((false, rest[k]));
                assert(results[i] == init[i]);
            } else {
                assert(results[results.len() - 1] == Some((false, m[k])));
            }
        }
    }
}

/// Remembered lookups do not outlive a change by more than the lookup
/// TTL: a value remembered at `stored`, no later than a change at
/// `changed`, is no longer used at any time `now` that lies at least
/// `LOOKUP_TTL_SECS` after the change (all in nanoseconds).
pub proof fn memo_outlived_by_change<V>(stored: u128, changed: u128, now: u128, v: V)
    requires
        stored <= changed,
        changed + timing::LOOKUP_TTL_SECS * 1_000_000_000 <= now,
    ensures
        timing::fresh_value(Some(((now - stored) as u128, v))) == None::<V>,
{
}

/// A session gives back, once, what it was opened with: taking session
/// `id` from the sessions `m` after opening it with `value` at `now` gives
/// `(value, now)`, and taking it again gives nothing; other sessions are
/// untouched. A sweep never brings a session back, and keeps every session
/// that is still alive.
pub proof fn session_round_trip<T>(m: Map<u128, (T, u128)>, id: u128, value: T, now: u128, other: u128, ttl_secs: u64)
    requires
        other != id,
    ensures
        m.insert(id, (value, now)).get(id) == Some((value, now)),
        m.insert(id, (value, now)).remove(id).get(id) == None::<(T, u128)>,
        m.insert(id, (value, now)).remove(id).get(other) == m.get(other),
        ({
            let swept = m.restrict(m.dom().filter(|k: u128| session::alive(m[k].1, now, ttl_secs)));
            &&& swept.dom().subset_of(m.dom())
            &&& forall|k: u128| #[trigger] m.dom().contains(k) && session::alive(m[k].1, now, ttl_secs)
                ==> swept.dom().contains(k) && swept[k] == m[k]
        }),
{
}

/// Where part `i` starts in the joined text: after every earlier part and
/// one separator (of `sep_len` characters) behind each of them.
pub open spec fn join_offset(parts: Seq<Seq<char>>, sep_len: nat, i: int) -> int
    decreases i,
{
    if i <= 0 {
        0
    } else {
        join_offset(parts, sep_len, i - 1) + parts[i - 1].len() + sep_len
    }
}

proof fn lemma_offset_prefix(parts: Seq<Seq<char>>, sep_len: nat, i: int)
    requires
        parts.len() >= 1,
        0 <= i <= parts.len() - 1,
    ensures
        join_offset(parts, sep_len, i) == join_offset(parts.drop_last(), sep_len, i),
    decreases i,
{
    if i > 0 {
        lemma_offset_prefix(parts, sep_len, i - 1);
        assert(parts[i - 1] == parts.drop_last()[i - 1]);
    }
}

proof fn lemma_offset_mono(parts: Seq<Seq<char>>, sep_len: nat, i: int, j: int)
    requires
        0 <= i <= j <= parts.len(),
    ensures
        join_offset(parts, sep_len, i) <= join_offset(parts, sep_len, j),
    decreases j - i,
{
    if i < j {
        lemma_offset_mono(parts, sep_len, i, j - 1);
    }
}

proof fn lemma_sub_left(x: Seq<char>, y: Seq<char>, a: int, b: int)
    requires
        0 <= a <= b <= x.len(),
    ensures
        (x + y).subrange(a, b) == x.subrange(a, b),
{
    assert((x + y).subrange(a, b) =~= x.subrange(a, b));
}

proof fn lemma_join_len(parts: Seq<Seq<char>>, sep: Seq<char>)
    requires
        parts.len() >= 1,
    ensures
        text::join(parts, sep).len() == join_offset(parts, sep.len(), parts.len() - 1) + parts[parts.len() - 1].len(),
    decreases parts.len(),
{
    let n = parts.len() as int;
    if n >= 2 {
        let d = parts.drop_last();
        lemma_join_len(d, sep);
        lemma_offset_prefix(parts, sep.len(), n - 2);
        assert(d[n - 2] == parts[n - 2]);
    }
}

/// The end of part `i` lies within the text joined from the parts.
proof fn lemma_part_end_inside(parts: Seq<Seq<char>>, sep: Seq<char>, i: int)
    requires
        0 <= i < parts.len(),
    ensures
        join_offset(parts, sep.len(), i) + parts[i].len() <= text::join(parts, sep).len(),
        i < parts.len() - 1 ==> join_offset(parts, sep.len(), i + 1) <= text::join(parts, sep).len(),
{
    let n = parts.len() as int;
    lemma_join_len(parts, sep);
    if i < n - 1 {
        lemma_offset_mono(parts, sep.len(), i + 1, n - 1);
    }
}

proof fn lemma_join_part(parts: Seq<Seq<char>>, sep: Seq<char>, i: int)
    requires
        0 <= i < parts.len(),
    ensures
        text::join(parts, sep).subrange(join_offset(parts, sep.len(), i), join_offset(parts, sep.len(), i) + parts[i].len())
            == parts[i],
    decreases parts.len(),
{
    let n = parts.len() as int;
    let t = text::join(parts, sep);
    let sl = sep.len();
    if n == 1 {
        assert(t.subrange(0, parts[0].len() as int) =~= parts[0]);
    } else {
        let d = parts.drop_last();
        let j = text::join(d, sep);
        assert(t == j + sep + parts.last());
        lemma_join_len(d, sep);
        lemma_offset_prefix(parts, sl, n - 2);
        assert(d[n - 2] == parts[n - 2]);
        if i == n - 1 {
            assert(t.subrange((j.len() + sl) as int, t.len() as int) =~= parts[i]);
        } else {
            lemma_join_part(d, sep, i);
            lemma_offset_prefix(parts, sl, i);
            lemma_part_end_inside(d, sep, i);
            lemma_offset_mono(d, sl, 0, i);
            assert(d[i] == parts[i]);
            let a = join_offset(d, sl, i);
            let b = a + d[i].len();
            lemma_sub_left(j + sep, parts.last(), a, b);
            lemma_sub_left(j, sep, a, b);
        }
    }
}

proof fn lemma_join_sep(parts: Seq<Seq<char>>, sep: Seq<char>, i: int)
    requires
        0 <= i < parts.len() - 1,
    ensures
        text::join(parts, sep).subrange(join_offset(parts, sep.len(), i) + parts[i].len(), join_offset(parts, sep.len(), i + 1))
            == sep,
    decreases parts.len(),
{
    let n = parts.len() as int;
    let t = text::join(parts, sep);
    let sl = sep.len();
    let d = parts.drop_last();
    let j = text::join(d, sep);
    assert(t == j + sep + parts.last());
    lemma_join_len(d, sep);
    lemma_offset_prefix(parts, sl, n - 2);
    assert(d[n - 2] == parts[n - 2]);
    if i == n - 2 {
        lemma_offset_prefix(parts, sl, n - 1);
        assert(t.subrange(j.len() as int, (j.len() + sl) as int) =~= sep);
    } else {
        lemma_join_sep(d, sep, i);
        lemma_offset_prefix(parts, sl, i);
        lemma_offset_prefix(parts, sl, i + 1);
        lemma_part_end_inside(d, sep, i);
        lemma_offset_mono(d, sl, 0, i);
        assert(d[i] == parts[i]);
        let a = join_offset(d, sl, i) + d[i].len();
        let b = join_offset(d, sl, i + 1);
        lemma_sub_left(j + sep, parts.last(), a, b);
        lemma_sub_left(j, sep, a, b);
    }
}

/// Joining puts the separator between every two neighbouring parts and
/// nowhere else: part `i` stands at `join_offset(i)`, the separator right
/// after every part but the last, and the text ends with the last part.
/// So the joined text is as long as all parts together plus one separator
/// fewer than there are parts.
pub proof fn join_layout(parts: Seq<Seq<char>>, sep: Seq<char>)
    ensures
        parts.len() == 0 ==> text::join(parts, sep).len() == 0,
        parts.len() >= 1 ==> text::join(parts, sep).len()
            == join_offset(parts, sep.len(), parts.len() - 1) + parts[parts.len() - 1].len(),
        forall|i: int| 0 <= i < parts.len() ==> text::join(parts, sep).subrange(
            join_offset(parts, sep.len(), i), join_offset(parts, sep.len(), i) + parts[i].len()) == #[trigger] parts[i],
        forall|i: int| 0 <= i < parts.len() - 1 ==> text::join(parts, sep).subrange(
            join_offset(parts, sep.len(), i) + parts[i].len(), #[trigger] join_offset(parts, sep.len(), i + 1)) == sep,
{
    if parts.len() >= 1 {
        lemma_join_len(parts, sep);
    }
    assert forall|i: int| 0 <= i < parts.len() implies text::join(parts, sep).subrange(
        join_offset(parts, sep.len(), i), join_offset(parts, sep.len(), i) + parts[i].len()) == #[trigger] parts[i] by {
        lemma_join_part(parts, sep, i);
    }
    assert forall|i: int| 0 <= i < parts.len() - 1 implies text::join(parts, sep).subrange(
        join_offset(parts, sep.len(), i) + parts[i].len(), #[trigger] join_offset(parts, sep.len(), i + 1)) == sep by {
        lemma_join_sep(parts, sep, i);
    }
}

proof fn lemma_missing_prefix(results: Seq<Option<(bool, String)>>, j: int)
    requires
        0 <= j <= results.len(),
    ensures
        upload::still_missing(results.take(j)).len() <= upload::still_missing(results).len(),
        forall|k: int| 0 <= k < upload::still_missing(results.take(j)).len()
            ==> #[trigger] upload::still_missing(results.take(j))[k] == upload::still_missing(results)[k],
    decreases results.len(),
{
    if j == results.len() {
        assert(results.take(j) =~= results);
    } else {
        let d = results.drop_last();
        assert(d.take(j) =~= results.take(j));
        lemma_missing_prefix(d, j);
        let m = upload::still_missing(results);
        let md = upload::still_missing(d);
        assert(md.len() <= m.len());
        assert forall|k: int| 0 <= k < md.len() implies #[trigger] md[k] == m[k] by {}
    }
}

/// Whether the downstream cache reported result `r` missing.
pub open spec fn reported_missing(r: Option<(bool, String)>) -> bool {
    r matches Some((false, _))
}

proof fn lemma_missing_rank(results: Seq<Option<(bool, String)>>, i: int)
    requires
        0 <= i < results.len(),
        reported_missing(results[i]),
    ensures
        upload::still_missing(results.take(i)).len() < upload::still_missing(results).len(),
        upload::still_missing(results)[upload::still_missing(results.take(i)).len() as int] == results[i].unwrap().1,
{
    let t = results.take(i + 1);
    assert(t.drop_last() =~= results.take(i));
    assert(t.last() == results[i]);
    lemma_missing_prefix(results, i + 1);
    let k = upload::still_missing(results.take(i)).len();
    assert(upload::still_missing(t)[k as int] == results[i].unwrap().1);
}

/// Place `k` of the paths still to be pushed is filled by an answer that
/// reports its path missing, with `k` such answers before it.
pub open spec fn missing_source(results: Seq<Option<(bool, String)>>, k: int) -> bool {
    exists|i: int| 0 <= i < results.len() && reported_missing(#[trigger] results[i])
        && upload::still_missing(results.take(i)).len() == k
        && results[i].unwrap().1 == upload::still_missing(results)[k]
}

proof fn lemma_missing_source(results: Seq<Option<(bool, String)>>, k: int)
    requires
        0 <= k < upload::still_missing(results).len(),
    ensures
        missing_source(results, k),
    decreases results.len(),
{
    let d = results.drop_last();
    let m = upload::still_missing(results);
    let md = upload::still_missing(d);
    if k < md.len() {
        lemma_missing_source(d, k);
        assert(missing_source(d, k));
        let i = choose|i: int| 0 <= i < d.len() && reported_missing(#[trigger] d[i])
            && upload::still_missing(d.take(i)).len() == k && d[i].unwrap().1 == md[k];
        assert(d.take(i) =~= results.take(i));
        assert(results[i] == d[i]);
        assert(m[k] == md[k]);
        assert(reported_missing(results[i]));
    } else {
        let i = results.len() - 1;
        assert(results.take(i) =~= d);
        assert(reported_missing(results[i]));
    }
}

/// After asking a downstream cache, every path it reported missing is
/// still to be pushed, in the order of the answers and nothing else: the
/// path of the `i`-th answer that reports it missing stands at the place
/// given by the number of such answers before it, and every place is
/// filled that way.
pub proof fn downstream_keeps_missing(results: Seq<Option<(bool, String)>>)
    ensures
        forall|i: int| 0 <= i < results.len() && reported_missing(#[trigger] results[i]) ==> {
            &&& upload::still_missing(results.take(i)).len() < upload::still_missing(results).len()
            &&& upload::still_missing(results)[upload::still_missing(results.take(i)).len() as int] == results[i].unwrap().1
            &&& upload::still_missing(results).contains(results[i].unwrap().1)
        },
        forall|k: int| #![trigger missing_source(results, k)] 0 <= k < upload::still_missing(results).len()
            ==> missing_source(results, k),
{
    assert forall|i: int| 0 <= i < results.len() && reported_missing(#[trigger] results[i]) implies {
        &&& upload::still_missing(results.take(i)).len() < upload::still_missing(results).len()
        &&& upload::still_missing(results)[upload::still_missing(results.take(i)).len() as int] == results[i].unwrap().1
        &&& upload::still_missing(results).contains(results[i].unwrap().1)
    } by {
        lemma_missing_rank(results, i);
    }
    assert forall|k: int| #![trigger missing_source(results, k)] 0 <= k < upload::still_missing(results).len()
        implies missing_source(results, k) by {
        lemma_missing_source(results, k);
    }
}

/// The `Content-Range` value reads back as what it was written from:
/// after `bytes ` comes, up to the first `-`, the decimal text of the
/// first byte; then, up to the first `/`, that of the last byte; then that
/// of the file's size.
pub proof fn content_range_reads_back(start: u64, end: u64, file_size: u64)
    ensures
        ({
            let t = range::content_range_text(start, end, file_size);
            exists|j: int, k: int| #![trigger t.subrange(6, j), t.subrange(j + 1, k)]
                6 <= j < k < t.len()
                && t.subrange(0, 6) == "bytes "@
                && t[j] == '-' && t[k] == '/'
                && (forall|x: int| 6 <= x < j ==> t[x] != '-')
                && (forall|x: int| j < x < k ==> t[x] != '/')
                && text::spec_parse_u64(t.subrange(6, j)) == Some(start)
                && text::spec_parse_u64(t.subrange(j + 1, k)) == Some(end)
                && text::spec_parse_u64(t.subrange(k + 1, t.len() as int)) == Some(file_size)
        }),
{
    reveal_strlit("bytes ");
    reveal_strlit("-");
    reveal_strlit("/");
    let t = range::content_range_text(start, end, file_size);
    let ds = text::dec(start as nat);
    let de = text::dec(end as nat);
    let dz = text::dec(file_size as nat);
    lemma_dec_digits(start as nat);
    lemma_dec_digits(end as nat);
    lemma_dec_digits(file_size as nat);
    decimal_round_trip(start);
    decimal_round_trip(end);
    decimal_round_trip(file_size);
    let j: int = 6 + ds.len() as int;
    let k: int = j + 1 + de.len() as int;
    assert(t == "bytes "@ + ds + "-"@ + de + "/"@ + dz);
    assert(t.subrange(0, 6) =~= "bytes "@);
    assert(t.subrange(6, j) =~= ds);
    assert(t.subrange(j + 1, k) =~= de);
    assert(t.subrange(k + 1, t.len() as int) =~= dz);
    assert(t[j] == '-');
    assert(t[k] == '/');
    assert forall|x: int| 6 <= x < j implies t[x] != '-' by {
        assert(t[x] == ds[x - 6]);
        assert(text::is_digit(ds[x - 6]));
    }
    assert forall|x: int| j < x < k implies t[x] != '/' by {
        assert(t[x] == de[x - j - 1]);
        assert(text::is_digit(de[x - j - 1]));
    }
}

/// Only missing or wrong credentials are answered otherwise than "not
/// found": a request without credentials for a private cache gets 401, a
/// requester who may not read it 403, and every other refusal (unknown
/// cache, narinfo or NAR, a malformed path, an unsupported compression)
/// 404, so that Nix treats the path as absent from this cache.
pub proof fn nix_refusal_statuses(e: narinfo::NixError)
    ensures
        (e is AuthenticationRequired) <==> narinfo::nix_error_status(e) == 401,
        (e is AccessDenied) <==> narinfo::nix_error_status(e) == 403,
        !(e is AuthenticationRequired || e is AccessDenied) <==> narinfo::nix_error_status(e) == 404,
{
}

/// The `nix-cache-info` document always ends with the cache's priority
/// line: after `StoreDir` and `WantMassQuery` comes `Priority: ` and then,
/// up to the closing newline, the decimal text of the priority, which
/// reads back as the priority (with a leading `-` when it is negative).
pub proof fn cache_info_has_priority(priority: i64)
    ensures
        ({
            let t = narinfo::cache_info_text(priority);
            let head = "StoreDir: /nix/store\nWantMassQuery: 1\nPriority: "@;
            let v = t.subrange(head.len() as int, t.len() - 1);
            &&& head.len() < t.len()
            &&& t.subrange(0, head.len() as int) == head
            &&& t[t.len() - 1] == '\n'
            &&& priority >= 0 ==> text::spec_parse_u64(v) == Some(priority as u64)
            &&& priority < 0 ==> v.len() >= 2 && v[0] == '-'
                && text::spec_parse_u64(v.drop_first()) == Some((-(priority as int)) as u64)
        }),
{
    reveal_strlit("StoreDir: /nix/store\nWantMassQuery: 1\nPriority: ");
    reveal_strlit("\n");
    let t = narinfo::cache_info_text(priority);
    let head = "StoreDir: /nix/store\nWantMassQuery: 1\nPriority: "@;
    let d = text::dec_signed(priority as int);
    assert(t == head + d + "\n"@);
    assert(t.subrange(0, head.len() as int) =~= head);
    let v = t.subrange(head.len() as int, t.len() - 1);
    assert(v =~= d);
    if priority >= 0 {
        decimal_round_trip(priority as u64);
    } else {
        let m = (-(priority as int)) as u64;
        decimal_round_trip(m);
        lemma_dec_digits(m as nat);
        assert(d.drop_first() =~= text::dec(m as nat));
    }
}

} // verus!
