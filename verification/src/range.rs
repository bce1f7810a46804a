//! HTTP `Range` requests on stored NAR files: which bytes a request asks
//! for, and the headers that describe a partial answer.
use vstd::prelude::*;
use crate::text;

verus! {

/// `bytes=`, the only range unit that is served.
pub open spec fn bytes_unit() -> Seq<char> {
    seq!['b', 'y', 't', 'e', 's', '=']
}

/// The index of the first `-` in `s` at or after `from`, or `s.len()`.
pub open spec fn dash_or_end(s: Seq<char>, from: int) -> int
    decreases s.len() - from,
{
    if from >= s.len() {
        s.len() as int
    } else if s[from] == '-' {
        from
    } else {
        dash_or_end(s, from + 1)
    }
}

/// What follows `bytes=` in a range header.
pub open spec fn range_spec_of(r: Seq<char>) -> Seq<char> {
    r.subrange(6, r.len() as int)
}

/// The first position of a range request, if the header names one:
/// the header starts with `bytes=` and the text before the first `-`
/// parses as a number.
pub open spec fn spec_range_start(r: Seq<char>) -> Option<u64> {
    if text::has_prefix(r, bytes_unit()) {
        let rest = range_spec_of(r);
        text::spec_parse_u64(rest.subrange(0, dash_or_end(rest, 0)))
    } else {
        None
    }
}

/// The last position that the header asks for: the text between the first
/// and the second `-` if it parses as a number, else the last byte of the file.
pub open spec fn spec_range_end(r: Seq<char>, file_size: u64) -> u64 {
    let rest = range_spec_of(r);
    let e = dash_or_end(rest, 0);
    if e < rest.len() {
        match text::spec_parse_u64(rest.subrange(e + 1, dash_or_end(rest, e + 1))) {
            Some(v) => v,
            None => (file_size - 1) as u64,
        }
    } else {
        (file_size - 1) as u64
    }
}

/// The inclusive byte range that a `Range` header selects in a file of
/// `file_size` bytes: `None` when the header is not understood or starts at
/// or past the end of the file; the end is clamped to the last byte.
pub open spec fn spec_parse_range(r: Seq<char>, file_size: u64) -> Option<(u64, u64)> {
    match spec_range_start(r) {
        None => None,
        Some(start) => if start < file_size {
            let end = spec_range_end(r, file_size);
            Some((start, if end < file_size - 1 { end } else { (file_size - 1) as u64 }))
        } else {
            None
        },
    }
}

fn dash_index(cs: &Vec<char>, from: usize) -> (r: usize)
    requires
        from <= cs@.len(),
    ensures
        r as int == dash_or_end(cs@, from as int),
        from <= r <= cs@.len(),
{
    let mut i = from;
    while i < cs.len()
        invariant
            from <= i <= cs@.len(),
            dash_or_end(cs@, from as int) == dash_or_end(cs@, i as int),
        decreases cs@.len() - i,
    {
        if cs[i] == '-' {
            return i;
        }
        i = i + 1;
    }
    i
}

proof fn lemma_dash_or_end_shift(s: Seq<char>, k: int, from: int)
    requires
        0 <= k <= s.len(),
        0 <= from <= s.len() - k,
    ensures
        dash_or_end(s.subrange(k, s.len() as int), from) == dash_or_end(s, from + k) - k,
    decreases s.len() - k - from,
{
    let t = s.subrange(k, s.len() as int);
    if from < t.len() && t[from] != '-' {
        lemma_dash_or_end_shift(s, k, from + 1);
    }
}

/// Parses a `Range` header such as `bytes=100-199` against a file of
/// `file_size` bytes. A missing or unreadable end means "to the end of the
/// file"; an end past the file is clamped to its last byte.
pub fn parse_range(range: &str, file_size: u64) -> (r: Option<(u64, u64)>)
    requires
        file_size > 0 || spec_range_start(range@) is None,
    ensures
        r == spec_parse_range(range@, file_size),
{
    let cs = text::chars_of(range);
    let unit = vec!['b', 'y', 't', 'e', 's', '='];
    if cs.len() < 6 {
        return None;
    }
    let mut i: usize = 0;
    while i < 6
        invariant
            i <= 6,
            cs@.len() >= 6,
            cs@ == range@,
            unit@ == bytes_unit(),
            forall|j: int| 0 <= j < i ==> cs@[j] == unit@[j],
        decreases 6 - i,
    {
        if cs[i] != unit[i] {
            assert(cs@.subrange(0, 6)[i as int] != bytes_unit()[i as int]);
            assert(cs@.subrange(0, 6) != bytes_unit());
            assert(!text::has_prefix(range@, bytes_unit()));
            return None;
        }
        i = i + 1;
    }
    assert(cs@.subrange(0, 6) =~= bytes_unit());
    let ghost rest = range_spec_of(cs@);
    let e = dash_index(&cs, 6);
    proof {
        lemma_dash_or_end_shift(cs@, 6, 0);
    }
    assert(cs@.subrange(6, e as int) =~= rest.subrange(0, dash_or_end(rest, 0)));
    let start = match text::parse_u64_chars(&cs, 6, e) {
        None => return None,
        Some(v) => v,
    };
    assert(file_size > 0);
    let end = if e < cs.len() {
        let e2 = dash_index(&cs, e + 1);
        proof {
            lemma_dash_or_end_shift(cs@, 6, (e + 1 - 6) as int);
        }
        assert(cs@.subrange(e + 1, e2 as int) =~= rest.subrange(
            (e - 6) + 1,
            dash_or_end(rest, (e - 6) + 1),
        ));
        match text::parse_u64_chars(&cs, e + 1, e2) {
            Some(v) => v,
            None => file_size - 1,
        }
    } else {
        file_size - 1
    };
    if start < file_size {
        let last = file_size - 1;
        Some((start, if end < last { end } else { last }))
    } else {
        None
    }
}

/// `bytes <start>-<end>/<size>`, the `Content-Range` of a partial answer.
pub open spec fn content_range_text(start: u64, end: u64, file_size: u64) -> Seq<char> {
    "bytes "@ + text::dec(start as nat) + "-"@ + text::dec(end as nat) + "/"@ + text::dec(file_size as nat)
}

/// The `Content-Range` header value for the bytes `start..=end` of a file
/// of `file_size` bytes.
pub fn content_range(start: u64, end: u64, file_size: u64) -> (r: String)
    ensures
        r@ == content_range_text(start, end, file_size),
{
    let mut r = String::new();
    text::append_str(&mut r, "bytes ");
    let s = text::u64_to_decimal(start);
    text::append_str(&mut r, s.as_str());
    text::append_str(&mut r, "-");
    let e = text::u64_to_decimal(end);
    text::append_str(&mut r, e.as_str());
    text::append_str(&mut r, "/");
    let f = text::u64_to_decimal(file_size);
    text::append_str(&mut r, f.as_str());
    assert(r@ =~= content_range_text(start, end, file_size));
    r
}

/// The number of bytes in `start..=end`, the `Content-Length` of a partial
/// answer.
pub fn content_length(start: u64, end: u64) -> (r: u64)
    requires
        start <= end < u64::MAX,
    ensures
        r == end - start + 1,
{
    end - start + 1
}

} // verus!
