use hibernation::narinfo::{narinfo_hash, split_nar_file};
use hibernation::nixbase32::to_nix_base32;
use hibernation::range::parse_range;
use hibernation::text::{parse_u64, u64_to_decimal};
use hibernation::upload::{eviction_amount, narinfo_file_name};

#[test]
fn written_numbers_read_back() {
    for n in [0u64, 1, 9, 10, 99, 100, 12345, u64::MAX - 1, u64::MAX] {
        assert_eq!(parse_u64(&u64_to_decimal(n)), Some(n));
    }
}

#[test]
fn written_ranges_read_back() {
    for (s, e, size) in [(0u64, 0u64, 1u64), (5, 9, 100), (5, 500, 100), (99, 99, 100), (0, u64::MAX, u64::MAX)] {
        let header = format!("bytes={}-{}", s, e);
        assert_eq!(parse_range(&header, size), Some((s, e.min(size - 1))));
    }
}

#[test]
fn parsed_ranges_lie_inside_the_file() {
    for header in ["bytes=0-", "bytes=3-2", "bytes=7-100", "bytes=9-9", "bytes=10-12"] {
        if let Some((s, e)) = parse_range(header, 10) {
            assert!(s < 10 && e < 10);
        }
    }
}

#[test]
fn narinfo_names_read_back() {
    let path = "0mdqa9w1p6cmli6976v4wi0sw9r4p5pr-hello";
    let name = narinfo_file_name(path).unwrap();
    assert_eq!(narinfo_hash(&name).unwrap(), "0mdqa9w1p6cmli6976v4wi0sw9r4p5pr");
}

#[test]
fn nar_urls_read_back() {
    let hash = to_nix_base32(&[7u8; 32]);
    let (h, c) = split_nar_file(&format!("{}.nar.{}", hash, "zst")).unwrap();
    assert_eq!(h, hash);
    assert_eq!(c, "zst");
}

#[test]
fn eviction_brings_the_cache_to_its_quota() {
    for (quota, size, file) in [(100i64, 80i64, 50u64), (1000, 999, 1), (10, 0, 10), (50, 60, 5)] {
        match eviction_amount(quota, size, file).unwrap() {
            Some(d) => assert_eq!(size + file as i64 - d, quota),
            None => assert!(size + file as i64 <= quota),
        }
    }
}
