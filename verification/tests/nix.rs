use hibernation::narinfo::{
    membership_access, narinfo_hash, read_access, render_cache_info, render_nar_info, split_nar_file,
    NarInfoData, NixError, ReadAccess,
};
use hibernation::nixbase32::to_nix_base32;
use hibernation::range::{content_length, content_range, parse_range};

#[test]
fn parses_closed_range() {
    assert_eq!(parse_range("bytes=100-199", 1000), Some((100, 199)));
}

#[test]
fn open_range_runs_to_the_end() {
    assert_eq!(parse_range("bytes=100-", 1000), Some((100, 999)));
    assert_eq!(parse_range("bytes=100", 1000), Some((100, 999)));
    assert_eq!(parse_range("bytes=100-abc", 1000), Some((100, 999)));
}

#[test]
fn range_end_is_clamped() {
    assert_eq!(parse_range("bytes=0-5000", 1000), Some((0, 999)));
}

#[test]
fn range_past_the_end_is_ignored() {
    assert_eq!(parse_range("bytes=1000-1001", 1000), None);
    assert_eq!(parse_range("bytes=999-", 1000), Some((999, 999)));
}

#[test]
fn malformed_ranges_are_ignored() {
    assert_eq!(parse_range("items=0-10", 1000), None);
    assert_eq!(parse_range("bytes=-10", 1000), None);
    assert_eq!(parse_range("bytes=x-10", 1000), None);
    assert_eq!(parse_range("", 1000), None);
    assert_eq!(parse_range("bytes", 0), None);
}

#[test]
fn range_takes_the_first_two_fields() {
    assert_eq!(parse_range("bytes=1-2-3", 1000), Some((1, 2)));
    assert_eq!(parse_range("bytes=+5-+7", 1000), Some((5, 7)));
    assert_eq!(parse_range("bytes=5-3", 1000), Some((5, 3)));
}

#[test]
fn content_range_headers() {
    assert_eq!(content_range(100, 199, 1000), "bytes 100-199/1000");
    assert_eq!(content_length(100, 199), 100);
}

#[test]
fn nix_base32_known_values() {
    assert_eq!(to_nix_base32(&[]), "");
    assert_eq!(to_nix_base32(&[0x00]), "00");
    assert_eq!(to_nix_base32(&[0x01]), "01");
    assert_eq!(
        hibernation::digest::sha256_nix32(b""),
        "0mdqa9w1p6cmli6976v4wi0sw9r4p5prkj7lzfd1877wk11c9c73"
    );
    assert_eq!(to_nix_base32(&[0u8; 32]).len(), 52);
}

#[test]
fn narinfo_paths() {
    assert_eq!(narinfo_hash("abc.narinfo").unwrap(), "abc");
    assert!(matches!(narinfo_hash("abc.nar"), Err(NixError::InvalidNarInfoPath)));
    assert!(matches!(narinfo_hash("narinfo"), Err(NixError::InvalidNarInfoPath)));
    let (h, c) = split_nar_file("abc.nar.zst").unwrap();
    assert_eq!((h.as_str(), c.as_str()), ("abc", "zst"));
    let (h, c) = split_nar_file("a.nar.b.nar.c").unwrap();
    assert_eq!((h.as_str(), c.as_str()), ("a", "b.nar.c"));
    assert!(matches!(split_nar_file("abc.zst"), Err(NixError::InvalidNarPath)));
}

fn data(deriver: Option<&str>, compression: &str) -> NarInfoData {
    NarInfoData {
        store_path: "p0000000000000000000000000000000-hello".to_string(),
        hash: "f1".to_string(),
        compression: compression.to_string(),
        size: 10,
        nar_hash: "n1".to_string(),
        nar_size: 20,
        deriver: deriver.map(|d| d.to_string()),
        signature: "cache:sig".to_string(),
    }
}

#[test]
fn renders_narinfo() {
    let refs = vec!["r1".to_string(), "r2".to_string()];
    let text = render_nar_info(&data(Some("d.drv"), "zst"), &refs).unwrap();
    assert_eq!(
        text,
        "StorePath: /nix/store/p0000000000000000000000000000000-hello\nURL: nar/f1.nar.zst\nCompression: zstd\nFileHash: sha256:f1\nFileSize: 10\nNarHash: sha256:n1\nNarSize: 20\nReferences: r1 r2\nDeriver: d.drv\nSig: cache:sig\n"
    );
    let text = render_nar_info(&data(None, "zst"), &vec![]).unwrap();
    assert_eq!(
        text,
        "StorePath: /nix/store/p0000000000000000000000000000000-hello\nURL: nar/f1.nar.zst\nCompression: zstd\nFileHash: sha256:f1\nFileSize: 10\nNarHash: sha256:n1\nNarSize: 20\nReferences: \nSig: cache:sig\n"
    );
}

#[test]
fn unsupported_compression_is_not_found() {
    let err = render_nar_info(&data(None, "xz"), &vec![]).unwrap_err();
    assert!(matches!(err, NixError::UnsupportedCompression));
    assert_eq!(err.status(), 404);
    assert_eq!(err.message(), "Unsupported compression format");
}

#[test]
fn renders_cache_info() {
    assert_eq!(render_cache_info(40), "StoreDir: /nix/store\nWantMassQuery: 1\nPriority: 40\n");
    assert_eq!(render_cache_info(-3), "StoreDir: /nix/store\nWantMassQuery: 1\nPriority: -3\n");
}

#[test]
fn read_access_rules() {
    assert!(matches!(read_access(true, false), ReadAccess::Granted));
    assert!(matches!(read_access(false, true), ReadAccess::CheckMembership));
    match read_access(false, false) {
        ReadAccess::Refused(e) => assert_eq!(e.status(), 401),
        _ => panic!(),
    }
    assert!(membership_access(true).is_ok());
    let e = membership_access(false).unwrap_err();
    assert_eq!(e.status(), 403);
    assert_eq!(e.message(), "Access denied");
}
