use sha2::Digest;
use hibernation::digest::sha256_nix32;
use hibernation::nar::{NarHasher, NarUpload, StoreError};

fn nar() -> Vec<u8> {
    (0..200_000u32).flat_map(|i| (i % 251).to_le_bytes()).collect()
}

/// Nix base-32, written out here independently of the library.
fn reference_nix32(bytes: &[u8]) -> String {
    const ALPHABET: &[u8] = b"0123456789abcdfghijklmnpqrsvwxyz";
    let len = (bytes.len() * 8 + 4) / 5;
    let mut out = String::new();
    for n in (0..len).rev() {
        let b = n * 5;
        let i = b / 8;
        let j = b % 8;
        let lo = (bytes[i] as u32) >> j;
        let hi = if i + 1 < bytes.len() { (bytes[i + 1] as u32) << (8 - j) } else { 0 };
        out.push(ALPHABET[((lo | hi) & 0x1f) as usize] as char);
    }
    out
}

fn hash(data: &[u8]) -> String {
    reference_nix32(&sha2::Sha256::digest(data))
}

#[test]
fn library_hash_agrees_with_reference() {
    for data in [&b""[..], b"abc", b"other", &nar()[..1000]] {
        assert_eq!(sha256_nix32(data), hash(data));
    }
}

/// Streams `file` through the upload check the way the server reads a
/// request body: at most the read limit, in chunks.
fn store_nar(file: &[u8], quota: u64, nar_hash: &str, nar_size: u64) -> Result<(String, u64), StoreError> {
    let mut upload = NarUpload::new(quota, nar_size).unwrap();
    let limit = upload.read_limit();
    let take = std::cmp::min(file.len() as u64, limit) as usize;
    for chunk in file[..take].chunks(8192) {
        upload.feed(chunk);
    }
    upload.flush();
    upload.finish(nar_hash)
}

fn assert_rejected(file: &[u8], quota: u64, nar_hash: &str, nar_size: u64) {
    let res = store_nar(file, quota, nar_hash, nar_size);
    assert!(res.is_err());
}

#[test]
fn stores_valid_nar() {
    let nar = nar();
    let file = zstd::encode_all(&nar[..], 3).unwrap();
    let (file_hash, file_size) = store_nar(&file, u64::MAX, &hash(&nar), nar.len() as u64).unwrap();
    assert_eq!(file_hash, hash(&file));
    assert_eq!(file_size, file.len() as u64);
}

#[test]
fn rejects_over_quota() {
    let nar = nar();
    let file = zstd::encode_all(&nar[..], 3).unwrap();
    assert_rejected(&file, file.len() as u64 - 1, &hash(&nar), nar.len() as u64);
    let res = store_nar(&file, file.len() as u64 - 1, &hash(&nar), nar.len() as u64);
    assert!(matches!(res, Err(StoreError::OverQuota)));
}

#[test]
fn accepts_exactly_quota() {
    let nar = nar();
    let file = zstd::encode_all(&nar[..], 3).unwrap();
    let res = store_nar(&file, file.len() as u64, &hash(&nar), nar.len() as u64);
    assert!(res.is_ok());
}

#[test]
fn rejects_invalid_zstd() {
    let nar = nar();
    assert_rejected(&nar, u64::MAX, &hash(&nar), nar.len() as u64);
    let res = store_nar(&nar, u64::MAX, &hash(&nar), nar.len() as u64);
    assert!(matches!(res, Err(StoreError::Decompress(_))));
}

#[test]
fn rejects_truncated_zstd() {
    let nar = nar();
    let file = zstd::encode_all(&nar[..], 3).unwrap();
    assert_rejected(&file[..file.len() / 2], u64::MAX, &hash(&nar), nar.len() as u64);
    let res = store_nar(&file[..file.len() / 2], u64::MAX, &hash(&nar), nar.len() as u64);
    assert!(matches!(res, Err(StoreError::Mismatch)));
}

#[test]
fn rejects_hash_mismatch() {
    let nar = nar();
    let file = zstd::encode_all(&nar[..], 3).unwrap();
    assert_rejected(&file, u64::MAX, &hash(b"other"), nar.len() as u64);
    let res = store_nar(&file, u64::MAX, &hash(b"other"), nar.len() as u64);
    assert!(matches!(res, Err(StoreError::Mismatch)));
}

#[test]
fn rejects_larger_than_declared_size() {
    let nar = nar();
    let file = zstd::encode_all(&nar[..], 3).unwrap();
    assert_rejected(&file, u64::MAX, &hash(&nar), nar.len() as u64 - 1);
    let res = store_nar(&file, u64::MAX, &hash(&nar), nar.len() as u64 - 1);
    match res {
        Err(e @ StoreError::Decompress(_)) => {
            assert_eq!(e.message(), "Failed to decompress NAR: Decompressed NAR exceeds declared size");
        }
        other => panic!("unexpected {:?}", other),
    }
}

#[test]
fn rejects_smaller_than_declared_size() {
    let nar = nar();
    let file = zstd::encode_all(&nar[..], 3).unwrap();
    assert_rejected(&file, u64::MAX, &hash(&nar), nar.len() as u64 + 1);
    let res = store_nar(&file, u64::MAX, &hash(&nar), nar.len() as u64 + 1);
    assert!(matches!(res, Err(StoreError::Mismatch)));
}

#[test]
fn accepts_concatenated_frames() {
    let nar = nar();
    let (a, b) = nar.split_at(100_000);
    let mut file = zstd::encode_all(a, 3).unwrap();
    file.extend(zstd::encode_all(b, 3).unwrap());
    let (file_hash, file_size) = store_nar(&file, u64::MAX, &hash(&nar), nar.len() as u64).unwrap();
    assert_eq!(file_hash, hash(&file));
    assert_eq!(file_size, file.len() as u64);
}

#[test]
fn read_limit_is_one_past_quota() {
    assert_eq!(NarUpload::new(10, 0).unwrap().read_limit(), 11);
    assert_eq!(NarUpload::new(u64::MAX, 0).unwrap().read_limit(), u64::MAX);
}

#[test]
fn store_error_messages() {
    assert_eq!(StoreError::OverQuota.message(), "File size exceeds cache quota");
    assert_eq!(StoreError::Mismatch.message(), "NAR hash or size mismatch");
    assert_eq!(
        StoreError::Decompress("boom".to_string()).message(),
        "Failed to decompress NAR: boom"
    );
}

#[test]
fn nar_hasher_refuses_more_than_declared() {
    let mut h = NarHasher::new(4);
    assert_eq!(h.write(b"abc").unwrap(), 3);
    assert!(h.write(b"de").is_err());
    let mut h = NarHasher::new(5);
    h.write(b"abc").unwrap();
    h.write(b"de").unwrap();
    let (digest, size) = h.into_digest();
    assert_eq!(size, 5);
    assert_eq!(hibernation::nixbase32::to_nix_base32(&digest), hash(b"abcde"));
}

#[test]
fn empty_chunks_change_nothing() {
    let nar = nar();
    let file = zstd::encode_all(&nar[..], 3).unwrap();
    let mut upload = NarUpload::new(u64::MAX, nar.len() as u64).unwrap();
    upload.feed(&[]);
    for chunk in file.chunks(4096) {
        upload.feed(&[]);
        upload.feed(chunk);
    }
    upload.feed(&[]);
    upload.flush();
    assert_eq!(upload.finish(&hash(&nar)).unwrap(), (hash(&file), file.len() as u64));
}
