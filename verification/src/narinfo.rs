//! The Nix binary cache protocol as the cache serves it: the
//! `nix-cache-info` and `.narinfo` documents, the request paths they are
//! fetched under, and who may read a cache.
use vstd::prelude::*;
use crate::text;

verus! {

/// Why a binary cache request is refused.
#[derive(Debug)]
pub enum NixError {
    /// The narinfo path does not end in `.narinfo`.
    InvalidNarInfoPath,
    /// The NAR path is not `<hash>.nar.<compression>`.
    InvalidNarPath,
    /// No cache has the requested name.
    CacheNotFound,
    /// The cache has no such narinfo.
    NarInfoNotFound,
    /// The cache has no such NAR.
    NarNotFound,
    /// The stored NAR uses a compression the protocol cannot announce.
    UnsupportedCompression,
    /// A private cache was asked for without credentials.
    AuthenticationRequired,
    /// The requester may not read the private cache.
    AccessDenied,
}

/// The HTTP status of a refusal.
pub open spec fn nix_error_status(e: NixError) -> u16 {
    match e {
        NixError::AuthenticationRequired => 401,
        NixError::AccessDenied => 403,
        _ => 404,
    }
}

/// The message of a refusal.
pub open spec fn nix_error_text(e: NixError) -> Seq<char> {
    match e {
        NixError::InvalidNarInfoPath => "Invalid narinfo path"@,
        NixError::InvalidNarPath => "Invalid nar path"@,
        NixError::CacheNotFound => "Cache not found"@,
        NixError::NarInfoNotFound => "Narinfo not found"@,
        NixError::NarNotFound => "Nar not found"@,
        NixError::UnsupportedCompression => "Unsupported compression format"@,
        NixError::AuthenticationRequired => "Authentication required"@,
        NixError::AccessDenied => "Access denied"@,
    }
}

impl NixError {
    /// The HTTP status code the refusal is answered with.
    pub fn status(&self) -> (r: u16)
        ensures
            r == nix_error_status(*self),
    {
        match self {
            NixError::AuthenticationRequired => 401,
            NixError::AccessDenied => 403,
            _ => 404,
        }
    }

    /// The message the refusal is answered with.
    pub fn message(&self) -> (r: String)
        ensures
            r@ == nix_error_text(*self),
    {
        match self {
            NixError::InvalidNarInfoPath => String::from_str("Invalid narinfo path"),
            NixError::InvalidNarPath => String::from_str("Invalid nar path"),
            NixError::CacheNotFound => String::from_str("Cache not found"),
            NixError::NarInfoNotFound => String::from_str("Narinfo not found"),
            NixError::NarNotFound => String::from_str("Nar not found"),
            NixError::UnsupportedCompression => String::from_str("Unsupported compression format"),
            NixError::AuthenticationRequired => String::from_str("Authentication required"),
            NixError::AccessDenied => String::from_str("Access denied"),
        }
    }
}

/// `.narinfo`.
pub open spec fn narinfo_ext() -> Seq<char> {
    seq!['.', 'n', 'a', 'r', 'i', 'n', 'f', 'o']
}

/// `.nar.`.
pub open spec fn nar_sep() -> Seq<char> {
    seq!['.', 'n', 'a', 'r', '.']
}

/// The store path hash that a narinfo request names: the path without its
/// `.narinfo` suffix.
pub fn narinfo_hash(path: &str) -> (r: Result<String, NixError>)
    ensures
        match r {
            Ok(h) => text::has_suffix(path@, narinfo_ext())
                && h@ == path@.subrange(0, path@.len() - narinfo_ext().len()),
            Err(e) => !text::has_suffix(path@, narinfo_ext()) && e == NixError::InvalidNarInfoPath,
        },
{
    let cs = text::chars_of(path);
    let ext = vec!['.', 'n', 'a', 'r', 'i', 'n', 'f', 'o'];
    assert(ext@ =~= narinfo_ext());
    if !text::ends_with(&cs, &ext) {
        return Err(NixError::InvalidNarInfoPath);
    }
    Ok(text::string_of(&cs, 0, cs.len() - ext.len()))
}

/// The file hash and the compression that a NAR request names: the parts
/// before and after the first `.nar.` of `<hash>.nar.<compression>`.
pub fn split_nar_file(file: &str) -> (r: Result<(String, String), NixError>)
    ensures
        match r {
            Ok((h, c)) => match text::first_occurrence(file@, nar_sep()) {
                Some(i) => h@ == file@.subrange(0, i) && c@ == file@.subrange(i + 5, file@.len() as int),
                None => false,
            },
            Err(e) => text::first_occurrence(file@, nar_sep()) is None && e == NixError::InvalidNarPath,
        },
{
    let cs = text::chars_of(file);
    let sep = vec!['.', 'n', 'a', 'r', '.'];
    assert(sep@ =~= nar_sep());
    let found = text::find(&cs, &sep);
    assert(cs@ == file@);
    match found {
        None => Err(NixError::InvalidNarPath),
        Some(i) => {
            assert(text::occurs_at(cs@, sep@, i as int));
            assert(sep@.len() == 5);
            let n = cs.len();
            assert(i + 5 <= n);
            let h = text::string_of(&cs, 0, i);
            let c = text::string_of(&cs, i + 5, n);
            Ok((h, c))
        },
    }
}

/// The `Compression` value announced for a stored file extension: only
/// zstd (`zst`) is served.
pub open spec fn compression_name(ext: Seq<char>) -> Option<Seq<char>> {
    if ext == "zst"@ {
        Some("zstd"@)
    } else {
        None
    }
}

/// What the cache knows of one store path, as a narinfo describes it.
pub struct NarInfoData {
    /// The store path in base form.
    pub store_path: String,
    /// Nix base-32 SHA-256 of the compressed file.
    pub hash: String,
    /// File extension of the compression (`zst`).
    pub compression: String,
    /// Size of the compressed file.
    pub size: i64,
    /// Nix base-32 SHA-256 of the NAR.
    pub nar_hash: String,
    /// Size of the NAR.
    pub nar_size: i64,
    /// The derivation that built the path, if known.
    pub deriver: Option<String>,
    /// The signature of the path.
    pub signature: String,
}

/// The narinfo document of `d`, whose references are `refs`, announcing
/// the compression `comp`.
pub open spec fn nar_info_text(d: NarInfoData, refs: Seq<Seq<char>>, comp: Seq<char>) -> Seq<char> {
    "StorePath: /nix/store/"@ + d.store_path@
    + "\nURL: nar/"@ + d.hash@ + ".nar."@ + d.compression@
    + "\nCompression: "@ + comp
    + "\nFileHash: sha256:"@ + d.hash@
    + "\nFileSize: "@ + text::dec_signed(d.size as int)
    + "\nNarHash: sha256:"@ + d.nar_hash@
    + "\nNarSize: "@ + text::dec_signed(d.nar_size as int)
    + "\nReferences: "@ + text::join(refs, " "@)
    + match d.deriver {
        Some(p) => "\nDeriver: "@ + p@,
        None => Seq::<char>::empty(),
    }
    + "\nSig: "@ + d.signature@
    + "\n"@
}

fn zst_ext(ext: &String) -> (r: bool)
    ensures
        r == (ext@ == "zst"@),
{
    let zst = String::from_str("zst");
    *ext == zst
}

/// Writes the narinfo document of `data`, whose references are
/// `references`; refused when the file's compression cannot be announced.
pub fn render_nar_info(data: &NarInfoData, references: &Vec<String>) -> (r: Result<String, NixError>)
    ensures
        match r {
            Ok(t) => compression_name(data.compression@) matches Some(c)
                && t@ == nar_info_text(*data, text::texts(references@), c),
            Err(e) => compression_name(data.compression@) is None && e == NixError::UnsupportedCompression,
        },
{
    if !zst_ext(&data.compression) {
        return Err(NixError::UnsupportedCompression);
    }
    let mut t = String::from_str("StorePath: /nix/store/");
    text::append_str(&mut t, data.store_path.as_str());
    text::append_str(&mut t, "\nURL: nar/");
    text::append_str(&mut t, data.hash.as_str());
    text::append_str(&mut t, ".nar.");
    text::append_str(&mut t, data.compression.as_str());
    text::append_str(&mut t, "\nCompression: ");
    text::append_str(&mut t, "zstd");
    text::append_str(&mut t, "\nFileHash: sha256:");
    text::append_str(&mut t, data.hash.as_str());
    text::append_str(&mut t, "\nFileSize: ");
    let size = text::i64_to_decimal(data.size);
    text::append_str(&mut t, size.as_str());
    text::append_str(&mut t, "\nNarHash: sha256:");
    text::append_str(&mut t, data.nar_hash.as_str());
    text::append_str(&mut t, "\nNarSize: ");
    let nar_size = text::i64_to_decimal(data.nar_size);
    text::append_str(&mut t, nar_size.as_str());
    text::append_str(&mut t, "\nReferences: ");
    let refs = text::join_strings(references, " ");
    text::append_str(&mut t, refs.as_str());
    match &data.deriver {
        Some(p) => {
            text::append_str(&mut t, "\nDeriver: ");
            text::append_str(&mut t, p.as_str());
        },
        None => {},
    }
    text::append_str(&mut t, "\nSig: ");
    text::append_str(&mut t, data.signature.as_str());
    text::append_str(&mut t, "\n");
    assert(t@ =~= nar_info_text(*data, text::texts(references@), "zstd"@));
    Ok(t)
}

/// The `nix-cache-info` document of a cache with the given priority.
pub open spec fn cache_info_text(priority: i64) -> Seq<char> {
    "StoreDir: /nix/store\nWantMassQuery: 1\nPriority: "@ + text::dec_signed(priority as int) + "\n"@
}

/// Writes the `nix-cache-info` document of a cache with the given priority.
pub fn render_cache_info(priority: i64) -> (r: String)
    ensures
        r@ == cache_info_text(priority),
{
    let mut t = String::from_str("StoreDir: /nix/store\nWantMassQuery: 1\nPriority: ");
    let p = text::i64_to_decimal(priority);
    text::append_str(&mut t, p.as_str());
    text::append_str(&mut t, "\n");
    assert(t@ =~= cache_info_text(priority));
    t
}

/// What happens next when a cache is read.
#[derive(Debug)]
pub enum ReadAccess {
    /// The cache may be read.
    Granted,
    /// The requester's membership of the cache must be looked up.
    CheckMembership,
    /// The request is refused.
    Refused(NixError),
}

/// The Unicode lowercase form of `s`, as Rust's `str::to_lowercase` makes it.
pub uninterp spec fn lowercase(s: Seq<char>) -> Seq<char>;

/// `str::to_lowercase`: the Unicode lowercase form of `s`.
#[verifier::external_body]
fn to_lowercase(s: &str) -> (r: String)
    ensures
        r@ == lowercase(s@),
{
    s.to_lowercase()
}

/// The name a cache is looked up (and remembered) under: cache names are
/// matched without regard to case.
pub fn cache_lookup_name(name: &str) -> (r: String)
    ensures
        r@ == lowercase(name@),
{
    to_lowercase(name)
}

/// The first access decision on a cache: public caches are open to all,
/// private ones need credentials and then a membership.
pub fn read_access(public: bool, authenticated: bool) -> (r: ReadAccess)
    ensures
        public ==> r == ReadAccess::Granted,
        !public && authenticated ==> r == ReadAccess::CheckMembership,
        !public && !authenticated ==> r == ReadAccess::Refused(NixError::AuthenticationRequired),
{
    if public {
        ReadAccess::Granted
    } else if !authenticated {
        ReadAccess::Refused(NixError::AuthenticationRequired)
    } else {
        ReadAccess::CheckMembership
    }
}

/// The access decision once the membership is known.
pub fn membership_access(allowed: bool) -> (r: Result<(), NixError>)
    ensures
        allowed <==> r is Ok,
        !allowed ==> r == Err::<(), NixError>(NixError::AccessDenied),
{
    if allowed {
        Ok(())
    } else {
        Err(NixError::AccessDenied)
    }
}

} // verus!
