//! The rules of a push: which requests are accepted, which paths still
//! have to be sent, how an upload session is confirmed, and how much of a
//! cache must be evicted to make room.
use vstd::prelude::*;
use crate::api::{UploadFinishRequest, UploadInfoRequest, UploadPathRequest};
use crate::store_path;
use crate::text;

verus! {

/// Why a push request is refused.
#[derive(Debug)]
pub enum PushError {
    /// Some path of an info request is not a store path.
    InvalidStorePaths,
    /// The announced path is not a store path.
    InvalidStorePath,
    /// Some reference of the announced path is not a store path.
    InvalidReferences,
    /// The cache does not allow forced pushes.
    ForcePushNotAllowed,
    /// The cache already holds every path.
    AllPresent,
    /// The downstream caches hold every path that the cache lacks.
    AllPresentDownstream,
    /// The file that was received is not the one the client confirms.
    FileMismatch,
    /// The file alone is larger than the cache's quota.
    OverQuota,
}

/// The message a refusal is reported with.
pub open spec fn push_error_text(e: PushError) -> Seq<char> {
    match e {
        PushError::InvalidStorePaths => "One or more invalid store paths"@,
        PushError::InvalidStorePath => "Invalid store path format"@,
        PushError::InvalidReferences => "One or more invalid reference store paths"@,
        PushError::ForcePushNotAllowed => "Force push is not allowed for this cache"@,
        PushError::AllPresent => "All paths are already present in the cache"@,
        PushError::AllPresentDownstream => "All paths are already present in the downstream cache"@,
        PushError::FileMismatch => "File hash or size mismatch"@,
        PushError::OverQuota => "File size exceeds cache quota"@,
    }
}

/// The push endpoints, whose refusals carry their own HTTP statuses.
pub enum PushEndpoint {
    /// Which paths a cache lacks.
    Info,
    /// Announcing one store path.
    Path,
    /// Confirming an upload.
    Finish,
}

/// The HTTP status a refusal is answered with at `endpoint`; `None` where
/// the refusal carries no status of its own and the error type's default
/// applies.
pub open spec fn push_error_status(e: PushError, endpoint: PushEndpoint) -> Option<u16> {
    match endpoint {
        PushEndpoint::Info => match e {
            PushError::InvalidStorePaths => Some(422u16),
            PushError::ForcePushNotAllowed => Some(406u16),
            PushError::AllPresent => Some(204u16),
            PushError::AllPresentDownstream => Some(204u16),
            _ => None,
        },
        PushEndpoint::Path => match e {
            PushError::InvalidStorePath => Some(422u16),
            PushError::InvalidReferences => Some(422u16),
            _ => None,
        },
        PushEndpoint::Finish => None,
    }
}

impl PushError {
    /// The HTTP status the refusal is answered with at `endpoint`.
    pub fn status(&self, endpoint: PushEndpoint) -> (r: Option<u16>)
        ensures
            r == push_error_status(*self, endpoint),
    {
        match endpoint {
            PushEndpoint::Info => match self {
                PushError::InvalidStorePaths => Some(422),
                PushError::ForcePushNotAllowed => Some(406),
                PushError::AllPresent => Some(204),
                PushError::AllPresentDownstream => Some(204),
                _ => None,
            },
            PushEndpoint::Path => match self {
                PushError::InvalidStorePath => Some(422),
                PushError::InvalidReferences => Some(422),
                _ => None,
            },
            PushEndpoint::Finish => None,
        }
    }

    /// The message the refusal is reported with.
    pub fn message(&self) -> (r: String)
        ensures
            r@ == push_error_text(*self),
    {
        match self {
            PushError::InvalidStorePaths => String::from_str("One or more invalid store paths"),
            PushError::InvalidStorePath => String::from_str("Invalid store path format"),
            PushError::InvalidReferences => String::from_str("One or more invalid reference store paths"),
            PushError::ForcePushNotAllowed => String::from_str("Force push is not allowed for this cache"),
            PushError::AllPresent => String::from_str("All paths are already present in the cache"),
            PushError::AllPresentDownstream => String::from_str("All paths are already present in the downstream cache"),
            PushError::FileMismatch => String::from_str("File hash or size mismatch"),
            PushError::OverQuota => String::from_str("File size exceeds cache quota"),
        }
    }
}

/// Accepts an info request only if every path is a store path.
pub fn check_info_request(req: &UploadInfoRequest) -> (r: Result<(), PushError>)
    ensures
        r is Ok <==> forall|i: int| 0 <= i < req.paths@.len() ==> store_path::is_store_path(#[trigger] req.paths@[i]@),
        r matches Err(e) ==> e == PushError::InvalidStorePaths,
{
    if store_path::all_store_paths(&req.paths) {
        Ok(())
    } else {
        Err(PushError::InvalidStorePaths)
    }
}

/// A forced push is only accepted by caches that allow it.
pub fn check_force(allow_force_push: bool, force: bool) -> (r: Result<(), PushError>)
    ensures
        r is Ok <==> (allow_force_push || !force),
        r matches Err(e) ==> e == PushError::ForcePushNotAllowed,
{
    if !allow_force_push && force {
        Err(PushError::ForcePushNotAllowed)
    } else {
        Ok(())
    }
}

/// What an info request does once it knows which paths the cache lacks.
#[derive(Debug)]
pub enum InfoStep {
    /// Answer with these paths.
    Answer(Vec<String>),
    /// Ask the downstream caches about these paths first.
    AskDownstream(Vec<String>),
}

/// Nothing to push when the cache holds every path; a forced push answers
/// at once; otherwise the downstream caches are asked.
pub fn info_after_lookup(missing: Vec<String>, force: bool) -> (r: Result<InfoStep, PushError>)
    ensures
        missing@.len() == 0 ==> r == Err::<InfoStep, PushError>(PushError::AllPresent),
        missing@.len() > 0 && force ==> r == Ok::<InfoStep, PushError>(InfoStep::Answer(missing)),
        missing@.len() > 0 && !force ==> r == Ok::<InfoStep, PushError>(InfoStep::AskDownstream(missing)),
{
    if missing.len() == 0 {
        Err(PushError::AllPresent)
    } else if force {
        Ok(InfoStep::Answer(missing))
    } else {
        Ok(InfoStep::AskDownstream(missing))
    }
}

/// The paths of `results` that a downstream cache reported missing; a
/// lookup that failed (`None`) drops its path.
pub open spec fn still_missing(results: Seq<Option<(bool, String)>>) -> Seq<String>
    decreases results.len(),
{
    if results.len() == 0 {
        Seq::empty()
    } else {
        let rest = still_missing(results.drop_last());
        match results.last() {
            Some((false, p)) => rest.push(p),
            _ => rest,
        }
    }
}

/// After asking one downstream cache: the paths it lacks, or the end of the
/// push when it holds them all.
pub fn after_downstream(results: Vec<Option<(bool, String)>>) -> (r: Result<Vec<String>, PushError>)
    ensures
        match r {
            Ok(v) => v@ == still_missing(results@) && v@.len() > 0,
            Err(e) => still_missing(results@).len() == 0 && e == PushError::AllPresentDownstream,
        },
{
    let mut remaining: Vec<String> = Vec::new();
    let n = results.len();
    let ghost all = results@;
    let mut i: usize = 0;
    while i < n
        invariant
            n == all.len(),
            all == results@,
            i <= n,
            remaining@ == still_missing(all.subrange(0, i as int)),
        decreases n - i,
    {
        let ghost pre = all.subrange(0, i as int);
        assert(all.subrange(0, i + 1).drop_last() =~= pre);
        match &results[i] {
            Some((false, p)) => {
                remaining.push(p.clone());
            },
            _ => {},
        }
        i = i + 1;
    }
    assert(all.subrange(0, n as int) =~= all);
    if remaining.len() == 0 {
        Err(PushError::AllPresentDownstream)
    } else {
        Ok(remaining)
    }
}

/// `<hash>.narinfo`, the file under which a cache serves the store path
/// whose hash part is `hash`.
pub open spec fn narinfo_file(hash: Seq<char>) -> Seq<char> {
    hash + ".narinfo"@
}

/// The narinfo file name of a store path, or `None` when `path` is not a
/// store path.
pub fn narinfo_file_name(path: &str) -> (r: Option<String>)
    ensures
        r is Some <==> store_path::is_store_path(path@),
        r matches Some(f) ==> f@ == narinfo_file(path@.subrange(0, store_path::HASH_LEN as int)),
{
    match store_path::parse_store_path_hash(path) {
        None => None,
        Some(h) => {
            let mut f = h;
            text::append_str(&mut f, ".narinfo");
            Some(f)
        },
    }
}

/// Accepts the announcement of a path only if it and all its references
/// are store paths; gives the hash part of the path.
pub fn check_path_request(req: &UploadPathRequest) -> (r: Result<String, PushError>)
    ensures
        match r {
            Ok(h) => store_path::is_store_path(req.store_path@)
                && (forall|i: int| 0 <= i < req.references@.len() ==> store_path::is_store_path(#[trigger] req.references@[i]@))
                && h@ == req.store_path@.subrange(0, store_path::HASH_LEN as int),
            Err(e) => if !store_path::is_store_path(req.store_path@) {
                e == PushError::InvalidStorePath
            } else {
                e == PushError::InvalidReferences
                    && !(forall|i: int| 0 <= i < req.references@.len() ==> store_path::is_store_path(#[trigger] req.references@[i]@))
            },
        },
{
    let hash = match store_path::parse_store_path_hash(req.store_path.as_str()) {
        None => return Err(PushError::InvalidStorePath),
        Some(h) => h,
    };
    if !store_path::all_store_paths(&req.references) {
        return Err(PushError::InvalidReferences);
    }
    Ok(hash)
}

/// What is kept of an upload between receiving its NAR and its confirmation.
pub struct UploadFinishData {
    pub cache: uuid::Uuid,
    pub store_path: String,
    pub store_path_hash: String,
    pub nar_hash: String,
    pub nar_size: u64,
    pub file_hash: String,
    pub file_size: u64,
    pub deriver: Option<String>,
    pub references: Vec<String>,
    pub signature: String,
    pub nar_id: uuid::Uuid,
    /// The cache already held this NAR, so no file was stored.
    pub nar_found: bool,
}

/// What an upload session records once its NAR is in: the announced path,
/// and the NAR and file as they were stored (or found).
pub fn finish_data(
    info: UploadPathRequest,
    nar_id: uuid::Uuid,
    nar_hash: String,
    nar_size: u64,
    file_hash: String,
    file_size: u64,
    nar_found: bool,
) -> (r: UploadFinishData)
    requires
        store_path::is_store_path(info.store_path@),
    ensures
        r.cache == info.cache,
        r.store_path == info.store_path,
        r.store_path_hash@ == info.store_path@.subrange(0, store_path::HASH_LEN as int),
        r.nar_hash == nar_hash,
        r.nar_size == nar_size,
        r.file_hash == file_hash,
        r.file_size == file_size,
        r.deriver == info.deriver,
        r.references == info.references,
        r.signature == info.signature,
        r.nar_id == nar_id,
        r.nar_found == nar_found,
{
    let hash = match store_path::parse_store_path_hash(info.store_path.as_str()) {
        Some(h) => h,
        None => String::new(),
    };
    UploadFinishData {
        cache: info.cache,
        store_path: info.store_path,
        store_path_hash: hash,
        nar_hash,
        nar_size,
        file_hash,
        file_size,
        deriver: info.deriver,
        references: info.references,
        signature: info.signature,
        nar_id,
        nar_found,
    }
}

/// A confirmation must name the file that was received, unless the NAR was
/// already in the cache and no file was received.
pub fn check_finish(data: &UploadFinishData, req: &UploadFinishRequest) -> (r: Result<(), PushError>)
    ensures
        r is Ok <==> (data.nar_found || (data.file_hash@ == req.file_hash@ && data.file_size == req.file_size)),
        r matches Err(e) ==> e == PushError::FileMismatch,
{
    if !data.nar_found && (data.file_hash != req.file_hash || data.file_size != req.file_size) {
        Err(PushError::FileMismatch)
    } else {
        Ok(())
    }
}

/// A file size read as a signed 64-bit number, as an `as` cast does.
pub open spec fn as_signed(x: u64) -> int {
    if x <= i64::MAX { x as int } else { x - 0x1_0000_0000_0000_0000 }
}

fn to_signed(x: u64) -> (r: i64)
    ensures
        r == as_signed(x),
{
    if x <= 0x7fff_ffff_ffff_ffff {
        x as i64
    } else {
        let below: u64 = 0xffff_ffff_ffff_ffff - x;
        -(below as i64) - 1
    }
}

/// How many bytes must be evicted from a cache holding `cache_size` bytes
/// under `quota` to add a file of `file_size` bytes: refused when the file
/// alone exceeds the quota, `None` when it fits.
pub fn eviction_amount(quota: i64, cache_size: i64, file_size: u64) -> (r: Result<Option<i64>, PushError>)
    requires
        quota >= as_signed(file_size) ==> i64::MIN <= cache_size + as_signed(file_size) <= i64::MAX,
        quota >= as_signed(file_size) ==> i64::MIN <= cache_size + as_signed(file_size) - quota <= i64::MAX,
    ensures
        quota < as_signed(file_size) ==> r == Err::<Option<i64>, PushError>(PushError::OverQuota),
        quota >= as_signed(file_size) ==> {
            let diff = cache_size + as_signed(file_size) - quota;
            r == Ok::<Option<i64>, PushError>(if diff > 0 { Some(diff as i64) } else { None })
        },
        // Evicting the amount leaves the cache exactly at its quota; with no
        // eviction the file already fits.
        r matches Ok(Some(d)) ==> d > 0 && cache_size + as_signed(file_size) - d == quota,
        r matches Ok(None) ==> cache_size + as_signed(file_size) <= quota,
{
    let size = to_signed(file_size);
    if quota < size {
        return Err(PushError::OverQuota);
    }
    let diff = (cache_size + size) - quota;
    if diff > 0 {
        Ok(Some(diff))
    } else {
        Ok(None)
    }
}

} // verus!
