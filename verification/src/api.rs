//! The messages exchanged between the push client and the server, and the
//! notifications sent to web clients.
use vstd::prelude::*;

verus! {

/// Identifiers of users, caches, tokens and uploads.
#[verifier::external_type_specification]
#[verifier::external_body]
pub struct ExUuid(uuid::Uuid);

/// Which of the given store paths a cache still lacks.
pub struct UploadInfoRequest {
    /// The cache's name.
    pub cache: String,
    /// Store paths in base form.
    pub paths: Vec<String>,
    /// Push even where the cache or its downstream caches already hold a path.
    pub force: bool,
}

/// The store paths that still have to be pushed, and the cache's id.
pub struct UploadInfoResponse {
    pub paths: Vec<String>,
    pub cache: uuid::Uuid,
}

/// Announces the upload of one store path.
pub struct UploadPathRequest {
    pub cache: uuid::Uuid,
    pub force: bool,
    /// The store path in base form.
    pub store_path: String,
    /// Nix base-32 SHA-256 of the NAR.
    pub nar_hash: String,
    pub nar_size: u64,
    pub deriver: Option<String>,
    /// Store paths in base form.
    pub references: Vec<String>,
    pub signature: String,
}

/// The session under which the NAR is then sent.
pub struct UploadPathResponse {
    pub uuid: uuid::Uuid,
}

/// Confirms an upload with what the client computed of the file it sent.
pub struct UploadFinishRequest {
    /// Nix base-32 SHA-256 of the compressed file.
    pub file_hash: String,
    pub file_size: u64,
}

/// A change that web clients are told about.
pub enum UpdateMessage {
    Settings,
    User { uuid: uuid::Uuid },
    UserPermissions,
    Group { uuid: uuid::Uuid },
    Token { uuid: uuid::Uuid },
    Cache { uuid: uuid::Uuid },
}

} // verus!
