//! Verified core of the Hibernation Nix binary cache: request parsing,
//! the Nix wire formats it serves, and the checks applied to uploads.
pub mod text;
pub mod range;
pub mod nixbase32;
pub mod digest;
pub mod nar;
pub mod store_path;
pub mod narinfo;
pub mod api;
pub mod upload;
pub mod management;
pub mod auth;
pub mod timing;
pub mod session;
pub mod config;
pub mod client;
pub mod laws;
