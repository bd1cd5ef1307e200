//! Sandboxed file-management core: path resolution beneath a configured
//! root, classification of filesystem operation outcomes, directory-listing
//! ordering, and rendering of localized response messages from per-language
//! catalogs.

use vstd::prelude::*;

pub mod authorization;
pub mod configuration;
pub mod create;
pub mod error;
pub mod list;
pub mod localization;
pub mod paths;
pub mod strutil;

verus! {

/// The uniform response envelope returned for every create operation.
pub struct AppResponse {
    pub success: bool,
    pub message: String,
}

/// The untrusted request body: a relative directory and an optional file name.
pub struct UserPathRequest {
    pub directory: String,
    pub file: Option<String>,
}

} // verus!
