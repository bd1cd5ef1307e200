//! The capability check invoked before each operation. The current policy
//! allows every request; it is one trivial, replaceable implementation of
//! the `(identity, required permission) -> allow` check.

use vstd::prelude::*;

verus! {

/// The permissions an operation can require.
#[derive(Debug, PartialEq, Eq, Structural)]
pub enum Permission {
    List,
    Read,
    Write,
    Create,
    SearchInFiles,
    URLDownload,
    Extract,
    Download,
    Rename,
    Copy,
    Move,
    Delete,
    ReadTrack,
    WriteTrack,
    NoAccess,
}

/// Whether the identity holds the required permission. The present policy
/// is the allow-all stub: every request is allowed.
pub fn check_permission(_identity: &str, _required: &Permission) -> (allowed: bool)
    ensures
        allowed,
{
    true
}

} // verus!
