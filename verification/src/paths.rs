//! Pure resolution of a caller-supplied relative path beneath the sandbox
//! root: string joining only, with no canonicalization and no rejection of
//! escaping segments — an invalid path surfaces later as a filesystem error.

use vstd::prelude::*;
use vstd::string::*;
use crate::UserPathRequest;
use crate::strutil::push_char;

verus! {

/// The joining of a base path and a further segment: an absolute segment
/// replaces the base, an empty base leaves the segment alone, and otherwise
/// the two are joined with exactly one `/` between them.
pub open spec fn join_spec(base: Seq<char>, rel: Seq<char>) -> Seq<char> {
    if rel.len() > 0 && rel[0] == '/' {
        rel
    } else if base.len() == 0 {
        rel
    } else if base[base.len() - 1] == '/' {
        base + rel
    } else {
        base + seq!['/'] + rel
    }
}

/// Joins a base path with a further segment.
pub fn join_path(base: &str, rel: &str) -> (r: String)
    ensures
        r@ == join_spec(base@, rel@),
{
    let bn = base.unicode_len();
    let rn = rel.unicode_len();
    if rn > 0 && rel.get_char(0) == '/' {
        rel.to_owned()
    } else if bn == 0 {
        rel.to_owned()
    } else if base.get_char(bn - 1) == '/' {
        let mut out = base.to_owned();
        out.append(rel);
        out
    } else {
        let mut out = base.to_owned();
        push_char(&mut out, '/');
        out.append(rel);
        proof {
            assert(out@ =~= base@ + seq!['/'] + rel@);
        }
        out
    }
}

/// A resolved request path: the absolute operating path, the original
/// relative directory, and the original file name when one was supplied.
pub struct Path {
    pub path: String,
    pub directory: String,
    pub file: Option<String>,
}

/// The resolved path handed to an operation handler.
pub struct ExtractUserPath(pub Path);

/// The characters of an optional string.
pub open spec fn opt_view(o: Option<String>) -> Option<Seq<char>> {
    match o {
        Some(s) => Some(s@),
        None => None,
    }
}

/// The operating path of a request: the sandbox root joined with the
/// relative directory, then with the file name when one was supplied.
pub open spec fn resolved_path_spec(
    base: Seq<char>,
    directory: Seq<char>,
    file: Option<Seq<char>>,
) -> Seq<char> {
    match file {
        Some(f) => join_spec(join_spec(base, directory), f),
        None => join_spec(base, directory),
    }
}

/// Resolves a request against the sandbox root. Pure concatenation; the
/// original relative directory and file name are kept for message
/// interpolation.
pub fn resolve_user_path(base_path: &str, request: &UserPathRequest) -> (p: Path)
    ensures
        p.directory@ == request.directory@,
        opt_view(p.file) == opt_view(request.file),
        p.path@ == resolved_path_spec(base_path@, request.directory@, opt_view(request.file)),
{
    let directory = request.directory.clone();
    let dirjoin = join_path(base_path, request.directory.as_str());
    match &request.file {
        Some(f) => {
            let path = join_path(dirjoin.as_str(), f.as_str());
            Path { path, directory, file: Some(f.clone()) }
        },
        None => Path { path: dirjoin, directory, file: None },
    }
}

} // verus!
