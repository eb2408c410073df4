//! Path handling: stripping leading diff path segments, and resolving a
//! caller-supplied path to its canonical on-disk form.

use vstd::prelude::*;
use vstd::string::*;
use crate::text::{spec_split, spec_join, split_str, join_from, views_of};

verus! {

/// `path` with up to `levels` leading `/`-separated segments removed; a
/// path with no more than `levels` segments is returned unchanged.
pub open spec fn spec_strip_path(path: Seq<char>, levels: int) -> Seq<char> {
    let parts = spec_split(path, '/');
    if parts.len() > levels {
        spec_join(parts.skip(levels), '/')
    } else {
        path
    }
}

/// Removes up to `strip_level` leading path segments, emulating the
/// conventional `-p` path stripping of diff application.
pub fn strip_path(path: &str, strip_level: usize) -> (r: String)
    ensures
        r@ == spec_strip_path(path@, strip_level as int),
{
    let parts = split_str(path, '/');
    if parts.len() > strip_level {
        join_from(&parts, strip_level, '/')
    } else {
        path.to_owned()
    }
}

/// Relies on `std::path::Path::canonicalize`: resolves a path against the
/// filesystem. The outcome depends on the state of the disk, so nothing is
/// promised of it; on failure the raw operating-system error text is
/// returned.
#[verifier::external_body]
fn canonicalize_str(p: &str) -> (r: Result<String, String>) {
    match std::path::Path::new(p).canonicalize() {
        Ok(resolved) => Ok(resolved.to_string_lossy().into_owned()),
        Err(e) => Err(e.to_string()),
    }
}

/// Resolves and canonicalizes a caller-supplied base path. On failure the
/// error names the path that was requested.
pub fn validate_path(requested_path: &str) -> (r: Result<String, String>)
    ensures
        r matches Err(m) ==> exists|os_err: Seq<char>|
            m@ == "Failed to canonicalize base directory path '"@ + requested_path@
                + "': "@ + os_err,
{
    match canonicalize_str(requested_path) {
        Ok(resolved) => Ok(resolved),
        Err(e) => {
            let mut msg = String::new();
            msg.append("Failed to canonicalize base directory path '");
            msg.append(requested_path);
            msg.append("': ");
            msg.append(e.as_str());
            proof {
                assert(msg@ == "Failed to canonicalize base directory path '"@
                    + requested_path@ + "': "@ + e@);
            }
            Err(msg)
        },
    }
}

} // verus!
