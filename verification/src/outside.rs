//! Trusted declarations of the outside collaborators that the library
//! calls in the middle of its logic: the unique-identifier generator
//! and the recursive directory walk.

use vstd::prelude::*;
use walkdir::WalkDir;

verus! {

/// Relies on `ulid::Ulid::generate` and `ulid::Ulid::to_string`: the
/// canonical text form of a ULID is exactly 26 Crockford base32
/// characters (digits and upper-case letters), so it never contains a
/// path separator or a dot. The value itself depends on the clock and
/// on randomness, so nothing is promised about which identifier comes
/// back.
#[verifier::external_body]
pub fn fresh_ulid() -> (r: String)
    ensures
        r@.len() == 26,
        forall|i: int| 0 <= i < r@.len() ==> r@[i] != '/' && r@[i] != '.',
{
    ulid::Ulid::generate().to_string()
}

/// Relies on `walkdir::WalkDir`: walks the directory tree under the
/// given root and hands back the display form of each reachable entry's
/// path. What comes back depends on the state of the disk, so nothing
/// is promised of the result; callers filter and sort it themselves.
#[verifier::external_body]
pub fn walk_paths(root: &str) -> (r: Vec<String>)
{
    WalkDir::new(root)
        .into_iter()
        .filter_map(|e| e.ok())
        .map(|e| e.path().display().to_string())
        .collect()
}

} // verus!
