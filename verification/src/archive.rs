//! The handle for the archive collaborator: the library only records
//! and hands around the archive's path; packing and unpacking are
//! filesystem work that the surrounding binary performs.

use vstd::prelude::*;

verus! {

/// A zip archive, identified by its path.
pub struct Archive {
    path: String,
}

impl Archive {
    /// The path this archive stands for.
    pub closed spec fn path_spec(&self) -> Seq<char> {
        self.path@
    }

    pub fn new(path: &str) -> (r: Archive)
        ensures
            r.path_spec() == path@,
    {
        Archive { path: path.to_owned() }
    }

    pub fn as_path(&self) -> (r: &str)
        ensures
            r@ == self.path_spec(),
    {
        self.path.as_str()
    }
}

} // verus!
