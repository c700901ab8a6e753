//! A light-weight view of the staged directory tree: a directory
//! handle and the manager that derives the five fixed subdirectory
//! paths from one unique job root.

use vstd::prelude::*;
use crate::outside::fresh_ulid;
use crate::pathspec::{join_path, path_join};

verus! {

/// Why a filesystem operation on a directory could not be carried out.
pub enum FileManagerError {
    CanonicalizeError(String),
}

/// A directory, identified by its path.
pub struct Directory {
    path: String,
}

impl Directory {
    /// The path this directory stands for.
    pub closed spec fn path_spec(&self) -> Seq<char> {
        self.path@
    }

    pub fn new(path: &str) -> (r: Directory)
        ensures
            r.path_spec() == path@,
    {
        Directory { path: path.to_owned() }
    }

    pub fn as_path(&self) -> (r: &str)
        ensures
            r@ == self.path_spec(),
    {
        self.path.as_str()
    }
}

/// Derives the fixed subdirectory layout of one job from a root that
/// carries a fresh unique identifier.
pub struct FileManager {
    root: Directory,
}

impl FileManager {
    /// The job root this manager works under.
    pub closed spec fn root_spec(&self) -> Seq<char> {
        self.root.path_spec()
    }

    /// Picks a fresh unique identifier and places the job root for it
    /// under the given base directory.
    pub fn new(base: &str) -> (r: FileManager)
        ensures
            exists|id: Seq<char>|
                {
                    &&& id.len() == 26
                    &&& (forall|i: int| 0 <= i < id.len() ==> id[i] != '/')
                    &&& r.root_spec() == path_join(base@, id)
                },
    {
        let name = fresh_ulid();
        let path = join_path(base, name.as_str());
        FileManager { root: Directory::new(path.as_str()) }
    }

    pub fn dicom_output(&self) -> (r: Directory)
        ensures
            r.path_spec() == path_join(self.root_spec(), "dicom_output"@),
    {
        self.subdir_from_root("dicom_output")
    }

    pub fn dicom_source(&self) -> (r: Directory)
        ensures
            r.path_spec() == path_join(self.root_spec(), "archive"@),
    {
        self.subdir_from_root("archive")
    }

    pub fn masks_output(&self) -> (r: Directory)
        ensures
            r.path_spec() == path_join(self.root_spec(), "masks"@),
    {
        self.subdir_from_root("masks")
    }

    pub fn nifty_output(&self) -> (r: Directory)
        ensures
            r.path_spec() == path_join(self.root_spec(), "nifty_output"@),
    {
        self.subdir_from_root("nifty_output")
    }

    pub fn nifty_source(&self) -> (r: Directory)
        ensures
            r.path_spec() == path_join(self.root_spec(), "nifty"@),
    {
        self.subdir_from_root("nifty")
    }

    fn subdir_from_root(&self, subdir: &str) -> (r: Directory)
        ensures
            r.path_spec() == path_join(self.root_spec(), subdir@),
    {
        let path = join_path(self.root.as_path(), subdir);
        Directory::new(path.as_str())
    }
}

} // verus!
