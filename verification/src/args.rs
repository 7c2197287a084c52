//! The run's arguments and the runbook file handle. Reading the command
//! line and the filesystem is the driver's business; which file is run,
//! and what counts as its parent directory, is decided here.

use vstd::prelude::*;
use vstd::string::*;

use crate::paths::parent_of;

verus! {

/// A runbook file, named by its path. The path is expected to be the
/// canonical one; canonicalizing is the caller's business.
#[derive(Debug, PartialEq)]
pub struct DocumentFile {
    pub path: String,
}

impl DocumentFile {
    /// A handle on the runbook file at the given path.
    pub fn new(path: String) -> (r: DocumentFile)
        ensures
            r.path == path,
    {
        DocumentFile { path }
    }

    /// The directory holding the file: the path before its last
    /// separator. A path without any separator has no parent here; the
    /// caller falls back to its own current directory then.
    pub fn parent_dir(&self) -> (r: Option<String>)
        ensures
            match r {
                None => parent_of(self.path@) is None,
                Some(p) => parent_of(self.path@) matches Some(v) && p@ == v,
            },
    {
        crate::paths::parent_dir_of(self.path.as_str())
    }
}

/// The run's arguments: the name of the runbook file to process.
#[derive(Debug, PartialEq)]
pub struct Args {
    pub file_name: String,
}

impl Args {
    /// Builds the arguments from an optionally given file name; without
    /// one, the default runbook file name is used.
    pub fn create(file_name: Option<String>) -> (r: Args)
        ensures
            match file_name {
                Some(name) => r.file_name == name,
                None => r.file_name@ == "sw-runbook.json"@,
            },
    {
        match file_name {
            Some(name) => Args { file_name: name },
            None => Args { file_name: String::from_str("sw-runbook.json") },
        }
    }

    /// The runbook files to process: exactly the one named.
    pub fn files(&self) -> (r: Vec<DocumentFile>)
        ensures
            r@.len() == 1,
            r@[0].path@ == self.file_name@,
    {
        let mut out: Vec<DocumentFile> = Vec::new();
        out.push(DocumentFile::new(self.file_path()));
        out
    }

    /// The path of the runbook file to process.
    pub fn file_path(&self) -> (r: String)
        ensures
            r@ == self.file_name@,
    {
        self.file_name.clone()
    }
}

} // verus!
