//! The ZIP-family archive record.
//!
//! A `ZipArchive` names one archive file on disk.  The byte-level
//! decompression is an external collaborator: a caller pairs this record
//! with a codec that implements [`crate::kinds::Archive`].

use vstd::prelude::*;

verus! {

/// One archive of the ZIP family (which also covers `.jar` files),
/// identified by its source path.
#[derive(Debug, Clone, PartialEq)]
pub struct ZipArchive {
    pub path: String,
}

impl ZipArchive {
    pub fn new(path: &str) -> (r: Self)
        ensures
            r.path@ == path@,
    {
        ZipArchive { path: path.to_owned() }
    }

    /// The archive file's path.
    pub fn path(&self) -> (r: &String)
        ensures
            r@ == self.path@,
    {
        &self.path
    }
}

} // verus!
