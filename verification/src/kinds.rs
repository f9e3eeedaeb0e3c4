//! Supported archive formats.
//!
//! The registry classifies a path by its file name: an ordered table of
//! case-insensitive suffix rules, where the first matching rule wins.
//! A path that matches no rule is not an archive, which is not an error.

use vstd::prelude::*;

use crate::paths::{eq_ci, eq_ci_exec, file_name_of, has_suffix_ci, spec_file_name};
use crate::zip::ZipArchive;

verus! {

/// The closed set of recognized archive formats.  The ZIP family also
/// covers `.jar` containers.
#[derive(Debug, Copy, Clone, PartialEq, Eq, Structural)]
pub enum ArchiveKind {
    Zip,
}

/// The capability that performs the actual unpack for one archive kind:
/// an external collaborator that callers implement around a byte-level
/// codec.  Failure carries an opaque human-readable message.
pub trait Archive {
    /// The archive file's path.
    fn path(&self) -> &String;

    /// Unpacks the archive's entire contents into the given directory,
    /// creating it if absent.
    fn unpack(&mut self, directory: &str) -> Result<(), String>;
}

pub open spec fn zip_suffix() -> Seq<char> {
    seq!['.', 'z', 'i', 'p']
}

pub open spec fn jar_suffix() -> Seq<char> {
    seq!['.', 'j', 'a', 'r']
}

/// What the registry recognizes: a path whose file name ends in `.zip`
/// or `.jar`, case-insensitively, is a ZIP-family archive; every other
/// path is not an archive.
pub open spec fn classify_spec(path: Seq<char>) -> Option<ArchiveKind> {
    let name = spec_file_name(path);
    if has_suffix_ci(name, zip_suffix()) || has_suffix_ci(name, jar_suffix()) {
        Some(ArchiveKind::Zip)
    } else {
        None
    }
}

/// Whether the file name ends, case-insensitively, in the four given
/// characters (spelt in lower case).
fn name_has_suffix_ci(name: &str, a: char, b: char, c: char, d: char) -> (r: bool)
    ensures
        r == has_suffix_ci(name@, seq![a, b, c, d]),
{
    let n = name.unicode_len();
    if n < 4 {
        return false;
    }
    let r = eq_ci_exec(name.get_char(n - 4), a) && eq_ci_exec(name.get_char(n - 3), b)
        && eq_ci_exec(name.get_char(n - 2), c) && eq_ci_exec(name.get_char(n - 1), d);
    proof {
        let suf = seq![a, b, c, d];
        if r {
            assert forall|k: int| 0 <= k < suf.len() implies eq_ci(
                name@[name@.len() - suf.len() + k],
                suf[k],
            ) by {
                if k == 0 {
                } else if k == 1 {
                } else if k == 2 {
                } else {
                    assert(k == 3);
                }
            }
        }
        if has_suffix_ci(name@, suf) {
            assert(eq_ci(name@[name@.len() - 4 + 0], suf[0]));
            assert(eq_ci(name@[name@.len() - 4 + 1], suf[1]));
            assert(eq_ci(name@[name@.len() - 4 + 2], suf[2]));
            assert(eq_ci(name@[name@.len() - 4 + 3], suf[3]));
            assert(r);
        }
    }
    r
}

impl ArchiveKind {
    /// Classifies the given file path against the registry's rule table.
    pub fn for_path(path: &str) -> (r: Option<ArchiveKind>)
        ensures
            r == classify_spec(path@),
    {
        Self::determine_by_filename(path)
    }

    /// Determines by file name whether the path is an archive file.
    fn determine_by_filename(path: &str) -> (r: Option<ArchiveKind>)
        ensures
            r == classify_spec(path@),
    {
        let name = file_name_of(path);
        if name_has_suffix_ci(name.as_str(), '.', 'z', 'i', 'p') {
            Some(ArchiveKind::Zip)
        } else if name_has_suffix_ci(name.as_str(), '.', 'j', 'a', 'r') {
            Some(ArchiveKind::Zip)
        } else {
            None
        }
    }

    /// The archive record for this kind at the given path.
    pub fn new(self, path: &str) -> (r: ZipArchive)
        ensures
            r.path@ == path@,
    {
        match self {
            ArchiveKind::Zip => ZipArchive::new(path),
        }
    }
}

/// Classification is a pure function of the path: two classifications of
/// one path agree, every path whose file name ends in `.zip` or `.jar`
/// in any letter case is the ZIP-family kind, and every other path is
/// not an archive.
pub proof fn lemma_classify_idempotent(path: Seq<char>)
    ensures
        classify_spec(path) == classify_spec(path),
        (has_suffix_ci(spec_file_name(path), zip_suffix()) || has_suffix_ci(
            spec_file_name(path),
            jar_suffix(),
        )) <==> classify_spec(path) == Some(ArchiveKind::Zip),
        !(has_suffix_ci(spec_file_name(path), zip_suffix()) || has_suffix_ci(
            spec_file_name(path),
            jar_suffix(),
        )) <==> classify_spec(path) is None,
{
}

} // verus!
