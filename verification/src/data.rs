//! The records that one orchestration run produces and consumes.

use vstd::prelude::*;

use crate::kinds::ArchiveKind;

verus! {

/// Ordered list of path-matching patterns (regular expressions, held as
/// their source text) that exclude files and directories from a scan.
#[derive(Debug, Clone, PartialEq)]
pub struct NoWalkList {
    pub ignores: Vec<String>,
}

impl NoWalkList {
    /// The pattern texts, as a sequence of character sequences.
    pub open spec fn patterns(&self) -> Seq<Seq<char>> {
        self.ignores.deep_view()
    }
}

/// One outcome record per attempted extraction: the archive's source
/// path, the destination it was unpacked into on success, and the error
/// message on failure.
#[derive(Debug, Clone, PartialEq)]
pub struct UnpackStatus {
    pub archive_file: String,
    pub extract_to: Option<String>,
    pub err: Option<String>,
}

pub ghost struct StatusView {
    pub archive_file: Seq<char>,
    pub extract_to: Option<Seq<char>>,
    pub err: Option<Seq<char>>,
}

impl View for UnpackStatus {
    type V = StatusView;

    open spec fn view(&self) -> StatusView {
        StatusView {
            archive_file: self.archive_file@,
            extract_to: self.extract_to.deep_view(),
            err: self.err.deep_view(),
        }
    }
}

impl DeepView for UnpackStatus {
    type V = StatusView;

    open spec fn deep_view(&self) -> StatusView {
        self.view()
    }
}

/// One entry that a directory walk reports: its path, and whether it is
/// a directory.  Entries whose metadata could not be read are simply not
/// reported.
#[derive(Debug, Clone, PartialEq)]
pub struct FileEntry {
    pub path: String,
    pub is_dir: bool,
}

pub ghost struct EntryView {
    pub path: Seq<char>,
    pub is_dir: bool,
}

impl View for FileEntry {
    type V = EntryView;

    open spec fn view(&self) -> EntryView {
        EntryView { path: self.path@, is_dir: self.is_dir }
    }
}

impl DeepView for FileEntry {
    type V = EntryView;

    open spec fn deep_view(&self) -> EntryView {
        self.view()
    }
}

/// One archive that a scan discovered and that the dispatch stage is to
/// extract: its kind, its source path, and the resolved destination
/// directory.
#[derive(Debug, Clone, PartialEq)]
pub struct UnpackJob {
    pub archive_kind: ArchiveKind,
    pub path: String,
    pub unpack_into: String,
}

pub ghost struct JobView {
    pub archive_kind: ArchiveKind,
    pub path: Seq<char>,
    pub unpack_into: Seq<char>,
}

impl View for UnpackJob {
    type V = JobView;

    open spec fn view(&self) -> JobView {
        JobView {
            archive_kind: self.archive_kind,
            path: self.path@,
            unpack_into: self.unpack_into@,
        }
    }
}

impl DeepView for UnpackJob {
    type V = JobView;

    open spec fn deep_view(&self) -> JobView {
        self.view()
    }
}

} // verus!
