//! Deep archive unpacking: discover archive files under a root directory,
//! extract each into a mirrored destination tree, and repeat the discovery
//! against the freshly extracted output up to a bounded depth, so that
//! archives nested inside archives are fully unpacked.
//!
//! Paths are modelled as strings whose components are separated by `/`.
//! The byte-level decompression codec, the directory walk and all other
//! I/O are external collaborators: this crate computes which files are
//! archives, where each one is extracted to, and how one orchestration
//! run advances from level to level.

pub mod data;
pub mod ignores;
pub mod kinds;
pub mod laws;
pub mod paths;
pub mod unpack;
pub mod zip;

pub use data::{FileEntry, NoWalkList, UnpackJob, UnpackStatus};
pub use kinds::{Archive, ArchiveKind};
pub use unpack::{ConfigError, DeepWalk, DeepWalkBuilder, Phase, Session};
pub use zip::ZipArchive;
