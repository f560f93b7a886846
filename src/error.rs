//! Errors of table resolution.

use vstd::prelude::*;

verus! {

/// Every way in which resolving a table can fail.
#[derive(Debug, Clone, PartialEq, Eq)]
pub enum TableError {
    /// An accessor was called before any metadata was loaded.
    NotLoaded,
    /// The current version has no entry in the metadata cache.
    MetadataNotFound(i64),
    /// The version hint is not a base-10 `i32`.
    MalformedVersionHint,
    /// No hint exists and no `*.metadata.json` object was listed.
    NoMetadataFound,
    /// The table metadata could not be decoded.
    MetadataDecode(String),
    /// The current metadata names no current snapshot.
    NoCurrentSnapshot,
    /// The current metadata holds no snapshot list, or an empty one.
    NoSnapshots,
    /// No snapshot carries the current snapshot id.
    SnapshotNotFound(i64),
    /// A manifest list or manifest file could not be decoded.
    ManifestDecode(String),
    /// A path does not start with the table location.
    PathNotUnderRoot { path: String },
    /// A path was to be relativized before any location was known.
    LocationNotLoaded,
    /// The storage backend failed.
    Storage(String),
}

} // verus!
