//! The records that decoded metadata and manifests are made of.

use vstd::prelude::*;

verus! {

/// The table format version recorded in metadata.
#[derive(Debug, Clone, Copy, PartialEq, Eq, Structural)]
pub enum TableFormatVersion {
    V1,
    V2,
}

/// A point-in-time view of the table, referencing a manifest list.
#[derive(Debug, Clone, PartialEq, Eq)]
pub struct Snapshot {
    pub snapshot_id: i64,
    /// Absolute path of the manifest list, under the table location.
    pub manifest_list: String,
}

/// The decoded root descriptor of one table version.
#[derive(Debug, Clone, PartialEq, Eq)]
pub struct TableMetadata {
    pub format_version: TableFormatVersion,
    /// The table root as recorded in metadata.
    pub location: String,
    /// Embedded timestamp; it doubles as the version key.
    pub last_updated_ms: i64,
    pub current_snapshot_id: Option<i64>,
    pub snapshots: Option<Vec<Snapshot>>,
}

/// One entry of a manifest list: a pointer to a manifest file.
#[derive(Debug, Clone, PartialEq, Eq)]
pub struct ManifestListEntry {
    /// Absolute path of the manifest file, under the table location.
    pub manifest_path: String,
}

/// A data file, the unit a reader scans.
#[derive(Debug, Clone, PartialEq, Eq)]
pub struct DataFile {
    /// Absolute path of the file.
    pub file_path: String,
    pub record_count: i64,
    pub file_size_in_bytes: i64,
}

/// One entry of a manifest file.
#[derive(Debug, Clone, PartialEq, Eq)]
pub struct ManifestFileEntry {
    pub snapshot_id: Option<i64>,
    pub data_file: DataFile,
}

} // verus!
