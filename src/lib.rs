//! Resolution of the current readable state of a versioned table: which
//! metadata version is current, what it records, and which data files its
//! current snapshot lists.
//!
//! Storage and decoding stay with the caller. The library decides what to
//! read, checks what was read, and keeps the loaded metadata.

mod error;
mod manifest;
mod path;
mod table;
mod types;
mod version;

pub use error::TableError;
pub use manifest::{
    collect_data_files, find_current_snapshot, is_first_match, manifests_view,
    spec_current_snapshot, spec_data_files,
};
pub use path::{lemma_relativize_round_trip, relativize, relativize_outcome, spec_relativize};
pub use table::{
    lemma_load_makes_metadata_current, lemma_reload_is_idempotent,
    lemma_unloaded_table_is_guarded, rel_path_outcome, rel_path_succeeds, Table, TableView,
};
pub use types::{
    DataFile, ManifestFileEntry, ManifestListEntry, Snapshot, TableFormatVersion, TableMetadata,
};
pub use version::{
    is_latest_metadata, is_metadata_file_name, lemma_latest_metadata_unique, is_metadata_name, lex_lt, metadata_path_for_version,
    names_view, next_version_probe, parse_version_hint, resolve_metadata_path,
    select_latest_metadata, spec_metadata_path, spec_parse_version_hint, version_hint_path,
    VersionProbe, VersionSource,
};
