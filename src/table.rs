//! The table: its backend, its metadata cache, and what is current.

use std::collections::HashMap;

use opendal::Operator;
use vstd::prelude::*;

use crate::error::TableError;
use crate::manifest::{find_current_snapshot, spec_current_snapshot};
use crate::path::{relativize, relativize_outcome, spec_relativize};
use crate::types::{ManifestListEntry, TableMetadata};

verus! {

/// The storage backend handle that a table reads through; opaque here.
#[verifier::external_type_specification]
#[verifier::external_body]
pub struct ExOperator(Operator);

/// What a table holds: the metadata cache keyed by version, the current
/// version (`0` while nothing is loaded) and the current table location.
pub struct TableView {
    pub cache: Map<i64, TableMetadata>,
    pub current_version: i64,
    pub current_location: Option<Seq<char>>,
}

impl TableView {
    /// The state of a table that has loaded nothing yet.
    pub open spec fn unloaded() -> TableView {
        TableView { cache: Map::empty(), current_version: 0, current_location: None }
    }

    /// Either nothing is loaded, or the current version is cached and the
    /// current location is the one that its metadata records.
    pub open spec fn wf(self) -> bool {
        ||| self.current_version == 0 && self.current_location is None
        ||| {
            &&& self.current_location is Some
            &&& self.cache.contains_key(self.current_version)
            &&& self.current_location->0 == self.cache[self.current_version].location@
        }
    }

    /// The state after `metadata` was loaded: it is cached under its own
    /// timestamp, overwriting any entry there, and becomes current.
    pub open spec fn after_load(self, metadata: TableMetadata) -> TableView {
        TableView {
            cache: self.cache.insert(metadata.last_updated_ms, metadata),
            current_version: metadata.last_updated_ms,
            current_location: Some(metadata.location@),
        }
    }

    /// What a cache lookup of `version` answers in this state.
    pub open spec fn metadata_at(self, version: i64) -> Result<TableMetadata, TableError> {
        if self.current_version == 0 {
            Err(TableError::NotLoaded)
        } else if self.cache.contains_key(version) {
            Ok(self.cache[version])
        } else {
            Err(TableError::MetadataNotFound(version))
        }
    }

    /// What `current_table_metadata` answers in this state.
    pub open spec fn current_metadata(self) -> Result<TableMetadata, TableError> {
        self.metadata_at(self.current_version)
    }

    /// The absolute manifest-list path of the current snapshot.
    pub open spec fn manifest_list_source(self) -> Result<Seq<char>, TableError> {
        match self.current_metadata() {
            Err(e) => Err(e),
            Ok(metadata) => match spec_current_snapshot(metadata) {
                Err(e) => Err(e),
                Ok(snapshot) => Ok(snapshot.manifest_list@),
            },
        }
    }
}

/// `r` is what relativizing `path` in state `t` gives.
pub open spec fn rel_path_outcome(t: TableView, r: Result<String, TableError>, path: Seq<char>) -> bool {
    match t.current_location {
        None => r == Err::<String, TableError>(TableError::LocationNotLoaded),
        Some(location) => relativize_outcome(r, path, location),
    }
}

/// Whether relativizing `path` in state `t` succeeds.
pub open spec fn rel_path_succeeds(t: TableView, path: Seq<char>) -> bool {
    match t.current_location {
        None => false,
        Some(location) => spec_relativize(path, location) is Some,
    }
}

/// A table: its storage backend, the metadata loaded so far, and which of it
/// is current.
pub struct Table {
    op: Operator,
    table_metadata: HashMap<i64, TableMetadata>,
    /// `0` means that nothing is loaded yet; otherwise the `last_updated_ms`
    /// of the current metadata.
    current_version: i64,
    current_location: Option<String>,
}

impl View for Table {
    type V = TableView;

    closed spec fn view(&self) -> TableView {
        TableView {
            cache: self.table_metadata@,
            current_version: self.current_version,
            current_location: match self.current_location {
                None => None,
                Some(l) => Some(l@),
            },
        }
    }
}

impl Table {
    /// The backend this table reads through.
    pub closed spec fn backend(&self) -> Operator {
        self.op
    }

    /// Creates an unloaded table over the given backend.
    pub fn new(op: Operator) -> (r: Table)
        ensures
            r@ == TableView::unloaded(),
            r@.wf(),
            r.backend() == op,
    {
        Table { op, table_metadata: HashMap::new(), current_version: 0, current_location: None }
    }

    /// The backend this table reads through.
    pub fn operator(&self) -> (r: &Operator)
        ensures
            *r == self.backend(),
    {
        &self.op
    }

    /// Records freshly decoded metadata: caches it under its own timestamp and
    /// makes it current. This is the last step of a load, taken only once
    /// reading and decoding have succeeded.
    pub fn install_metadata(&mut self, metadata: TableMetadata)
        ensures
            final(self)@ == old(self)@.after_load(metadata),
            final(self)@.wf(),
            final(self).backend() == old(self).backend(),
    {
        broadcast use vstd::std_specs::hash::group_hash_axioms;

        let version = metadata.last_updated_ms;
        let location = metadata.location.clone();
        let ghost m = metadata;
        self.table_metadata.insert(version, metadata);
        self.current_version = version;
        self.current_location = Some(location);
        assert(self@.cache == old(self)@.cache.insert(version, m));
        assert(self@ == old(self)@.after_load(m));
    }

    /// The cached metadata of `version`; `NotLoaded` before any load.
    pub fn metadata_for_version(&self, version: i64) -> (r: Result<&TableMetadata, TableError>)
        ensures
            match r {
                Ok(m) => self@.metadata_at(version) == Ok::<TableMetadata, TableError>(*m),
                Err(e) => self@.metadata_at(version) == Err::<TableMetadata, TableError>(e),
            },
    {
        broadcast use vstd::std_specs::hash::group_hash_axioms;

        if self.current_version == 0 {
            return Err(TableError::NotLoaded);
        }
        match self.table_metadata.get(&version) {
            Some(m) => Ok(m),
            None => Err(TableError::MetadataNotFound(version)),
        }
    }

    /// The metadata of the current version; `NotLoaded` before any load.
    pub fn current_table_metadata(&self) -> (r: Result<&TableMetadata, TableError>)
        ensures
            match r {
                Ok(m) => self@.current_metadata() == Ok::<TableMetadata, TableError>(*m),
                Err(e) => self@.current_metadata() == Err::<TableMetadata, TableError>(e),
            },
    {
        self.metadata_for_version(self.current_version)
    }

    /// The path relative to the table location: `path` with the location
    /// stripped from its front.
    pub fn rel_path(&self, path: &str) -> (r: Result<String, TableError>)
        ensures
            rel_path_outcome(self@, r, path@),
    {
        match &self.current_location {
            None => Err(TableError::LocationNotLoaded),
            Some(location) => relativize(path, location.as_str()),
        }
    }

    /// The storage path of the current snapshot's manifest list: the first
    /// step of resolving the current data files.
    pub fn current_manifest_list_path(&self) -> (r: Result<String, TableError>)
        ensures
            match self@.manifest_list_source() {
                Err(e) => r == Err::<String, TableError>(e),
                Ok(path) => rel_path_outcome(self@, r, path),
            },
    {
        let metadata = self.current_table_metadata()?;
        let snapshot = find_current_snapshot(metadata)?;
        self.rel_path(snapshot.manifest_list.as_str())
    }

    /// The storage paths of the manifest files that a manifest list names, in
    /// its order; the first path outside the table location fails the whole
    /// call.
    pub fn manifest_file_paths(&self, list: &Vec<ManifestListEntry>) -> (r: Result<Vec<String>, TableError>)
        ensures
            match r {
                Ok(paths) => paths@.len() == list@.len() && forall|i: int|
                    0 <= i < list@.len() ==> rel_path_outcome(
                        self@,
                        Ok(#[trigger] paths@[i]),
                        list@[i].manifest_path@,
                    ),
                Err(e) => exists|k: int|
                    0 <= k < list@.len() && rel_path_outcome(
                        self@,
                        Err(e),
                        (#[trigger] list@[k]).manifest_path@,
                    ) && forall|i: int|
                        0 <= i < k ==> rel_path_succeeds(self@, #[trigger] list@[i].manifest_path@),
            },
    {
        let mut paths: Vec<String> = Vec::new();
        let mut i: usize = 0;
        while i < list.len()
            invariant
                i <= list@.len(),
                paths@.len() == i,
                forall|j: int|
                    0 <= j < i ==> rel_path_outcome(
                        self@,
                        Ok(#[trigger] paths@[j]),
                        list@[j].manifest_path@,
                    ),
            decreases list@.len() - i,
        {
            let p = self.rel_path(list[i].manifest_path.as_str());
            match p {
                Ok(p) => {
                    paths.push(p);
                },
                Err(e) => {
                    assert forall|j: int| 0 <= j < i implies rel_path_succeeds(
                        self@,
                        #[trigger] list@[j].manifest_path@,
                    ) by {
                        assert(rel_path_outcome(self@, Ok(paths@[j]), list@[j].manifest_path@));
                    }
                    return Err(e);
                },
            }
            i = i + 1;
        }
        Ok(paths)
    }
}

/// Loading the same metadata a second time changes nothing: the cache keeps
/// one entry for its version and the current metadata is the same.
pub proof fn lemma_reload_is_idempotent(t: TableView, metadata: TableMetadata)
    ensures
        t.after_load(metadata).after_load(metadata) == t.after_load(metadata),
        t.after_load(metadata).after_load(metadata).current_metadata() == t.after_load(
            metadata,
        ).current_metadata(),
        t.after_load(metadata).after_load(metadata).cache.dom() == t.after_load(metadata).cache.dom(),
{
    let once = t.after_load(metadata);
    assert(once.cache.insert(metadata.last_updated_ms, metadata) =~= once.cache);
}

/// After a load, the current metadata is exactly the metadata loaded, so its
/// timestamp is the one embedded in the file read; whatever was loaded before
/// stays cached. A timestamp of `0` is the one exception: it coincides with the
/// "nothing loaded" mark.
pub proof fn lemma_load_makes_metadata_current(t: TableView, metadata: TableMetadata)
    requires
        metadata.last_updated_ms != 0,
    ensures
        t.after_load(metadata).current_metadata() == Ok::<TableMetadata, TableError>(metadata),
        t.after_load(metadata).wf(),
        forall|v: i64|
            t.cache.contains_key(v) && v != metadata.last_updated_ms ==> (#[trigger] t.after_load(
                metadata,
            ).cache[v]) == t.cache[v],
{
}

/// Before any load, asking for the current metadata, or for the first step
/// toward the current data files, fails with `NotLoaded`.
pub proof fn lemma_unloaded_table_is_guarded()
    ensures
        TableView::unloaded().wf(),
        TableView::unloaded().current_metadata() == Err::<TableMetadata, TableError>(
            TableError::NotLoaded,
        ),
        TableView::unloaded().manifest_list_source() == Err::<Seq<char>, TableError>(
            TableError::NotLoaded,
        ),
{
}

} // verus!
