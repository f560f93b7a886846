//! Snapshot selection and the manifest chain down to data files.

use vstd::prelude::*;

use crate::error::TableError;
use crate::types::{DataFile, ManifestFileEntry, Snapshot, TableMetadata};

verus! {

/// `k` is the first position of `snapshots` whose id is `id`.
pub open spec fn is_first_match(snapshots: Seq<Snapshot>, id: i64, k: int) -> bool {
    &&& 0 <= k < snapshots.len()
    &&& snapshots[k].snapshot_id == id
    &&& forall|j: int| 0 <= j < k ==> (#[trigger] snapshots[j]).snapshot_id != id
}

/// The snapshot that `metadata` marks as current: the first one carrying the
/// current snapshot id.
pub open spec fn spec_current_snapshot(metadata: TableMetadata) -> Result<Snapshot, TableError> {
    match metadata.current_snapshot_id {
        None => Err(TableError::NoCurrentSnapshot),
        Some(id) => match metadata.snapshots {
            None => Err(TableError::NoSnapshots),
            Some(snapshots) => if snapshots@.len() == 0 {
                Err(TableError::NoSnapshots)
            } else if exists|k: int| is_first_match(snapshots@, id, k) {
                Ok(snapshots@[choose|k: int| is_first_match(snapshots@, id, k)])
            } else {
                Err(TableError::SnapshotNotFound(id))
            },
        },
    }
}

proof fn lemma_first_match_unique(snapshots: Seq<Snapshot>, id: i64, a: int, b: int)
    requires
        is_first_match(snapshots, id, a),
        is_first_match(snapshots, id, b),
    ensures
        a == b,
{
    if a < b {
        assert(snapshots[a].snapshot_id != id);
    } else if b < a {
        assert(snapshots[b].snapshot_id != id);
    }
}

/// Finds the current snapshot of `metadata` by a linear scan; the first match
/// wins.
pub fn find_current_snapshot(metadata: &TableMetadata) -> (r: Result<&Snapshot, TableError>)
    ensures
        match r {
            Ok(s) => spec_current_snapshot(*metadata) == Ok::<Snapshot, TableError>(*s),
            Err(e) => spec_current_snapshot(*metadata) == Err::<Snapshot, TableError>(e),
        },
{
    let id = match metadata.current_snapshot_id {
        None => return Err(TableError::NoCurrentSnapshot),
        Some(id) => id,
    };
    let snapshots = match &metadata.snapshots {
        None => return Err(TableError::NoSnapshots),
        Some(snapshots) => snapshots,
    };
    if snapshots.len() == 0 {
        return Err(TableError::NoSnapshots);
    }
    let mut i: usize = 0;
    while i < snapshots.len()
        invariant
            i <= snapshots@.len(),
            snapshots@.len() > 0,
            metadata.current_snapshot_id == Some(id),
            metadata.snapshots == Some(*snapshots),
            forall|j: int| 0 <= j < i ==> (#[trigger] snapshots@[j]).snapshot_id != id,
        decreases snapshots@.len() - i,
    {
        if snapshots[i].snapshot_id == id {
            proof {
                assert(is_first_match(snapshots@, id, i as int));
                let k = choose|k: int| is_first_match(snapshots@, id, k);
                lemma_first_match_unique(snapshots@, id, i as int, k);
            }
            return Ok(&snapshots[i]);
        }
        i = i + 1;
    }
    Err(TableError::SnapshotNotFound(id))
}

/// The data files of a sequence of manifest files, in order: all entries of
/// the first file, then all of the second, and so on.
pub open spec fn spec_data_files(manifests: Seq<Seq<ManifestFileEntry>>) -> Seq<DataFile>
    decreases manifests.len(),
{
    if manifests.len() == 0 {
        Seq::empty()
    } else {
        spec_data_files(manifests.drop_last()) + manifests.last().map_values(
            |e: ManifestFileEntry| e.data_file,
        )
    }
}

/// The contents of each manifest file of a chain.
pub open spec fn manifests_view(manifests: Seq<Vec<ManifestFileEntry>>) -> Seq<Seq<ManifestFileEntry>> {
    manifests.map_values(|m: Vec<ManifestFileEntry>| m@)
}

fn placeholder_entry() -> (r: ManifestFileEntry) {
    ManifestFileEntry {
        snapshot_id: None,
        data_file: DataFile { file_path: String::new(), record_count: 0, file_size_in_bytes: 0 },
    }
}

/// Projects every entry of every manifest file to its data file, keeping the
/// order of the files and of the entries within each file; nothing is sorted
/// or removed.
pub fn collect_data_files(manifests: Vec<Vec<ManifestFileEntry>>) -> (r: Vec<DataFile>)
    ensures
        r@ == spec_data_files(manifests_view(manifests@)),
{
    let ghost all = manifests_view(manifests@);
    let mut manifests = manifests;
    let mut out: Vec<DataFile> = Vec::new();
    let mut i: usize = 0;
    while i < manifests.len()
        invariant
            i <= manifests@.len(),
            all.len() == manifests@.len(),
            forall|j: int| i <= j < manifests@.len() ==> all[j] == (#[trigger] manifests@[j])@,
            out@ == spec_data_files(all.subrange(0, i as int)),
        decreases manifests@.len() - i,
    {
        let mut entries: Vec<ManifestFileEntry> = Vec::new();
        manifests.set_and_swap(i, &mut entries);
        let ghost before = out@;
        let ghost file = entries@;
        assert(file == all[i as int]);
        let mut k: usize = 0;
        while k < entries.len()
            invariant
                k <= entries@.len(),
                entries@.len() == file.len(),
                forall|j: int| k <= j < entries@.len() ==> (#[trigger] entries@[j]) == file[j],
                out@ == before + file.subrange(0, k as int).map_values(
                    |e: ManifestFileEntry| e.data_file,
                ),
            decreases entries@.len() - k,
        {
            let mut entry = placeholder_entry();
            entries.set_and_swap(k, &mut entry);
            out.push(entry.data_file);
            proof {
                assert(file.subrange(0, k + 1).map_values(|e: ManifestFileEntry| e.data_file)
                    =~= file.subrange(0, k as int).map_values(|e: ManifestFileEntry| e.data_file).push(
                    file[k as int].data_file,
                ));
            }
            k = k + 1;
        }
        proof {
            assert(file.subrange(0, file.len() as int) =~= file);
            assert(all.subrange(0, i + 1).drop_last() =~= all.subrange(0, i as int));
            assert(all.subrange(0, i + 1).last() == file);
        }
        i = i + 1;
    }
    assert(all.subrange(0, i as int) =~= all);
    out
}

} // verus!
