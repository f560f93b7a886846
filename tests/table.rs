use icelake::{
    collect_data_files, metadata_path_for_version, parse_version_hint, relativize,
    resolve_metadata_path, select_latest_metadata, find_current_snapshot, is_metadata_file_name,
    next_version_probe, version_hint_path, VersionProbe, DataFile, ManifestFileEntry, ManifestListEntry, Snapshot, Table, TableError,
    TableFormatVersion, TableMetadata, VersionSource,
};
use opendal::services::Memory;
use opendal::Operator;

const SIMPLE_LOCATION: &str = "/opt/bitnami/spark/warehouse/db/table";
const NO_HINT_LOCATION: &str = "s3://testbucket/iceberg_data/iceberg_ctl/iceberg_db/iceberg_tbl";

fn memory_operator() -> Operator {
    Operator::new(Memory::default()).expect("memory backend builds").finish()
}

fn metadata(location: &str, last_updated_ms: i64, current: Option<i64>, snapshots: Option<Vec<Snapshot>>) -> TableMetadata {
    TableMetadata {
        format_version: TableFormatVersion::V1,
        location: location.to_string(),
        last_updated_ms,
        current_snapshot_id: current,
        snapshots,
    }
}

fn snapshot(id: i64, manifest_list: &str) -> Snapshot {
    Snapshot { snapshot_id: id, manifest_list: manifest_list.to_string() }
}

fn data_file_path(n: u32) -> String {
    format!(
        "{}/data/0000{}-{}-b8982382-f016-467a-84e4-5e6bbe0ff19a-00001.parquet",
        SIMPLE_LOCATION, n, n
    )
}

fn entry(path: String) -> ManifestFileEntry {
    ManifestFileEntry {
        snapshot_id: Some(2),
        data_file: DataFile { file_path: path, record_count: 1, file_size_in_bytes: 100 },
    }
}

/// The simple table's second version: one snapshot, id 2, as current.
fn simple_table_v2() -> TableMetadata {
    metadata(
        SIMPLE_LOCATION,
        1686911671713,
        Some(2),
        Some(vec![
            snapshot(1, &format!("{}/metadata/snap-1.avro", SIMPLE_LOCATION)),
            snapshot(2, &format!("{}/metadata/snap-2.avro", SIMPLE_LOCATION)),
        ]),
    )
}

#[test]
fn test_table_version_hint() {
    let version_hint = parse_version_hint(b"2").unwrap();
    assert_eq!(version_hint, 2);
}

#[test]
fn test_table_read_table_metadata() {
    assert_eq!(metadata_path_for_version(1), "metadata/v1.metadata.json");
    assert_eq!(metadata_path_for_version(2), "metadata/v2.metadata.json");

    let mut table = Table::new(memory_operator());
    table.install_metadata(metadata(SIMPLE_LOCATION, 1686911664577, None, None));
    let table_v1 = table.current_table_metadata().unwrap();
    assert_eq!(table_v1.format_version, TableFormatVersion::V1);
    assert_eq!(table_v1.last_updated_ms, 1686911664577);

    table.install_metadata(simple_table_v2());
    let table_v2 = table.current_table_metadata().unwrap();
    assert_eq!(table_v2.format_version, TableFormatVersion::V1);
    assert_eq!(table_v2.last_updated_ms, 1686911671713);
}

#[test]
fn test_table_load() {
    let path = resolve_metadata_path(&VersionSource::Hint(b"2".to_vec())).unwrap();
    assert_eq!(path, "metadata/v2.metadata.json");

    let mut table = Table::new(memory_operator());
    table.install_metadata(simple_table_v2());

    let table_metadata = table.current_table_metadata().unwrap();
    assert_eq!(table_metadata.format_version, TableFormatVersion::V1);
    assert_eq!(table_metadata.last_updated_ms, 1686911671713);
}

#[test]
fn test_table_load_without_version_hint() {
    let listing = vec![
        "metadata/v1.metadata.json".to_string(),
        "metadata/snap-1.avro".to_string(),
        "metadata/v2.metadata.json".to_string(),
    ];
    let path = resolve_metadata_path(&VersionSource::Listing(listing)).unwrap();
    assert_eq!(path, "metadata/v2.metadata.json");

    let mut table = Table::new(memory_operator());
    table.install_metadata(metadata(NO_HINT_LOCATION, 1672981042425, None, None));

    let table_metadata = table.current_table_metadata().unwrap();
    assert_eq!(table_metadata.format_version, TableFormatVersion::V1);
    assert_eq!(table_metadata.last_updated_ms, 1672981042425);
    assert_eq!(
        table_metadata.location,
        "s3://testbucket/iceberg_data/iceberg_ctl/iceberg_db/iceberg_tbl"
    );
}

#[test]
fn test_table_current_data_files() {
    let mut table = Table::new(memory_operator());
    table.install_metadata(simple_table_v2());

    let list_path = table.current_manifest_list_path().unwrap();
    assert_eq!(list_path, "/metadata/snap-2.avro");

    let list = vec![ManifestListEntry {
        manifest_path: format!("{}/metadata/manifest-0.avro", SIMPLE_LOCATION),
    }];
    let manifest_paths = table.manifest_file_paths(&list).unwrap();
    assert_eq!(manifest_paths, vec!["/metadata/manifest-0.avro".to_string()]);

    let manifest = vec![entry(data_file_path(0)), entry(data_file_path(1)), entry(data_file_path(2))];
    let data_files = collect_data_files(vec![manifest]);
    assert_eq!(data_files.len(), 3);
    assert_eq!(data_files[0].file_path, "/opt/bitnami/spark/warehouse/db/table/data/00000-0-b8982382-f016-467a-84e4-5e6bbe0ff19a-00001.parquet");
    assert_eq!(data_files[1].file_path, "/opt/bitnami/spark/warehouse/db/table/data/00001-1-b8982382-f016-467a-84e4-5e6bbe0ff19a-00001.parquet");
    assert_eq!(data_files[2].file_path, "/opt/bitnami/spark/warehouse/db/table/data/00002-2-b8982382-f016-467a-84e4-5e6bbe0ff19a-00001.parquet");
}

#[test]
fn hint_takes_precedence_over_listing() {
    // With a hint of "2", version 3 in the listing is never consulted.
    let from_hint = resolve_metadata_path(&VersionSource::Hint(b"2".to_vec())).unwrap();
    assert_eq!(from_hint, "metadata/v2.metadata.json");
    let from_listing = resolve_metadata_path(&VersionSource::Listing(vec![
        "metadata/v2.metadata.json".to_string(),
        "metadata/v3.metadata.json".to_string(),
    ]))
    .unwrap();
    assert_eq!(from_listing, "metadata/v3.metadata.json");
}

#[test]
fn fallback_orders_names_lexically() {
    let two = select_latest_metadata(&vec![
        "metadata/v10.metadata.json".to_string(),
        "metadata/v2.metadata.json".to_string(),
    ])
    .unwrap();
    assert_eq!(two, "metadata/v2.metadata.json");
    let three = select_latest_metadata(&vec![
        "metadata/v2.metadata.json".to_string(),
        "metadata/v1.metadata.json".to_string(),
        "metadata/v10.metadata.json".to_string(),
    ])
    .unwrap();
    assert_eq!(three, "metadata/v2.metadata.json");
}

#[test]
fn fallback_without_metadata_files_fails() {
    assert_eq!(select_latest_metadata(&vec![]), Err(TableError::NoMetadataFound));
    assert_eq!(
        select_latest_metadata(&vec!["metadata/version-hint.text".to_string(), "metadata/snap.avro".to_string()]),
        Err(TableError::NoMetadataFound)
    );
}

#[test]
fn metadata_file_names_are_recognized_by_suffix() {
    assert!(is_metadata_file_name("metadata/v1.metadata.json"));
    assert!(is_metadata_file_name(".metadata.json"));
    assert!(!is_metadata_file_name("metadata/v1.metadata.jso"));
    assert!(!is_metadata_file_name("metadata.json"));
}

#[test]
fn version_hint_parses_like_i32() {
    assert_eq!(parse_version_hint(b"10"), Ok(10));
    assert_eq!(parse_version_hint(b"+7"), Ok(7));
    assert_eq!(parse_version_hint(b"-3"), Ok(-3));
    assert_eq!(parse_version_hint(b"2147483647"), Ok(2147483647));
    assert_eq!(parse_version_hint(b"-2147483648"), Ok(-2147483648));
    assert_eq!(parse_version_hint(b"2147483648"), Err(TableError::MalformedVersionHint));
    assert_eq!(parse_version_hint(b""), Err(TableError::MalformedVersionHint));
    assert_eq!(parse_version_hint(b"-"), Err(TableError::MalformedVersionHint));
    assert_eq!(parse_version_hint(b"2\n"), Err(TableError::MalformedVersionHint));
    assert_eq!(parse_version_hint(b"v2"), Err(TableError::MalformedVersionHint));
    assert_eq!(parse_version_hint(&[0xff, 0x32]), Err(TableError::MalformedVersionHint));
}

#[test]
fn malformed_hint_fails_resolution() {
    assert_eq!(
        resolve_metadata_path(&VersionSource::Hint(b"two".to_vec())),
        Err(TableError::MalformedVersionHint)
    );
}

#[test]
fn metadata_paths_are_canonical() {
    assert_eq!(metadata_path_for_version(0), "metadata/v0.metadata.json");
    assert_eq!(metadata_path_for_version(1234), "metadata/v1234.metadata.json");
    assert_eq!(metadata_path_for_version(-15), "metadata/v-15.metadata.json");
    assert_eq!(metadata_path_for_version(i32::MIN), "metadata/v-2147483648.metadata.json");
}

#[test]
fn relativize_strips_the_location() {
    let location = "s3://bucket/table";
    assert_eq!(relativize("s3://bucket/table/metadata/x", location), Ok("/metadata/x".to_string()));
    assert_eq!(relativize("s3://bucket/table/", "s3://bucket/table/"), Ok(String::new()));
    assert_eq!(relativize("s3://bucket/tablemetadata/x", "s3://bucket/table/"), Err(TableError::PathNotUnderRoot { path: "s3://bucket/tablemetadata/x".to_string() }));
    assert_eq!(relativize("s3://other/metadata/x", location), Err(TableError::PathNotUnderRoot { path: "s3://other/metadata/x".to_string() }));
    assert_eq!(relativize("s3://b", location), Err(TableError::PathNotUnderRoot { path: "s3://b".to_string() }));
}

#[test]
fn rel_path_before_load_fails() {
    let table = Table::new(memory_operator());
    assert_eq!(table.rel_path("/x/metadata/y"), Err(TableError::LocationNotLoaded));
}

#[test]
fn rel_path_after_load() {
    let mut table = Table::new(memory_operator());
    table.install_metadata(metadata("/x", 5, None, None));
    assert_eq!(table.rel_path("/x/metadata/y"), Ok("/metadata/y".to_string()));
    assert_eq!(table.rel_path("/y/metadata/y"), Err(TableError::PathNotUnderRoot { path: "/y/metadata/y".to_string() }));
}

#[test]
fn accessors_before_load_fail_with_not_loaded() {
    let table = Table::new(memory_operator());
    assert_eq!(table.current_table_metadata(), Err(TableError::NotLoaded));
    assert_eq!(table.current_manifest_list_path(), Err(TableError::NotLoaded));
}

#[test]
fn reload_is_idempotent() {
    let mut table = Table::new(memory_operator());
    table.install_metadata(simple_table_v2());
    let first = table.current_table_metadata().unwrap().clone();
    table.install_metadata(simple_table_v2());
    let second = table.current_table_metadata().unwrap().clone();
    assert_eq!(first, second);
}

#[test]
fn snapshot_resolution_errors() {
    assert_eq!(find_current_snapshot(&metadata("/t", 1, None, None)), Err(TableError::NoCurrentSnapshot));
    assert_eq!(find_current_snapshot(&metadata("/t", 1, Some(2), None)), Err(TableError::NoSnapshots));
    assert_eq!(find_current_snapshot(&metadata("/t", 1, Some(2), Some(vec![]))), Err(TableError::NoSnapshots));
    assert_eq!(
        find_current_snapshot(&metadata("/t", 1, Some(9), Some(vec![snapshot(1, "/t/a")]))),
        Err(TableError::SnapshotNotFound(9))
    );
}

#[test]
fn first_matching_snapshot_wins() {
    let m = metadata("/t", 1, Some(4), Some(vec![snapshot(3, "/t/a"), snapshot(4, "/t/b"), snapshot(4, "/t/c")]));
    assert_eq!(find_current_snapshot(&m).unwrap().manifest_list, "/t/b");
}

#[test]
fn manifest_list_outside_location_fails() {
    let mut table = Table::new(memory_operator());
    table.install_metadata(metadata("/t", 1, Some(1), Some(vec![snapshot(1, "/elsewhere/list.avro")])));
    assert_eq!(
        table.current_manifest_list_path(),
        Err(TableError::PathNotUnderRoot { path: "/elsewhere/list.avro".to_string() })
    );
}

#[test]
fn manifest_file_paths_fail_fast() {
    let mut table = Table::new(memory_operator());
    table.install_metadata(metadata("/t", 1, None, None));
    let list = vec![
        ManifestListEntry { manifest_path: "/t/m0.avro".to_string() },
        ManifestListEntry { manifest_path: "/u/m1.avro".to_string() },
        ManifestListEntry { manifest_path: "/v/m2.avro".to_string() },
    ];
    assert_eq!(
        table.manifest_file_paths(&list),
        Err(TableError::PathNotUnderRoot { path: "/u/m1.avro".to_string() })
    );
}

#[test]
fn data_files_keep_file_and_entry_order() {
    let a = vec![entry("/t/a0".to_string()), entry("/t/a1".to_string())];
    let b: Vec<ManifestFileEntry> = vec![];
    let c = vec![entry("/t/c0".to_string()), entry("/t/a0".to_string())];
    let files = collect_data_files(vec![a, b, c]);
    let paths: Vec<&str> = files.iter().map(|f| f.file_path.as_str()).collect();
    assert_eq!(paths, vec!["/t/a0", "/t/a1", "/t/c0", "/t/a0"]);
    assert!(collect_data_files(vec![]).is_empty());
}

#[test]
fn hint_is_probed_before_listing() {
    assert_eq!(version_hint_path(), "metadata/version-hint.text");
    match next_version_probe(true) {
        VersionProbe::ReadHint(p) => assert_eq!(p, "metadata/version-hint.text"),
        VersionProbe::ListMetadata(_) => panic!("listed although the hint exists"),
    }
    match next_version_probe(false) {
        VersionProbe::ListMetadata(p) => assert_eq!(p, "metadata/"),
        VersionProbe::ReadHint(_) => panic!("read a hint that does not exist"),
    }
}

#[test]
fn cache_lookup_by_version() {
    let mut table = Table::new(memory_operator());
    assert_eq!(table.metadata_for_version(1686911664577), Err(TableError::NotLoaded));
    table.install_metadata(metadata(SIMPLE_LOCATION, 1686911664577, None, None));
    table.install_metadata(simple_table_v2());
    assert_eq!(table.metadata_for_version(1686911664577).unwrap().last_updated_ms, 1686911664577);
    assert_eq!(table.metadata_for_version(1686911671713).unwrap().last_updated_ms, 1686911671713);
    assert_eq!(table.metadata_for_version(42), Err(TableError::MetadataNotFound(42)));
}

#[test]
fn zero_timestamp_reads_as_not_loaded() {
    let mut table = Table::new(memory_operator());
    table.install_metadata(metadata("/t", 0, None, None));
    assert_eq!(table.current_table_metadata(), Err(TableError::NotLoaded));
    assert_eq!(table.rel_path("/t/x"), Ok("/x".to_string()));
}
