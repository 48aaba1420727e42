//! Datasets, writes, sessions, cache directories and texts.

use lance_c::dataset::{
    dataset_schema_inner, dataset_take_inner, dataset_take_rows_inner, lance_dataset_count_rows,
    lance_dataset_fragment_count, lance_dataset_fragment_ids,
    lance_dataset_get_data_cache_statistics, lance_dataset_latest_version, lance_dataset_version,
    open_dataset_inner, open_dataset_with_session_inner, projection_from_columns, LanceDataset,
    OpenSession, ProjectionFailure,
};
use lance_c::data_cache::LanceDataCacheStatistics;
use lance_c::error::{ffi_try, LanceError, LanceErrorCode, LastError};
use lance_c::foyer_cache::{
    cache_setup_error, check_layout, expected_layout, is_partition_file, lock_directory,
    session_new_with_foyer_cache_inner, validate_disk_cache_sizes, CachePart, DirectoryFile,
    DirectoryState, DirectoryVerdict, FoyerSessionPlan, LanceFoyerCacheOptions, LayoutStep,
    PartitionError, PartitionScan,
};
use lance_c::foyer_data_cache::FoyerDataCacheStatistics;
use lance_c::helpers::{optional_c_string, parse_c_string, require_c_string, CStringArg};
use lance_c::restore::restore_inner;
use lance_c::session::{
    lance_session_get_cache_stats, session_new_with_factories, u64_to_usize, CacheStats,
    LanceSessionCacheStats, SessionPlan,
};
use lance_c::text;
use lance_c::text::IntegerError;
use lance_c::writer::{
    apply_write_params, write_dataset_inner, LanceWriteMode, LanceWriteParams, SchemaArg,
    StreamArg, VersionFailure, WriteRequest,
};

fn given(value: &str) -> CStringArg {
    CStringArg::Text(value.to_owned())
}

fn message<T>(result: Result<T, LanceError>) -> String {
    result.err().unwrap().message
}

/// A dataset as the handle's tests see it.
#[derive(Clone, Debug, PartialEq)]
struct Table {
    uri: String,
    version: u64,
    ids: Vec<i32>,
}

impl Table {
    fn new(uri: &str) -> Table {
        Table { uri: uri.to_owned(), version: 1, ids: vec![1, 2, 3] }
    }

    /// Deletes the row `id = 1`.
    fn delete_first(&mut self) -> usize {
        let before = self.ids.len();
        self.ids.retain(|id| *id != 1);
        self.version += 1;
        before - self.ids.len()
    }
}

#[test]
fn with_mut_mutation_is_visible_via_snapshot() {
    let mut handle = LanceDataset::new(Table::new("with_mut_ds"));
    assert_eq!(handle.snapshot().version, 1);

    let mut working = handle.snapshot().clone();
    assert_eq!(working.delete_first(), 1);
    handle.with_mut(working, true);

    assert_eq!(handle.snapshot().version, 2);
    assert_eq!(handle.snapshot().ids.len(), 2);
}

#[test]
fn with_mut_panic_rolls_back_and_handle_stays_usable() {
    let mut handle = LanceDataset::new(Table::new("with_mut_ds"));
    let replacement = Table::new("replacement");
    let uri_before = handle.snapshot().uri.clone();
    assert_ne!(replacement.uri, uri_before);

    handle.with_mut(replacement, false);
    assert_eq!(handle.snapshot().version, 1);
    assert_eq!(handle.snapshot().uri, uri_before);
    assert_eq!(handle.snapshot().ids.len(), 3);

    let mut working = handle.snapshot().clone();
    assert_eq!(working.delete_first(), 1);
    handle.with_mut(working, true);
    assert_eq!(handle.snapshot().version, 2);
    assert_eq!(handle.snapshot().ids.len(), 2);
}

#[test]
fn datasets_are_opened_by_uri_and_version() {
    let options = || Ok(vec![("region".to_owned(), "eu".to_owned())]);
    let plan = open_dataset_inner(&given("file:///d"), options(), 3, None).ok().unwrap();
    assert!(!plan.in_session);
    assert!(!plan.attach_data_cache);
    assert_eq!(plan.uri, "file:///d");
    assert_eq!(plan.version, Some(3));
    assert_eq!(plan.storage_options.unwrap()[0].1, "eu");
    let plan = open_dataset_inner(&given("file:///d"), Ok(vec![]), 0, None).ok().unwrap();
    assert_eq!(plan.version, None);
    assert!(plan.storage_options.is_none());
    assert_eq!(
        message(open_dataset_inner(&CStringArg::Null, Ok(vec![]), 0, None)),
        "uri must not be NULL"
    );
    assert_eq!(
        message(open_dataset_with_session_inner(&given("d"), Ok(vec![]), 0, None)),
        "session must not be NULL"
    );
    for has_data_cache_factory in [false, true] {
        let session = Some(OpenSession { has_data_cache_factory });
        let plan = open_dataset_with_session_inner(&given("d"), Ok(vec![]), 0, session);
        let plan = plan.ok().unwrap();
        assert!(plan.in_session);
        assert_eq!(plan.attach_data_cache, has_data_cache_factory);
    }
}

#[test]
fn dataset_numbers_are_zero_on_failure() {
    let mut last = LastError::new();
    assert_eq!(lance_dataset_version(&mut last, Some(7)), 7);
    assert_eq!(lance_dataset_fragment_count(&mut last, Some(2)), 2);
    assert_eq!(lance_dataset_count_rows(&mut last, Some(Ok(9))), 9);
    assert_eq!(lance_dataset_latest_version(&mut last, Some(Ok(4))), 4);
    assert_eq!(last.code(), LanceErrorCode::Success);
    assert_eq!(lance_dataset_version(&mut last, None), 0);
    assert!(last.message().starts_with("Invalid user input: dataset is NULL, "));
    let failed = LanceError::new(LanceErrorCode::IoError, "disk".to_owned());
    assert_eq!(lance_dataset_count_rows(&mut last, Some(Err(failed))), 0);
    assert_eq!((last.code(), last.message().as_str()), (LanceErrorCode::IoError, "disk"));
}

#[test]
fn takes_check_their_pointers() {
    let columns = || Ok(Some(vec!["id".to_owned()]));
    assert!(dataset_take_inner(false, false, false, columns()).ok().unwrap().is_some());
    assert_eq!(
        message(dataset_take_inner(false, true, false, columns())),
        "dataset, indices, and out must not be NULL"
    );
    assert_eq!(
        message(dataset_take_rows_inner(false, true, 2, false, columns())),
        "row_ids must not be NULL when num_row_ids = 2"
    );
    assert!(dataset_take_rows_inner(false, true, 0, false, columns()).is_ok());
    assert_eq!(
        message(dataset_take_rows_inner(true, false, 1, false, columns())),
        "dataset must not be NULL"
    );
    assert_eq!(
        message(dataset_take_rows_inner(false, false, 1, true, columns())),
        "out must not be NULL"
    );
    assert_eq!(message(dataset_schema_inner(true, false)), "dataset and out must not be NULL");
    assert!(dataset_schema_inner(false, false).is_ok());
    let failed = ProjectionFailure { columns: "[\"x\"]".to_owned(), reason: "no".to_owned() };
    let text = message(projection_from_columns(Some(vec!["x".to_owned()]), Some(failed)));
    assert!(text.starts_with("invalid columns [\"x\"]"), "got: {text}");
    assert!(projection_from_columns(None, None).ok().unwrap().is_none());
}

#[test]
fn fragment_ids_are_copied_out() {
    let mut last = LastError::new();
    let mut out = vec![0; 3];
    let ids = vec![4, 6];
    assert_eq!(lance_dataset_fragment_ids(&mut last, Some(&ids), Some(&mut out)), 0);
    assert_eq!(out, vec![4, 6, 0]);
    assert_eq!(lance_dataset_fragment_ids(&mut last, None, Some(&mut out)), -1);
    assert!(last.message().starts_with("Invalid user input: dataset and out_ids must not be NULL, "));
}

#[test]
fn cache_statistics_are_copied_out() {
    let mut last = LastError::new();
    let mut scope = FoyerDataCacheStatistics::default();
    scope.record(1, 2);
    let mut out = LanceDataCacheStatistics::default();
    let status =
        lance_dataset_get_data_cache_statistics(&mut last, Some(Some(&scope)), Some(&mut out));
    assert_eq!(status, 0);
    assert_eq!((out.bytes_read_from_cache, out.bytes_read_from_remote), (1, 2));
    let status = lance_dataset_get_data_cache_statistics(&mut last, Some(None), Some(&mut out));
    assert_eq!(status, 0);
    assert_eq!(out, LanceDataCacheStatistics::default());
    assert_eq!(lance_dataset_get_data_cache_statistics(&mut last, None, Some(&mut out)), -1);
}

#[test]
fn restores_name_a_version() {
    let plan = restore_inner(false, 3, true).ok().unwrap();
    assert_eq!(plan.version, 3);
    assert!(plan.commit);
    assert!(plan.attach_data_cache);
    assert_eq!(
        message(restore_inner(false, 0, false)),
        "version must be >= 1; 0 is reserved as the \"latest\" sentinel"
    );
    assert_eq!(message(restore_inner(true, 3, false)), "dataset must not be NULL");
}

fn write_params() -> LanceWriteParams {
    LanceWriteParams {
        max_rows_per_file: 0,
        max_rows_per_group: 0,
        max_bytes_per_file: 0,
        data_storage_version: CStringArg::Null,
        enable_stable_row_ids: false,
    }
}

fn write_request() -> WriteRequest {
    WriteRequest {
        uri: given("file:///d"),
        schema: SchemaArg::Schema("id: Int32".to_owned()),
        stream: StreamArg::Stream { schema: "id: Int32".to_owned(), fields_match: true },
        mode: 1,
        params: None,
        version_failure: None,
        storage_options: Ok(vec![]),
    }
}

#[test]
fn write_parameters_of_zero_are_defaults() {
    let overrides = apply_write_params(&write_params(), None).ok().unwrap();
    assert_eq!(overrides.max_rows_per_file, None);
    assert_eq!(overrides.data_storage_version, None);
    let params = LanceWriteParams {
        max_rows_per_file: 10,
        data_storage_version: given("2.1"),
        enable_stable_row_ids: true,
        ..write_params()
    };
    let overrides = apply_write_params(&params, None).ok().unwrap();
    assert_eq!(overrides.max_rows_per_file, Some(10));
    assert_eq!(overrides.data_storage_version.as_deref(), Some("2.1"));
    assert_eq!(overrides.enable_stable_row_ids, Some(true));
    let params = LanceWriteParams { data_storage_version: given(""), ..write_params() };
    assert_eq!(
        message(apply_write_params(&params, None)),
        "data_storage_version must not be an empty string"
    );
    let params = LanceWriteParams { data_storage_version: given("9"), ..write_params() };
    let failure = VersionFailure { quoted: "\"9\"".to_owned(), reason: "unknown".to_owned() };
    let text = message(apply_write_params(&params, Some(failure)));
    assert!(text.starts_with("invalid data_storage_version \"9\""), "got: {text}");
}

#[test]
fn writes_check_their_arguments() {
    let plan = write_dataset_inner(write_request()).ok().unwrap();
    assert_eq!(plan.uri, "file:///d");
    assert_eq!(plan.mode, LanceWriteMode::Append);
    assert!(plan.overrides.is_none());
    let rejected = |request: WriteRequest| message(write_dataset_inner(request));
    assert_eq!(
        rejected(WriteRequest { stream: StreamArg::Null, ..write_request() }),
        "stream must not be NULL"
    );
    assert_eq!(
        rejected(WriteRequest { uri: CStringArg::Null, ..write_request() }),
        "uri must not be NULL"
    );
    assert_eq!(
        rejected(WriteRequest { uri: given(""), ..write_request() }),
        "uri must not be empty"
    );
    assert_eq!(
        rejected(WriteRequest { schema: SchemaArg::Null, ..write_request() }),
        "schema must not be NULL"
    );
    assert_eq!(
        rejected(WriteRequest { schema: SchemaArg::Invalid("x".to_owned()), ..write_request() }),
        "invalid schema: x"
    );
    let other = StreamArg::Stream { schema: "b".to_owned(), fields_match: false };
    let text = rejected(WriteRequest { stream: other, ..write_request() });
    assert!(text.starts_with("stream schema does not match the provided schema."), "got: {text}");
    let text = message(LanceWriteMode::from_raw(3));
    assert!(text.starts_with("invalid write mode 3"), "got: {text}");
    assert_eq!(LanceWriteMode::from_raw(0).ok(), Some(LanceWriteMode::Create));
    assert_eq!(LanceWriteMode::from_raw(2).ok(), Some(LanceWriteMode::Overwrite));
}

#[test]
fn rejects_unusable_storage_geometry() {
    assert!(validate_disk_cache_sizes(1024 * 1024, 4096).is_err());
    assert!(validate_disk_cache_sizes(3 * 65536, 65536).is_err());
    assert!(validate_disk_cache_sizes(4 * 65536, 65536).is_ok());
    assert!(validate_disk_cache_sizes(4 * 65536 + 1, 65536).is_err());
}

/// A cache directory: its layout record and its partitions.
struct Directory {
    layout: String,
    partitions: Vec<(String, u64)>,
    listing_failed: bool,
}

fn decide(directory: &Directory, capacity: usize, block: usize) -> DirectoryVerdict {
    let state = DirectoryState {
        quoted_path: "\"cache\"".to_owned(),
        layout: directory.layout.clone(),
        quoted_layout: format!("{:?}", directory.layout),
        quoted_expected: format!("{:?}", expected_layout(capacity, block)),
        files: directory
            .partitions
            .iter()
            .map(|(name, size)| DirectoryFile {
                name: name.clone(),
                quoted_path: format!("\"cache/{name}\""),
                size: *size,
            })
            .collect(),
        listing_failed: directory.listing_failed,
    };
    lock_directory(&state, capacity, block)
}

fn open_directory(directory: &mut Directory, capacity: usize, block: usize) -> Result<(), String> {
    match decide(directory, capacity, block) {
        DirectoryVerdict::Keep => Ok(()),
        DirectoryVerdict::Record(line) => {
            directory.layout = line;
            Ok(())
        }
        DirectoryVerdict::Refuse(reason) => Err(reason),
        DirectoryVerdict::ListingFailed => Err("listing".to_owned()),
    }
}

#[test]
fn rejects_layout_changes_and_legacy_partition_truncation() {
    let mut directory = Directory { layout: String::new(), partitions: vec![], listing_failed: false };
    open_directory(&mut directory, 1024 * 1024, 65536).unwrap();
    assert!(open_directory(&mut directory, 2 * 1024 * 1024, 65536).is_err());
    assert!(open_directory(&mut directory, 1024 * 1024, 131072).is_err());
    open_directory(&mut directory, 1024 * 1024, 65536).unwrap();

    let mut legacy = Directory {
        layout: String::new(),
        partitions: vec![("foyer-storage-direct-fs-00000000".to_owned(), 65536)],
        listing_failed: false,
    };
    assert!(open_directory(&mut legacy, 1024 * 1024, 131072).is_err());
    assert_eq!(legacy.partitions[0].1, 65536);
    open_directory(&mut legacy, 1024 * 1024, 65536).unwrap();
}

#[test]
fn layouts_are_recorded_on_one_line() {
    assert_eq!(expected_layout(1048576, 65536), "lance-disk-v1 1048576 65536\n");
    assert_eq!(check_layout("", 1048576, 65536), LayoutStep::Adopt);
    assert_eq!(check_layout("lance-disk-v1 1048576 65536", 1048576, 65536), LayoutStep::Mismatch);
    assert!(is_partition_file("foyer-storage-direct-fs-00000012"));
    assert!(!is_partition_file("lance-index-generation"));
}

#[test]
fn partitions_must_fit_the_layout() {
    let mut scan = PartitionScan::new();
    assert_eq!(scan.note(10, 65536), Err(PartitionError::Size { size: 10, expected: 65536 }));
    for _ in 0..5 {
        scan.note(65536, 65536).unwrap();
    }
    assert_eq!(
        scan.finish(4 * 65536, 65536),
        Err(PartitionError::TooMany { partitions: 5, disk_capacity: 4 * 65536 })
    );
}

#[test]
fn directories_are_refused_for_one_reason() {
    let partition = |number: usize| (format!("foyer-storage-direct-fs-{number:08}"), 65536);
    let mut full = Directory {
        layout: String::new(),
        partitions: (0..5).map(partition).collect(),
        listing_failed: false,
    };
    full.partitions.push(("lance-index-generation".to_owned(), 3));
    assert_eq!(
        open_directory(&mut full, 4 * 65536, 65536),
        Err("cache directory \"cache\" has 5 partitions exceeding disk_capacity_bytes=262144; use a new cache directory".to_owned())
    );
    full.listing_failed = true;
    assert!(matches!(decide(&full, 4 * 65536, 65536), DirectoryVerdict::ListingFailed));
    full.partitions[1].1 = 7;
    assert_eq!(
        open_directory(&mut full, 4 * 65536, 65536),
        Err("cache partition \"cache/foyer-storage-direct-fs-00000001\" has size 7, expected 65536; use a new cache directory".to_owned())
    );
    full.layout = "other".to_owned();
    assert_eq!(
        open_directory(&mut full, 4 * 65536, 65536),
        Err("cache directory \"cache\" has layout \"other\", requested \"lance-disk-v1 262144 65536\\n\"; use a new cache directory when changing disk capacity or storage block size".to_owned())
    );
    full.layout = expected_layout(4 * 65536, 65536);
    assert!(open_directory(&mut full, 4 * 65536, 65536).is_ok());
}

#[test]
fn errors_of_lance_are_displayed_by_lance() {
    let text = || "why".to_owned();
    for (error, code, shown) in [
        (LanceError::invalid("why"), LanceErrorCode::InvalidArgument, "Invalid user input: why, "),
        (LanceError::io(text()), LanceErrorCode::IoError, "LanceError(IO): why, "),
        (LanceError::not_supported(text()), LanceErrorCode::NotSupported, "Not supported: why, "),
        (
            LanceError::internal(text()),
            LanceErrorCode::Internal,
            "Encountered internal error. Please file a bug report at https://github.com/lance-format/lance/issues. why, ",
        ),
        (
            LanceError::index_not_found(text()),
            LanceErrorCode::IndexError,
            "Lance index not found: why, ",
        ),
    ] {
        assert_eq!(error.code, code);
        assert!(error.text().starts_with(shown), "got: {}", error.text());
        assert!(error.text().len() > shown.len());
        let mut last = LastError::new();
        last.set_lance_error(error);
        assert!(last.take_message().unwrap().starts_with(shown));
        assert_eq!(last.code(), LanceErrorCode::Success);
    }
    assert_eq!(LanceError::new(LanceErrorCode::Panic, text()).text(), "why");
}

#[test]
fn cache_setups_fail_with_io_errors() {
    let error = cache_setup_error(CachePart::Disk, "/c", "locked");
    assert_eq!(error.code, LanceErrorCode::IoError);
    assert!(error.message.starts_with("failed to initialize Foyer cache at "));
    let error = cache_setup_error(CachePart::IndexGeneration, "/c", "locked");
    assert!(error.message.starts_with("failed to initialize index cache generation at "));
}

#[test]
fn sessions_take_sizes() {
    assert_eq!(
        session_new_with_factories(1, 2, false).ok().unwrap(),
        SessionPlan::InMemory { index_cache_size_bytes: 1, metadata_cache_size_bytes: 2 }
    );
    assert_eq!(
        session_new_with_factories(1, 2, true).ok().unwrap(),
        SessionPlan::WithIndexBackend { metadata_cache_size_bytes: 2 }
    );
    assert_eq!(u64_to_usize(5, "field").ok(), Some(5));
    let options = LanceFoyerCacheOptions {
        directory: given("/cache"),
        disk_capacity_bytes: 256 * 1024 * 1024,
    };
    let plan = session_new_with_foyer_cache_inner(1, 2, Some(&options)).ok().unwrap();
    let FoyerSessionPlan::OnDisk { directory, disk_capacity, memory_capacity, .. } = plan else {
        panic!("options ask for a disk cache");
    };
    assert_eq!((directory.as_str(), disk_capacity, memory_capacity), ("/cache", 256 * 1024 * 1024, 1));
    let unnamed = LanceFoyerCacheOptions { directory: given(""), disk_capacity_bytes: 1 };
    assert_eq!(
        message(session_new_with_foyer_cache_inner(1, 2, Some(&unnamed))),
        "foyer_cache_options.directory must not be empty"
    );
    let plan = session_new_with_foyer_cache_inner(1, 2, None).ok().unwrap();
    assert!(matches!(plan, FoyerSessionPlan::InMemory { index_cache_size_bytes: 1, .. }));
}

#[test]
fn session_statistics_are_copied_out() {
    let mut last = LastError::new();
    let index = CacheStats { hits: 1, misses: 2, num_entries: 3, size_bytes: 4 };
    let metadata = CacheStats { hits: 5, misses: 6, num_entries: 7, size_bytes: 8 };
    let mut out = LanceSessionCacheStats {
        index_cache_hits: 0,
        index_cache_misses: 0,
        index_cache_entries: 0,
        index_cache_size_bytes: 0,
        metadata_cache_hits: 0,
        metadata_cache_misses: 0,
        metadata_cache_entries: 0,
        metadata_cache_size_bytes: 0,
    };
    let status = lance_session_get_cache_stats(&mut last, Some((index, metadata)), Some(&mut out));
    assert_eq!(status, 0);
    assert_eq!((out.index_cache_hits, out.index_cache_size_bytes), (1, 4));
    assert_eq!((out.metadata_cache_misses, out.metadata_cache_entries), (6, 7));
    assert_eq!(lance_session_get_cache_stats(&mut last, None, Some(&mut out)), -1);
    assert!(last.message().starts_with("Invalid user input: session and out_stats must not be NULL, "));
}

#[test]
fn c_strings_are_checked() {
    assert_eq!(parse_c_string(&CStringArg::Null).ok().unwrap(), None);
    assert_eq!(parse_c_string(&given("a")).ok().unwrap(), Some("a"));
    assert_eq!(message(parse_c_string(&CStringArg::Malformed)), "C string is not valid UTF-8");
    assert_eq!(message(require_c_string(&CStringArg::Null, "needed")), "needed");
    assert_eq!(require_c_string(&given("a"), "needed").ok(), Some("a"));
    assert_eq!(optional_c_string(&given("")).ok().unwrap(), Some(String::new()));
    assert_eq!(optional_c_string(&CStringArg::Null).ok().unwrap(), None);
}

#[test]
fn outcomes_become_statuses() {
    let mut last = LastError::new();
    assert_eq!(ffi_try(&mut last, Err(LanceError::invalid("no"))), -1);
    assert_eq!(last.code(), LanceErrorCode::InvalidArgument);
    assert!(last.message().starts_with("Invalid user input: no, "));
    assert_eq!(ffi_try(&mut last, Ok(())), 0);
    assert_eq!(last.code(), LanceErrorCode::Success);
}

#[test]
fn numbers_are_written_and_read() {
    let mut out = String::from("n=");
    text::push_decimal(&mut out, u64::MAX);
    text::push_signed(&mut out, i64::MIN);
    assert_eq!(out, "n=18446744073709551615-9223372036854775808");
    let mut out = String::new();
    text::push_decimal(&mut out, 0);
    text::push_hex(&mut out, &[0, 0xab, 0x0f]);
    assert_eq!(out, "000ab0f");
    assert_eq!(text::parse_unsigned("007", 255), Ok(7));
    assert_eq!(text::parse_unsigned("256", 255), Err(IntegerError::TooLarge));
    assert_eq!(text::parse_unsigned("+", 255), Err(IntegerError::InvalidDigit));
    assert_eq!(text::parse_unsigned("", 255), Err(IntegerError::Empty));
    assert_eq!(text::parse_i32("-2147483648"), Ok(i32::MIN));
    assert_eq!(text::parse_i32("-2147483649"), Err(IntegerError::TooSmall));
    assert_eq!(text::parse_i32("2147483648"), Err(IntegerError::TooLarge));
    assert_eq!(text::parse_i32("1x"), Err(IntegerError::InvalidDigit));
    for bad in ["", "x", "99999999999", "-99999999999"] {
        let expected = bad.parse::<i32>().unwrap_err().to_string();
        assert_eq!(text::parse_i32(bad).unwrap_err().message(), expected);
    }
}

#[test]
fn texts_are_compared_and_cut() {
    let mut out = String::new();
    text::push_uuid(&mut out, &[0x12; 16]);
    assert_eq!(out, "12121212-1212-1212-1212-121212121212");
    assert!(text::same_text("a", "a"));
    assert!(!text::same_text("a", "ab"));
    assert!(text::ends_with("file.lance", ".lance"));
    assert!(!text::ends_with("e", ".lance"));
    assert!(text::starts_with("abc", "ab"));
    assert!(!text::starts_with("a", "ab"));
    assert_eq!(text::find_last("a/b/c", '/'), Some(3));
    assert_eq!(text::find_last("abc", '/'), None);
    assert_eq!(text::trim(" \t17\n\u{3000}"), "17");
    assert_eq!(text::trim("  "), "");
}
