//! The data cache, driven over in-memory stand-ins for the cache and the store.

use std::collections::BTreeMap;
use std::ops::Range;

use bytes::Bytes;
use lance_c::data_blocks::{
    assemble_range, requested_bytes_by_cache_status, BlockTable, DataCacheError,
};
use lance_c::data_cache::LanceDataCacheStatistics;
use lance_c::data_read::{
    begin_read, lookup_concurrency, plan_read, total_bytes, LookupVerdict, ReadEnd, ReadStart,
};
use lance_c::foyer_data_cache::{
    is_cache_safe_get, next_chunk, parse_size_entry, plan_get, serves_get, single_result,
    size_entry, FoyerDataCache, FoyerDataCacheStatistics, GetConditions, GetPlan, RequestedRange,
    WrapperRegistry,
};

const STORE_PREFIX: &str = "memory://test";

struct Origin {
    objects: BTreeMap<String, Bytes>,
}

impl Origin {
    fn new() -> Origin {
        Origin { objects: BTreeMap::new() }
    }

    fn put(&mut self, location: &str, data: Bytes) {
        self.objects.insert(location.to_owned(), data);
    }

    fn delete(&mut self, location: &str) {
        self.objects.remove(location);
    }

    fn get_ranges(&self, location: &str, ranges: &[Range<u64>]) -> Result<Vec<Bytes>, String> {
        let object = self.objects.get(location).ok_or("no such object".to_owned())?;
        let mut out = Vec::new();
        for range in ranges {
            if range.start >= object.len() as u64 || range.start >= range.end {
                return Err("bad range".to_owned());
            }
            let end = range.end.min(object.len() as u64);
            out.push(object.slice(range.start as usize..end as usize));
        }
        Ok(out)
    }
}

struct Disk {
    cache: FoyerDataCache,
    entries: BTreeMap<String, Bytes>,
}

impl Disk {
    fn new(read_block_size: usize) -> Disk {
        Disk { cache: FoyerDataCache { read_block_size }, entries: BTreeMap::new() }
    }

    fn object_size(&mut self, origin: &Origin, location: &str) -> Result<u64, String> {
        let key = self.cache.size_key(STORE_PREFIX, location);
        if let Some(entry) = self.entries.get(&key) {
            if let Some(size) = parse_size_entry(entry) {
                return Ok(size);
            }
        }
        let object = origin.objects.get(location).ok_or("no such object".to_owned())?;
        let size = object.len() as u64;
        self.entries.insert(key, size_entry(size));
        Ok(size)
    }

    fn get_ranges(
        &mut self,
        origin: &Origin,
        statistics: &mut FoyerDataCacheStatistics,
        location: &str,
        ranges: &[Range<u64>],
    ) -> Result<Vec<Bytes>, String> {
        if !FoyerDataCache::is_cacheable_data_file(location) {
            return origin.get_ranges(location, ranges);
        }
        match begin_read(ranges) {
            ReadStart::Empty => return Ok(Vec::new()),
            ReadStart::Origin => return self.bypass(origin, statistics, location, ranges),
            ReadStart::NeedsSize => {}
        }
        let size = self.object_size(origin, location)?;
        let mut read = match plan_read(ranges, size, self.cache.read_block_size) {
            Some(read) => read,
            None => return self.bypass(origin, statistics, location, ranges),
        };
        for index in read.blocks_to_look_up().clone() {
            let key = self.cache.key(STORE_PREFIX, location, index);
            let found = self.entries.get(&key).cloned();
            if read.note_lookup(index, found) == LookupVerdict::Malformed {
                self.entries.remove(&key);
            }
        }
        let mut plan = match read.close_lookups() {
            Ok(plan) => plan,
            Err(error) => return Err(error.message(location)),
        };
        if !plan.runs.is_empty() {
            let fetched = origin.get_ranges(location, &plan.runs)?;
            assert!(plan.replies_fit(&fetched));
            for (index, octets) in plan.absorb(&fetched) {
                self.entries.insert(self.cache.key(STORE_PREFIX, location, index), octets);
            }
        }
        assert!(plan.finishable());
        match plan.finish() {
            ReadEnd::Serve { buffers, bytes_read_from_cache, bytes_read_from_remote } => {
                statistics.record(bytes_read_from_cache, bytes_read_from_remote);
                Ok(buffers)
            }
            ReadEnd::Bypass { .. } => self.bypass(origin, statistics, location, ranges),
        }
    }

    fn bypass(
        &self,
        origin: &Origin,
        statistics: &mut FoyerDataCacheStatistics,
        location: &str,
        ranges: &[Range<u64>],
    ) -> Result<Vec<Bytes>, String> {
        let octets = origin.get_ranges(location, ranges)?;
        statistics.record(0, total_bytes(&octets));
        Ok(octets)
    }

    fn get(
        &mut self,
        origin: &Origin,
        statistics: &mut FoyerDataCacheStatistics,
        location: &str,
        requested: Option<RequestedRange>,
    ) -> Result<Vec<u8>, String> {
        let size = self.object_size(origin, location)?;
        let (start, end) = match plan_get(requested, size) {
            GetPlan::Stream { start, end } => (start, end),
            GetPlan::Origin => return Err("the store decides".to_owned()),
        };
        let mut remaining = start..end;
        let mut out = Vec::new();
        while let Some(chunk) = next_chunk(&remaining, self.cache.read_block_size) {
            remaining.start = chunk.end;
            let buffers = self.get_ranges(origin, statistics, location, &[chunk])?;
            out.extend_from_slice(&single_result(buffers).unwrap());
        }
        Ok(out)
    }
}

fn counted(len: usize) -> Bytes {
    Bytes::from((0..len).map(|value| value as u8).collect::<Vec<_>>())
}

fn statistics(cache: u64, remote: u64) -> LanceDataCacheStatistics {
    LanceDataCacheStatistics { bytes_read_from_cache: cache, bytes_read_from_remote: remote }
}

fn no_conditions() -> GetConditions {
    GetConditions {
        head: false,
        if_match: false,
        if_none_match: false,
        if_modified_since: false,
        if_unmodified_since: false,
        version: false,
        extensions: false,
    }
}

#[test]
fn assemble_range_rejects_incomplete_cached_coverage() {
    let location = "table.lance/data/part-0.lance";
    let full_block = Bytes::from_static(b"abcdefgh");
    for (range, short_index, short_len) in [
        (0..8, 0, 4),
        (2..8, 0, 4),
        (4..8, 0, 4),
        (6..8, 0, 4),
        (0..8, 0, 0),
        (0..24, 0, 4),
        (0..24, 1, 4),
        (0..24, 2, 4),
        (0..24, 1, 0),
    ] {
        let mut blocks = BTreeMap::from([
            (0, Some(full_block.clone())),
            (1, Some(full_block.clone())),
            (2, Some(full_block.clone())),
        ]);
        blocks.insert(short_index, Some(full_block.slice(..short_len)));
        let error = assemble_range(&range, 8, &blocks).unwrap_err().message(location);
        assert!(
            error.contains("short data-cache block"),
            "range={range:?}, short_index={short_index}, short_len={short_len}: {error}"
        );
    }
}

#[test]
fn assemble_range_preserves_exact_slices_and_eof_tail() {
    let data = Bytes::from_static(b"abcdefghijk");
    let blocks = BTreeMap::from([(0, Some(data.slice(..8))), (1, Some(data.slice(8..)))]);
    for range in [0..0, 0..8, 2..6, 3..11, 8..11, 9..11] {
        assert_eq!(
            assemble_range(&range, 8, &blocks).unwrap(),
            data.slice(range.start as usize..range.end as usize),
            "range={range:?}"
        );
    }
    assert!(assemble_range(&(0..0), 8, &BTreeMap::new()).unwrap().is_empty());
}

#[test]
fn assemble_range_names_what_is_missing() {
    let location = "t.lance/data/a.lance";
    let missing = BTreeMap::from([(0, Some(Bytes::from_static(b"abcd"))), (1, None)]);
    let error = assemble_range(&(2..6), 4, &missing).unwrap_err();
    assert_eq!(error, DataCacheError::MissingBlock { block: 1 });
    assert_eq!(
        error.message(location),
        "missing block 1 for t.lance/data/a.lance"
    );

    let short = BTreeMap::from([(0, Some(Bytes::from_static(b"ab")))]);
    let error = assemble_range(&(1..4), 4, &short).unwrap_err();
    assert_eq!(error, DataCacheError::ShortBlock { block: 0, start: 1, end: 4, len: 2 });
}

#[test]
fn requested_bytes_are_split_by_cached_blocks() {
    let blocks = BTreeMap::from([
        (0, Some(Bytes::from_static(b"abcd"))),
        (1, None),
        (2, Some(Bytes::from_static(b"ijkl"))),
    ]);
    assert_eq!(requested_bytes_by_cache_status(&[0..12], 4, &blocks), (8, 4));
    assert_eq!(requested_bytes_by_cache_status(&[3..6, 7..9], 4, &blocks), (2, 3));
    assert_eq!(requested_bytes_by_cache_status(&[], 4, &blocks), (0, 0));
}

#[test]
fn misses_are_joined_into_runs() {
    let mut table = BlockTable::of_ranges(&[0..3, 9..14, 20..21], 4);
    assert_eq!(table.indices(), &vec![0, 2, 3, 5]);
    assert_eq!(table.miss_runs(4, 21).unwrap(), vec![0..4, 8..16, 20..21]);
    table.fill(2, Bytes::from_static(b"ijkl"));
    assert_eq!(table.miss_runs(4, 21).unwrap(), vec![0..4, 12..16, 20..21]);
    assert_eq!(table.blocks().get(&2).unwrap().as_ref().unwrap().as_ref(), b"ijkl");
}

#[test]
fn lookups_run_at_most_eight_at_a_time() {
    assert_eq!(lookup_concurrency(0), 1);
    assert_eq!(lookup_concurrency(3), 3);
    assert_eq!(lookup_concurrency(8), 8);
    assert_eq!(lookup_concurrency(100), 8);
}

#[test]
fn a_read_starts_by_its_ranges() {
    assert_eq!(begin_read(&[]), ReadStart::Empty);
    assert_eq!(begin_read(&[0..1, 5..5]), ReadStart::Origin);
    let inverted = Range { start: 6, end: 5 };
    assert_eq!(begin_read(&[inverted]), ReadStart::Origin);
    assert_eq!(begin_read(&[0..1, 5..6]), ReadStart::NeedsSize);
    assert!(plan_read(&[0..4, 10..12], 10, 4).is_none());
    assert!(plan_read(&[0..4, 9..12], 10, 4).is_some());
}

#[test]
fn incomplete_cache_hits_fall_back_to_complete_source_ranges() {
    const BLOCK_SIZE: usize = 64 * 1024;
    let mut origin = Origin::new();
    let data = counted(3 * BLOCK_SIZE);
    for (case, range, short_index, short_len) in [
        ("single", 0..BLOCK_SIZE as u64, 0, BLOCK_SIZE / 2),
        ("first", 0..data.len() as u64, 0, BLOCK_SIZE / 2),
        ("middle", 0..data.len() as u64, 1, BLOCK_SIZE / 2),
        ("last", 0..data.len() as u64, 2, BLOCK_SIZE / 2),
        ("empty", 0..data.len() as u64, 1, 0),
        ("partial", 0..16, 0, BLOCK_SIZE / 2),
    ] {
        let mut disk = Disk::new(BLOCK_SIZE);
        let location = format!("table.lance/data/{case}.lance");
        origin.put(&location, data.clone());
        disk.entries.insert(
            disk.cache.size_key(STORE_PREFIX, &location),
            Bytes::copy_from_slice(&(data.len() as u64).to_le_bytes()),
        );
        for block_index in 0..3 {
            let value = if block_index == short_index {
                Bytes::from(vec![255; short_len])
            } else {
                let start = block_index * BLOCK_SIZE;
                data.slice(start..start + BLOCK_SIZE)
            };
            disk.entries
                .insert(disk.cache.key(STORE_PREFIX, &location, block_index as u64), value);
        }
        let short_key = disk.cache.key(STORE_PREFIX, &location, short_index as u64);
        assert_eq!(disk.entries.get(&short_key).unwrap().len(), short_len);
        let mut scope = FoyerDataCacheStatistics::default();
        assert_eq!(
            disk.get_ranges(&origin, &mut scope, &location, &[range.clone()]).unwrap(),
            vec![data.slice(range.start as usize..range.end as usize)],
            "case={case}"
        );
        let bad_start = (short_index * BLOCK_SIZE) as u64;
        let bad_end = bad_start + BLOCK_SIZE as u64;
        let remote_bytes = range.end.min(bad_end) - range.start.max(bad_start);
        assert_eq!(
            scope.snapshot().bytes_read_from_cache,
            range.end - range.start - remote_bytes,
            "case={case}"
        );
        assert_eq!(scope.snapshot().bytes_read_from_remote, remote_bytes, "case={case}");
        let before = scope.snapshot();
        disk.get_ranges(&origin, &mut scope, &location, &[range.clone()]).unwrap();
        assert_eq!(scope.snapshot().bytes_read_from_remote, before.bytes_read_from_remote);
    }
}

#[test]
fn caches_only_immutable_data_file_ranges() {
    let mut disk = Disk::new(64 * 1024);
    let mut origin = Origin::new();
    let data_path = "table.lance/data/part-0.lance";
    let second_data_path = "table.lance/data/part-1.lance";
    let manifest_path = "table.lance/_versions/1.manifest";
    let data = counted(200_000);
    let second_data = Bytes::from_static(b"second fragment");
    origin.put(data_path, data.clone());
    origin.put(second_data_path, second_data.clone());
    origin.put(manifest_path, Bytes::from_static(b"manifest"));

    let mut scope = FoyerDataCacheStatistics::default();
    let ranges = vec![10..90_000, 65_000..140_000, 190_000..220_000];
    let second_data_range = 0..15;
    let first = disk.get_ranges(&origin, &mut scope, data_path, &ranges).unwrap();
    assert_eq!(first[0], data.slice(10..90_000));
    assert_eq!(first[1], data.slice(65_000..140_000));
    assert_eq!(first[2], data.slice(190_000..200_000));
    assert_eq!(
        disk.get_ranges(&origin, &mut scope, second_data_path, &[second_data_range.clone()])
            .unwrap(),
        vec![second_data.clone()]
    );
    assert_eq!(scope.snapshot(), statistics(0, 175_005));

    origin.delete(data_path);
    origin.delete(second_data_path);
    let second = disk.get_ranges(&origin, &mut scope, data_path, &ranges).unwrap();
    assert_eq!(second, first);
    assert_eq!(
        disk.get_ranges(&origin, &mut scope, second_data_path, &[second_data_range]).unwrap(),
        vec![second_data]
    );
    assert_eq!(scope.snapshot(), statistics(175_005, 175_005));

    assert_eq!(
        disk.get_ranges(&origin, &mut scope, manifest_path, &[0..8]).unwrap(),
        vec![Bytes::from_static(b"manifest")]
    );
    origin.delete(manifest_path);
    assert!(disk.get_ranges(&origin, &mut scope, manifest_path, &[0..8]).is_err());
}

#[test]
fn caches_small_data_file_whole_object_reads() {
    let mut disk = Disk::new(64 * 1024);
    let mut origin = Origin::new();
    let data_path = "table.lance/data/small.lance";
    let data = Bytes::from(vec![7; 42_000]);
    origin.put(data_path, data.clone());

    let mut scope = FoyerDataCacheStatistics::default();
    let first = disk.get(&origin, &mut scope, data_path, None).unwrap();
    assert_eq!(first, data);
    assert_eq!(scope.snapshot(), statistics(0, 42_000));

    let second = disk.get(&origin, &mut scope, data_path, None).unwrap();
    assert_eq!(second, data);
    assert_eq!(scope.snapshot(), statistics(42_000, 42_000));
}

#[test]
fn streams_large_data_file_gets_with_bounded_read_ahead() {
    let block_size = 64 * 1024;
    let mut disk = Disk::new(block_size);
    let mut origin = Origin::new();
    let data_path = "table.lance/data/large.lance";
    let data = Bytes::from(vec![7; 4 * block_size]);
    origin.put(data_path, data.clone());

    let mut scope = FoyerDataCacheStatistics::default();
    let size = disk.object_size(&origin, data_path).unwrap();
    assert_eq!(plan_get(None, size), GetPlan::Stream { start: 0, end: data.len() as u64 });
    assert_eq!(scope.snapshot(), LanceDataCacheStatistics::default());

    let chunk = next_chunk(&(0..size), block_size).unwrap();
    let buffers = disk.get_ranges(&origin, &mut scope, data_path, &[chunk]).unwrap();
    assert_eq!(single_result(buffers).unwrap(), data.slice(..block_size));
    assert_eq!(scope.snapshot(), statistics(0, block_size as u64));
}

#[test]
fn caches_single_data_file_range_reads() {
    let mut disk = Disk::new(64 * 1024);
    let mut origin = Origin::new();
    let data = counted(100_000);
    let cases = [
        (
            "table.lance/data/bounded.lance",
            RequestedRange::Bounded { start: 1_000, end: 2_000 },
            1_000..2_000,
        ),
        (
            "table.lance/data/offset.lance",
            RequestedRange::Offset { offset: 90_000 },
            90_000..100_000,
        ),
        (
            "table.lance/data/suffix.lance",
            RequestedRange::Suffix { count: 500 },
            99_500..100_000,
        ),
    ];
    for (path, _, _) in &cases {
        origin.put(path, data.clone());
    }

    let mut scope = FoyerDataCacheStatistics::default();
    for (path, requested, expected_range) in cases {
        assert!(serves_get(path, &no_conditions()));
        let expected = data.slice(expected_range);
        let before = scope.snapshot();
        let first = disk.get(&origin, &mut scope, path, Some(requested)).unwrap();
        assert_eq!(first, expected);
        assert_eq!(
            scope.snapshot().bytes_read_from_remote,
            before.bytes_read_from_remote + expected.len() as u64
        );
        let second = disk.get(&origin, &mut scope, path, Some(requested)).unwrap();
        assert_eq!(second, expected);
        assert_eq!(
            scope.snapshot().bytes_read_from_cache,
            before.bytes_read_from_cache + expected.len() as u64
        );
    }

    let before = scope.snapshot();
    let conditional = GetConditions { if_match: true, ..no_conditions() };
    assert!(!serves_get("table.lance/data/bounded.lance", &conditional));
    assert!(disk
        .get_ranges(&origin, &mut scope, "table.lance/data/bounded.lance", &[100_000..100_001])
        .is_err());
    assert_eq!(scope.snapshot(), before);
}

#[test]
fn dataset_scopes_share_cache_without_sharing_statistics() {
    let mut disk = Disk::new(64 * 1024);
    let mut origin = Origin::new();
    let data_path = "table.lance/data/part-0.lance";
    let data = counted(100_000);
    origin.put(data_path, data.clone());

    let mut registry: WrapperRegistry<&str> = WrapperRegistry::new();
    let mut source_scope = FoyerDataCacheStatistics::default();
    assert!(!registry.unwrap_store(1, false, false));
    registry.remember_wrapper(10, "origin");

    let mut restored_scope = FoyerDataCacheStatistics::default();
    assert!(registry.unwrap_store(10, true, true));
    assert_eq!(registry.entry(10), Some(&"origin"));
    registry.remember_wrapper(11, "origin");

    let requested_range = 10..90_000;
    assert_eq!(
        disk.get_ranges(&origin, &mut restored_scope, data_path, &[requested_range.clone()])
            .unwrap(),
        vec![data.slice(10..90_000)]
    );
    assert_eq!(source_scope.snapshot(), LanceDataCacheStatistics::default());
    assert_eq!(restored_scope.snapshot().bytes_read_from_remote, 89_990);

    origin.delete(data_path);
    assert_eq!(
        disk.get_ranges(&origin, &mut source_scope, data_path, &[requested_range]).unwrap(),
        vec![data.slice(10..90_000)]
    );
    assert_eq!(source_scope.snapshot().bytes_read_from_cache, 89_990);
    assert_eq!(restored_scope.snapshot().bytes_read_from_remote, 89_990);

    registry.forget_wrapper(11);
    registry.forget_wrapper(10);
    assert!(registry.entry(10).is_none());
    assert!(registry.entry(11).is_none());
}

#[test]
fn a_stale_wrapper_is_forgotten() {
    let mut registry: WrapperRegistry<u8> = WrapperRegistry::new();
    registry.remember_wrapper(1, 7);
    assert!(!registry.unwrap_store(1, true, false));
    assert!(registry.entry(1).is_none());
    registry.remember_wrapper(2, 8);
    assert!(!registry.unwrap_store(2, false, true));
    assert!(registry.entry(2).is_none());
}

#[test]
fn truncates_ranges_at_eof_before_enumerating_cache_blocks() {
    let mut disk = Disk::new(64 * 1024);
    let mut origin = Origin::new();
    let data_path = "table.lance/data/part-0.lance";
    origin.put(data_path, counted(100_000));

    let requested_range = 99_990..300_000;
    let expected = origin.get_ranges(data_path, &[requested_range.clone()]).unwrap();
    let mut scope = FoyerDataCacheStatistics::default();
    let actual =
        disk.get_ranges(&origin, &mut scope, data_path, &[requested_range.clone()]).unwrap();
    assert_eq!(actual, expected);
    assert_eq!(scope.snapshot().bytes_read_from_remote, 10);

    origin.delete(data_path);
    assert_eq!(
        disk.get_ranges(&origin, &mut scope, data_path, &[requested_range]).unwrap(),
        expected
    );
    assert_eq!(scope.snapshot().bytes_read_from_cache, 10);
    assert_eq!(scope.snapshot().bytes_read_from_remote, 10);
}

#[test]
fn recognizes_only_direct_data_children() {
    assert!(FoyerDataCache::is_cacheable_data_file("dataset/data/part.lance"));
    assert!(!FoyerDataCache::is_cacheable_data_file("dataset/data/nested/part.lance"));
    assert!(!FoyerDataCache::is_cacheable_data_file("dataset/indices/index.lance"));
    assert!(!FoyerDataCache::is_cacheable_data_file("dataset/_versions/1.manifest"));
}

#[test]
fn only_lance_files_under_data_are_cacheable() {
    assert!(FoyerDataCache::is_cacheable_data_file("data/part.lance"));
    assert!(!FoyerDataCache::is_cacheable_data_file("dataset/data/part.txn"));
    assert!(!FoyerDataCache::is_cacheable_data_file("part.lance"));
    assert!(!FoyerDataCache::is_cacheable_data_file("dataset/metadata/part.lance"));
}

#[test]
fn conditional_requests_go_to_the_store() {
    assert!(is_cache_safe_get(&no_conditions()));
    for unsafe_options in [
        GetConditions { head: true, ..no_conditions() },
        GetConditions { if_match: true, ..no_conditions() },
        GetConditions { if_none_match: true, ..no_conditions() },
        GetConditions { if_modified_since: true, ..no_conditions() },
        GetConditions { if_unmodified_since: true, ..no_conditions() },
        GetConditions { version: true, ..no_conditions() },
        GetConditions { extensions: true, ..no_conditions() },
    ] {
        assert!(!is_cache_safe_get(&unsafe_options));
    }
    assert!(!serves_get("table.lance/_versions/1.manifest", &no_conditions()));
}

#[test]
fn requested_ranges_are_cut_at_the_end_of_the_object() {
    assert_eq!(
        plan_get(Some(RequestedRange::Bounded { start: 10, end: 200 }), 100),
        GetPlan::Stream { start: 10, end: 100 }
    );
    assert_eq!(
        plan_get(Some(RequestedRange::Suffix { count: 500 }), 100),
        GetPlan::Stream { start: 0, end: 100 }
    );
    assert_eq!(
        plan_get(Some(RequestedRange::Bounded { start: 100, end: 101 }), 100),
        GetPlan::Origin
    );
    assert_eq!(plan_get(Some(RequestedRange::Offset { offset: 100 }), 100), GetPlan::Origin);
    assert_eq!(
        plan_get(Some(RequestedRange::Bounded { start: 5, end: 5 }), 100),
        GetPlan::Origin
    );
}

#[test]
fn chunks_cover_a_range_once() {
    assert_eq!(next_chunk(&(10..100), 64), Some(10..64));
    assert_eq!(next_chunk(&(64..100), 64), Some(64..100));
    assert_eq!(next_chunk(&(100..100), 64), None);
}

#[test]
fn sizes_survive_their_entry() {
    for size in [0u64, 1, 255, 256, 100_000, u64::MAX] {
        assert_eq!(parse_size_entry(&size_entry(size)), Some(size));
    }
    assert_eq!(size_entry(258).as_ref(), &[2, 1, 0, 0, 0, 0, 0, 0]);
    assert_eq!(parse_size_entry(&Bytes::from_static(b"short")), None);
    assert_eq!(parse_size_entry(&Bytes::from_static(b"nine bytes")), None);
}

#[test]
fn keys_tell_stores_files_and_blocks_apart() {
    let cache = FoyerDataCache { read_block_size: 4096 };
    let key = cache.key("s3$bucket", "t.lance/data/a.lance", 3);
    assert_eq!(key, "lance-data-v1\x004096\0s3$bucket\0t.lance/data/a.lance\x003");
    assert_ne!(key, cache.key("s3$bucket", "t.lance/data/a.lance", 4));
    assert_ne!(key, cache.key("s3$other", "t.lance/data/a.lance", 3));
    assert_eq!(
        cache.size_key("s3$bucket", "t.lance/data/a.lance"),
        "lance-data-v1\x004096\0s3$bucket\0t.lance/data/a.lance\0size"
    );
}

#[test]
fn a_single_result_is_the_first_buffer() {
    assert_eq!(single_result(Vec::new()).unwrap_err(), DataCacheError::MissingGetResult);
    assert_eq!(
        single_result(vec![Bytes::from_static(b"a"), Bytes::from_static(b"b")]).unwrap(),
        Bytes::from_static(b"a")
    );
}

#[test]
fn statistics_add_up() {
    let mut scope = FoyerDataCacheStatistics::default();
    scope.record(3, 5);
    scope.record(4, 6);
    assert_eq!(scope.snapshot(), statistics(7, 11));
}
