//! The two tiers of the index cache, over in-memory stand-ins.

use std::cell::Cell;
use std::collections::HashMap;

use bytes::Bytes;
use lance_c::error::{LanceErrorCode, LastError};
use lance_c::foyer_index_cache::{
    begin_load, disk_key_for_generation, finish_get_or_insert, frame_entry, generation_path,
    generation_text, insert_to_disk, lance_session_get_index_disk_cache_stats, load_generation,
    new_generation, next_of_disk, next_of_get, next_of_load, temporary_generation_file,
    unframe_entry, DiskGetStep, DiskReply, DiskStep, GenerationFile, GenerationStart, GetStep,
    IndexDiskCacheStats, IndexGeneration, LanceIndexDiskCacheStats, LoadReply, LoadState,
    MemoryReply,
};

const TYPE_ID: &str = "lance.test.U64";

type Key = [u8; 16];

/// The memory tier: it refuses entries above its capacity.
struct Memory {
    entries: HashMap<Key, u64>,
}

impl Memory {
    fn new() -> Memory {
        Memory { entries: HashMap::new() }
    }
}

struct IndexCache {
    state: IndexGeneration<Memory>,
    capacity: usize,
    disk: HashMap<String, Bytes>,
    stats: IndexDiskCacheStats,
}

impl IndexCache {
    fn open(disk: HashMap<String, Bytes>, generation: u64) -> IndexCache {
        IndexCache {
            state: IndexGeneration { memory: Memory::new(), generation },
            capacity: 1024 * 1024,
            disk,
            stats: IndexDiskCacheStats::default(),
        }
    }

    fn physical(&self, key: &Key) -> String {
        disk_key_for_generation(key, TYPE_ID, self.state.generation)
    }

    fn keep(&mut self, key: &Key, value: u64, size: usize) {
        if size <= self.capacity {
            self.state.memory.entries.insert(*key, value);
        }
    }

    fn insert(&mut self, key: &Key, value: u64, size: usize, has_codec: bool) {
        self.keep(key, value, size);
        if insert_to_disk(has_codec) {
            self.write_disk(key, value, size);
        }
    }

    fn write_disk(&mut self, key: &Key, value: u64, size: usize) {
        let payload = value.to_le_bytes();
        if let Some(entry) = self.stats.note_encoded(size, Some(&payload)) {
            let physical = self.physical(key);
            self.disk.insert(physical, entry);
        }
    }

    fn read_disk(&mut self, key: &Key) -> Option<(u64, usize)> {
        let physical = self.physical(key);
        let reply = match self.disk.get(&physical) {
            Some(entry) => DiskReply::Entry(entry.clone()),
            None => DiskReply::Absent,
        };
        match self.stats.note_disk_reply(reply) {
            DiskStep::Miss => None,
            DiskStep::MissAndRemove => {
                self.disk.remove(&physical);
                None
            }
            DiskStep::Decode { logical_size, payload } => {
                let decoded: Result<[u8; 8], _> = payload.as_ref().try_into();
                self.stats.note_decoded(decoded.is_ok());
                match decoded {
                    Ok(octets) => Some((u64::from_le_bytes(octets), logical_size)),
                    Err(_) => {
                        self.disk.remove(&physical);
                        None
                    }
                }
            }
        }
    }

    fn get(&mut self, key: &Key, has_codec: bool) -> Option<u64> {
        let known = self.state.memory.entries.get(key).copied();
        let reply = if known.is_some() { MemoryReply::Hit } else { MemoryReply::Miss };
        match next_of_get(&mut self.stats, reply, has_codec) {
            GetStep::Return => known,
            GetStep::ReturnNothing => None,
            GetStep::ReadDisk => {
                let found = self.read_disk(key);
                match next_of_disk(found.map(|(_, size)| size)) {
                    DiskGetStep::Promote { size_bytes } => {
                        let (value, _) = found?;
                        self.keep(key, value, size_bytes);
                        Some(value)
                    }
                    DiskGetStep::ReturnNothing => None,
                }
            }
        }
    }

    fn get_or_insert<F: FnOnce() -> u64>(
        &mut self,
        key: &Key,
        load: F,
        has_codec: bool,
    ) -> (u64, bool) {
        if let Some(value) = self.state.memory.entries.get(key).copied() {
            let reply = LoadReply::Loaded { memory_hit: true };
            let cached = finish_get_or_insert(&mut self.stats, reply, false).unwrap();
            return (value, cached);
        }
        let mut found = None;
        let mut state = begin_load(has_codec);
        if state == LoadState::ReadDisk {
            found = self.read_disk(key);
            state = next_of_load(found.is_some());
        }
        let (value, size) = match state {
            LoadState::LoadSource { store } => {
                let value = load();
                if store {
                    self.write_disk(key, value, 8);
                }
                (value, 8)
            }
            _ => found.unwrap(),
        };
        self.keep(key, value, size);
        let reply = LoadReply::Loaded { memory_hit: false };
        let disk_hit = state == LoadState::FromDisk;
        let cached = finish_get_or_insert(&mut self.stats, reply, disk_hit).unwrap();
        (value, cached)
    }
}

fn test_cache() -> IndexCache {
    IndexCache::open(HashMap::new(), 0)
}

#[test]
fn disk_hits_preserve_layer_statistics_and_report_cached() {
    let mut cache = test_cache();
    let key = [1; 16];
    cache.insert(&key, 42, 8, true);
    cache.state.memory.entries.clear();

    for _ in 0..2 {
        let (value, was_cached) = cache.get_or_insert(
            &key,
            || panic!("cache hit must not execute source loader"),
            true,
        );
        assert_eq!(value, 42);
        assert!(was_cached);
    }
    let stats = cache.stats.snapshot();
    assert_eq!((stats.memory_hits, stats.memory_misses), (1, 1));
    assert_eq!((stats.disk_hits, stats.disk_misses), (1, 0));

    let missing = [2; 16];
    let (_, was_cached) = cache.get_or_insert(&missing, || 7, true);
    assert!(!was_cached);
    let stats = cache.stats.snapshot();
    assert_eq!((stats.memory_hits, stats.memory_misses), (1, 2));
    assert_eq!((stats.disk_hits, stats.disk_misses), (1, 1));
}

#[test]
fn persisted_l2_hits_promote_to_l1_before_any_further_disk_lookup() {
    let mut first = test_cache();
    let keys = [[21; 16], [22; 16]];
    for key in &keys {
        first.insert(key, 42, 8, true);
    }
    let mut cache = IndexCache::open(first.disk, 0);
    assert_eq!(cache.state.memory.entries.len(), 0);
    for (index, key) in keys.iter().enumerate() {
        let value = if index == 0 {
            cache.get(key, true).unwrap()
        } else {
            let (value, cached) = cache.get_or_insert(
                key,
                || panic!("persisted L2 hit must skip the source"),
                true,
            );
            assert!(cached);
            value
        };
        assert_eq!(value, 42);
        assert!(cache.state.memory.entries.contains_key(key));

        let physical = cache.physical(key);
        cache.disk.remove(&physical);
        let before = cache.stats.snapshot();
        assert_eq!(cache.get(key, true), Some(42));
        let (value, cached) =
            cache.get_or_insert(key, || panic!("L1 hit must skip the source"), true);
        assert!(cached);
        assert_eq!(value, 42);
        let after = cache.stats.snapshot();
        assert_eq!(after.memory_hits, before.memory_hits + 2);
        assert_eq!(after.memory_misses, before.memory_misses);
        assert_eq!(after.disk_hits, before.disk_hits);
        assert_eq!(after.disk_misses, before.disk_misses);
    }
}

#[test]
fn entries_larger_than_l1_capacity_remain_readable_from_disk() {
    let key = [23; 16];
    let mut first = test_cache();
    first.capacity = 1024;
    first.insert(&key, 23, 2048, true);
    assert_eq!(first.state.memory.entries.len(), 0);

    let mut cache = IndexCache::open(first.disk, 0);
    cache.capacity = 1024;
    for _ in 0..2 {
        let (entry, cached) = cache.get_or_insert(
            &key,
            || panic!("an entry refused by L1 can still hit L2"),
            true,
        );
        assert!(cached);
        assert_eq!(entry, 23);
        assert_eq!(cache.state.memory.entries.len(), 0);
    }
    let stats = cache.stats.snapshot();
    assert_eq!((stats.memory_hits, stats.memory_misses), (0, 2));
    assert_eq!((stats.disk_hits, stats.disk_misses), (2, 0));
}

#[test]
fn shared_l2_capacity_eviction_preserves_l1_and_allows_source_refill() {
    let mut cache = test_cache();
    let key = [24; 16];
    let physical = cache.physical(&key);
    cache.insert(&key, 42, 8, true);
    assert!(cache.disk.contains_key(&physical));

    cache.disk.remove(&physical);
    let before = cache.stats.snapshot();
    let (entry, cached) =
        cache.get_or_insert(&key, || panic!("L2 eviction must not invalidate L1"), true);
    assert!(cached);
    assert_eq!(entry, 42);
    assert_eq!(cache.stats.snapshot().disk_misses, before.disk_misses);

    cache.state.memory.entries.clear();
    let loads = Cell::new(0);
    for expected_cached in [false, true] {
        let (entry, cached) = cache.get_or_insert(
            &key,
            || {
                loads.set(loads.get() + 1);
                42
            },
            true,
        );
        assert_eq!(cached, expected_cached);
        assert_eq!(entry, 42);
    }
    assert_eq!(loads.get(), 1);
    assert_eq!(cache.stats.snapshot().disk_misses, before.disk_misses + 1);
}

#[test]
fn malformed_entries_miss_and_entries_without_codecs_stay_in_memory() {
    let mut cache = test_cache();
    let key = [3; 16];
    let physical = cache.physical(&key);
    cache.disk.insert(physical.clone(), Bytes::from_static(b"bad"));
    assert!(cache.get(&key, true).is_none());
    assert_eq!(cache.stats.snapshot().decode_failures, 1);
    assert!(!cache.disk.contains_key(&physical));

    let before = cache.stats.snapshot();
    cache.insert(&key, 9, 8, false);
    assert!(cache.get(&key, false).is_some());
    cache.state.memory.entries.clear();
    assert!(cache.get(&key, false).is_none());
    let after = cache.stats.snapshot();
    assert_eq!(after.disk_write_bytes, before.disk_write_bytes);
    assert_eq!(after.disk_misses, before.disk_misses);
}

#[test]
fn clear_isolates_in_flight_loads() {
    let mut cache = test_cache();
    let key = [4; 16];
    let mut loading_memory = Memory::new();
    let started = cache.physical(&key);
    assert_eq!(begin_load(true), LoadState::ReadDisk);
    assert!(cache.read_disk(&key).is_none());
    let LoadState::LoadSource { store } = next_of_load(false) else {
        panic!("an entry that is not on disk comes from its source");
    };

    assert!(!cache.state.clear(Memory::new(), 1, true));
    cache.insert(&key, 42, 8, true);

    let loaded = 17_u64;
    assert!(store);
    let entry = cache.stats.note_encoded(8, Some(&loaded.to_le_bytes())).unwrap();
    cache.disk.insert(started, entry);
    loading_memory.entries.insert(key, loaded);
    let reply = LoadReply::Loaded { memory_hit: false };
    assert_eq!(finish_get_or_insert(&mut cache.stats, reply, false), Some(false));
    assert_eq!(loading_memory.entries[&key], 17);

    assert_eq!(cache.get(&key, true), Some(42));
    cache.state.memory.entries.clear();
    assert_eq!(cache.get(&key, true), Some(42));
}

#[test]
fn clear_invalidates_even_if_generation_cannot_be_persisted() {
    let mut cache = test_cache();
    let key = [5; 16];
    cache.insert(&key, 7, 8, true);
    assert!(cache.state.clear(Memory::new(), 1, false));
    assert!(cache.get(&key, true).is_none());
}

#[test]
fn recovers_index_entries_and_persisted_invalidation() {
    let key = [6; 16];
    let mut cache = test_cache();
    cache.insert(&key, 99, 8, true);
    let kept = GenerationFile::Text(generation_text(cache.state.generation));

    let GenerationStart::Kept(generation) = load_generation(&kept) else {
        panic!("a written generation must be kept");
    };
    let mut recovered = IndexCache::open(cache.disk, generation);
    assert_eq!(recovered.get(&key, true), Some(99));
    assert_eq!(recovered.stats.snapshot().disk_hits, 1);
    recovered.state.clear(Memory::new(), generation + 1, true);
    let kept = GenerationFile::Text(generation_text(recovered.state.generation));

    let GenerationStart::Kept(generation) = load_generation(&kept) else {
        panic!("a written generation must be kept");
    };
    let mut cleared = IndexCache::open(recovered.disk, generation);
    assert!(cleared.get(&key, true).is_none());
}

#[test]
fn corrupt_generation_starts_a_new_namespace() {
    let corrupt = GenerationFile::Text("truncated".to_owned());
    assert_eq!(load_generation(&corrupt), GenerationStart::Cold);
    let generation = new_generation();
    let written = generation_text(generation);
    assert_eq!(written, generation.to_string());
    assert_eq!(
        load_generation(&GenerationFile::Text(written)),
        GenerationStart::Kept(generation)
    );
}

#[test]
fn codec_type_is_part_of_the_physical_key() {
    let key = [0, 1, 2, 3, 4, 5, 6, 7, 8, 9, 10, 11, 12, 13, 14, 15];
    let physical_key = disk_key_for_generation(&key, "lance.test.IndexEntry", 0);
    assert!(physical_key.starts_with("lance-index-v1:blake3-128-v1:0:lance.test.IndexEntry:"));
    assert!(!physical_key.contains('\0'));
    assert_ne!(physical_key, disk_key_for_generation(&key, "lance.test.IndexEntry", 1));
    assert_eq!(
        physical_key,
        "lance-index-v1:blake3-128-v1:0:lance.test.IndexEntry:000102030405060708090a0b0c0d0e0f"
    );
}

#[test]
fn clear_does_not_clear_shared_data_entries() {
    let mut cache = test_cache();
    cache.disk.insert("lance-data-v1\0test".to_owned(), Bytes::from_static(b"data-entry"));
    cache.state.clear(Memory::new(), 1, true);
    assert!(cache.disk.contains_key("lance-data-v1\0test"));
}

#[test]
fn generations_outlive_spaces_and_refuse_other_texts() {
    let kept = |text: &str| load_generation(&GenerationFile::Text(text.to_owned()));
    assert_eq!(kept(" 17\n"), GenerationStart::Kept(17));
    assert_eq!(kept("+17"), GenerationStart::Kept(17));
    assert_eq!(kept("18446744073709551615"), GenerationStart::Kept(u64::MAX));
    assert_eq!(kept("18446744073709551616"), GenerationStart::Cold);
    assert_eq!(kept(""), GenerationStart::Cold);
    assert_eq!(kept("-1"), GenerationStart::Cold);
    assert_eq!(load_generation(&GenerationFile::Missing), GenerationStart::Cold);
    assert_eq!(load_generation(&GenerationFile::Unreadable), GenerationStart::Failed);
}

#[test]
fn generations_are_drawn_at_random() {
    assert_ne!(new_generation(), new_generation());
    for _ in 0..32 {
        assert_eq!(new_generation() >> 12 & 0xf, 4);
    }
}

#[test]
fn generation_files_are_named() {
    assert_eq!(generation_path("/cache"), "/cache/lance-index-generation");
    assert_eq!(generation_path("/cache/"), "/cache/lance-index-generation");
    assert_eq!(temporary_generation_file("id"), "lance-index-generation.id.tmp");
}

#[test]
fn frames_round_trip() {
    let entry = frame_entry(258, b"payload");
    assert_eq!(entry.as_ref(), b"\x02\x01\0\0\0\0\0\0payload");
    let (size, payload) = unframe_entry(&entry).unwrap();
    assert_eq!((size, payload.as_ref()), (258, &b"payload"[..]));
    let (size, payload) = unframe_entry(&frame_entry(0, b"")).unwrap();
    assert_eq!((size, payload.len()), (0, 0));
    assert!(unframe_entry(&Bytes::from_static(b"seven!!")).is_none());
}

#[test]
fn counters_tell_the_tiers_apart() {
    let mut stats = IndexDiskCacheStats::default();
    assert!(matches!(stats.note_disk_reply(DiskReply::Failed), DiskStep::Miss));
    assert!(matches!(stats.note_disk_reply(DiskReply::Absent), DiskStep::Miss));
    let entry = frame_entry(8, &[7; 8]);
    assert!(matches!(
        stats.note_disk_reply(DiskReply::Entry(entry)),
        DiskStep::Decode { logical_size: 8, .. }
    ));
    stats.note_decoded(true);
    assert!(stats.note_encoded(8, None).is_none());
    let counters = stats.snapshot();
    assert_eq!(counters.disk_read_errors, 1);
    assert_eq!(counters.disk_write_errors, 1);
    assert_eq!(counters.disk_hits, 1);
    assert_eq!(counters.disk_read_bytes, 16);
    assert_eq!(counters.disk_write_bytes, 0);
    assert_eq!(stats.note_encoded(8, Some(&[1, 2])).unwrap().len(), 10);
    assert_eq!(stats.snapshot().disk_write_bytes, 10);
}

#[test]
fn a_failed_load_is_a_memory_miss() {
    let mut stats = IndexDiskCacheStats::default();
    assert_eq!(finish_get_or_insert(&mut stats, LoadReply::Failed, false), None);
    assert_eq!(stats.snapshot().memory_misses, 1);
    assert_eq!(begin_load(false), LoadState::LoadSource { store: false });
    assert_eq!(next_of_load(false), LoadState::LoadSource { store: true });
}

#[test]
fn sessions_report_their_counters() {
    let mut last = LastError::new();
    let mut stats = IndexDiskCacheStats::default();
    stats.note_memory(true);
    let mut out = LanceIndexDiskCacheStats::default();
    let status =
        lance_session_get_index_disk_cache_stats(&mut last, Some(Some(&stats)), Some(&mut out));
    assert_eq!(status, 0);
    assert_eq!(out.memory_hits, 1);
    let status = lance_session_get_index_disk_cache_stats(&mut last, Some(None), Some(&mut out));
    assert_eq!(status, 0);
    assert_eq!(out, LanceIndexDiskCacheStats::default());
    assert_eq!(lance_session_get_index_disk_cache_stats(&mut last, None, Some(&mut out)), -1);
    assert_eq!(last.code(), LanceErrorCode::InvalidArgument);
    assert!(last
        .message()
        .starts_with("Invalid user input: session and out_stats must not be NULL, "));
}
