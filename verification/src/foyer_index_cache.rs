//! The two-tier index cache: decoded entries in memory, serialized entries on
//! disk.
//!
//! The caller performs the lookups and the codec work; the functions here
//! decide what is asked next, keep the counters, frame the serialized entries
//! and name them.

use bytes::Bytes;
use vstd::prelude::*;
use vstd::string::{StrSliceExecFns, StringExecFns};

use crate::error;
use crate::error::{ffi_try, LanceError, LastError};
use crate::foyer_data_cache;
use crate::octets;
use crate::text;

verus! {

/// The name of the file that keeps the generation.
pub const INDEX_GENERATION_FILE: &'static str = "lance-index-generation";

/// How many octets of an entry hold the logical size.
pub const LOGICAL_SIZE_BYTES: usize = 8;

/// Cumulative L1 index and L2 serialized-index counters for one shared session.
#[derive(Clone, Copy, Debug, PartialEq, Eq, Structural)]
pub struct LanceIndexDiskCacheStats {
    pub memory_hits: u64,
    pub memory_misses: u64,
    pub disk_hits: u64,
    pub disk_misses: u64,
    pub disk_read_bytes: u64,
    pub disk_write_bytes: u64,
    pub decode_failures: u64,
    pub disk_read_errors: u64,
    pub disk_write_errors: u64,
}

/// Counters at zero.
pub open spec fn zero_stats() -> LanceIndexDiskCacheStats {
    LanceIndexDiskCacheStats {
        memory_hits: 0,
        memory_misses: 0,
        disk_hits: 0,
        disk_misses: 0,
        disk_read_bytes: 0,
        disk_write_bytes: 0,
        decode_failures: 0,
        disk_read_errors: 0,
        disk_write_errors: 0,
    }
}

impl Default for LanceIndexDiskCacheStats {
    fn default() -> (stats: LanceIndexDiskCacheStats)
        ensures
            stats == zero_stats(),
    {
        LanceIndexDiskCacheStats {
            memory_hits: 0,
            memory_misses: 0,
            disk_hits: 0,
            disk_misses: 0,
            disk_read_bytes: 0,
            disk_write_bytes: 0,
            decode_failures: 0,
            disk_read_errors: 0,
            disk_write_errors: 0,
        }
    }
}

/// What the disk tier returned for a key.
pub enum DiskReply {
    /// A stored entry.
    Entry(Bytes),
    /// No entry.
    Absent,
    /// The lookup failed.
    Failed,
}

/// What follows a disk lookup.
pub enum DiskStep {
    /// The tier has no usable entry.
    Miss,
    /// The entry is malformed: it is no usable entry, and must be removed.
    MissAndRemove,
    /// The codec must decode the payload of the entry.
    Decode { logical_size: usize, payload: Bytes },
}

/// The logical size and the payload of a framed entry; `None` if the frame is
/// too short or the size does not fit.
pub open spec fn unframed(octets: Seq<u8>) -> Option<(u64, Seq<u8>)> {
    let size = vstd::bytes::spec_u64_from_le_bytes(octets.take(8));
    if octets.len() < 8 || size > usize::MAX {
        None
    } else {
        Some((size, octets.skip(8)))
    }
}

/// A framed entry: the logical size in eight octets, least significant first,
/// then the payload.
pub open spec fn framed(logical_size: u64, payload: Seq<u8>) -> Seq<u8> {
    vstd::bytes::spec_u64_to_le_bytes(logical_size) + payload
}

/// Frames a serialized entry.
pub fn frame_entry(logical_size: usize, payload: &[u8]) -> (entry: Bytes)
    ensures
        octets::contents(entry) == framed(logical_size as u64, payload@),
{
    let mut frame: Vec<u8> = vstd::bytes::u64_to_le_bytes(logical_size as u64);
    frame.extend_from_slice(payload);
    octets::copy_from_slice(frame.as_slice())
}

/// Takes a framed entry apart.
pub fn unframe_entry(entry: &Bytes) -> (parts: Option<(usize, Bytes)>)
    ensures
        match parts {
            Some((size, payload)) => unframed(octets::contents(*entry)) == Some(
                (size as u64, octets::contents(payload)),
            ),
            None => unframed(octets::contents(*entry)) is None,
        },
{
    let len: usize = octets::length(entry);
    if len < LOGICAL_SIZE_BYTES {
        return None;
    }
    let all: &[u8] = octets::as_slice(entry);
    let prefix: &[u8] = vstd::slice::slice_subrange(all, 0, LOGICAL_SIZE_BYTES);
    assert(prefix@ =~= octets::contents(*entry).take(8));
    let size: u64 = vstd::bytes::u64_from_le_bytes(prefix);
    if size > usize::MAX as u64 {
        return None;
    }
    let payload: Bytes = octets::slice(entry, LOGICAL_SIZE_BYTES, len);
    assert(octets::contents(payload) =~= octets::contents(*entry).skip(8));
    Some((size as usize, payload))
}

/// A framed entry gives back the size and the payload that were framed.
pub proof fn law_entry_frame_round_trip(logical_size: usize, payload: Seq<u8>)
    ensures
        unframed(framed(logical_size as u64, payload)) == Some((logical_size as u64, payload)),
{
    vstd::bytes::lemma_auto_spec_u64_to_from_le_bytes();
    let prefix = vstd::bytes::spec_u64_to_le_bytes(logical_size as u64);
    assert(framed(logical_size as u64, payload).take(8) =~= prefix);
    assert(framed(logical_size as u64, payload).skip(8) =~= payload);
}

/// One more in a counter that wraps around.
pub open spec fn one_more(counter: u64) -> u64 {
    foyer_data_cache::counted(counter, 1)
}

/// The counters after a memory lookup.
pub open spec fn after_memory(stats: LanceIndexDiskCacheStats, hit: bool) -> LanceIndexDiskCacheStats {
    if hit {
        LanceIndexDiskCacheStats { memory_hits: one_more(stats.memory_hits), ..stats }
    } else {
        LanceIndexDiskCacheStats { memory_misses: one_more(stats.memory_misses), ..stats }
    }
}

/// The counters after an entry that cannot be decoded.
pub open spec fn after_bad_entry(stats: LanceIndexDiskCacheStats) -> LanceIndexDiskCacheStats {
    LanceIndexDiskCacheStats {
        disk_misses: one_more(stats.disk_misses),
        decode_failures: one_more(stats.decode_failures),
        ..stats
    }
}

/// The counters after a disk lookup, before the codec has seen the payload.
pub open spec fn after_disk_reply(
    stats: LanceIndexDiskCacheStats,
    reply: DiskReply,
) -> LanceIndexDiskCacheStats {
    match reply {
        DiskReply::Absent => LanceIndexDiskCacheStats {
            disk_misses: one_more(stats.disk_misses),
            ..stats
        },
        DiskReply::Failed => LanceIndexDiskCacheStats {
            disk_misses: one_more(stats.disk_misses),
            disk_read_errors: one_more(stats.disk_read_errors),
            ..stats
        },
        DiskReply::Entry(entry) => {
            let read = LanceIndexDiskCacheStats {
                disk_read_bytes: foyer_data_cache::counted(
                    stats.disk_read_bytes,
                    octets::contents(entry).len() as u64,
                ),
                ..stats
            };
            if unframed(octets::contents(entry)) is None {
                after_bad_entry(read)
            } else {
                read
            }
        },
    }
}

/// The counters of the index cache.
pub struct IndexDiskCacheStats {
    counters: LanceIndexDiskCacheStats,
}

impl View for IndexDiskCacheStats {
    type V = LanceIndexDiskCacheStats;

    closed spec fn view(&self) -> LanceIndexDiskCacheStats {
        self.counters
    }
}

impl Default for IndexDiskCacheStats {
    fn default() -> (stats: IndexDiskCacheStats)
        ensures
            stats@ == zero_stats(),
    {
        IndexDiskCacheStats { counters: LanceIndexDiskCacheStats::default() }
    }
}

impl IndexDiskCacheStats {
    /// The counters as they stand.
    pub fn snapshot(&self) -> (stats: LanceIndexDiskCacheStats)
        ensures
            stats == self@,
    {
        self.counters
    }

    /// Counts a lookup in the memory tier.
    pub fn note_memory(&mut self, hit: bool)
        ensures
            final(self)@ == after_memory(old(self)@, hit),
    {
        if hit {
            self.counters.memory_hits = self.counters.memory_hits.wrapping_add(1);
        } else {
            self.counters.memory_misses = self.counters.memory_misses.wrapping_add(1);
        }
    }

    /// Counts a lookup in the disk tier and says what follows it.
    pub fn note_disk_reply(&mut self, reply: DiskReply) -> (step: DiskStep)
        ensures
            final(self)@ == after_disk_reply(old(self)@, reply),
            match reply {
                DiskReply::Absent => step is Miss,
                DiskReply::Failed => step is Miss,
                DiskReply::Entry(entry) => match unframed(octets::contents(entry)) {
                    None => step is MissAndRemove,
                    Some((size, octets)) => step matches DiskStep::Decode { logical_size, payload }
                        && logical_size == size && octets::contents(payload) == octets,
                },
            },
    {
        match reply {
            DiskReply::Absent => {
                self.counters.disk_misses = self.counters.disk_misses.wrapping_add(1);
                DiskStep::Miss
            },
            DiskReply::Failed => {
                self.counters.disk_misses = self.counters.disk_misses.wrapping_add(1);
                self.counters.disk_read_errors = self.counters.disk_read_errors.wrapping_add(1);
                DiskStep::Miss
            },
            DiskReply::Entry(entry) => {
                let len: u64 = octets::length(&entry) as u64;
                self.counters.disk_read_bytes = self.counters.disk_read_bytes.wrapping_add(len);
                match unframe_entry(&entry) {
                    Some((logical_size, payload)) => DiskStep::Decode { logical_size, payload },
                    None => {
                        self.note_decoded(false);
                        DiskStep::MissAndRemove
                    },
                }
            },
        }
    }

    /// Counts what the codec made of a payload. An entry that it could not
    /// decode must be removed.
    pub fn note_decoded(&mut self, decoded: bool)
        ensures
            final(self)@ == (if decoded {
                LanceIndexDiskCacheStats {
                    disk_hits: one_more(old(self)@.disk_hits),
                    ..old(self)@
                }
            } else {
                after_bad_entry(old(self)@)
            }),
    {
        if decoded {
            self.counters.disk_hits = self.counters.disk_hits.wrapping_add(1);
        } else {
            self.counters.disk_misses = self.counters.disk_misses.wrapping_add(1);
            self.counters.decode_failures = self.counters.decode_failures.wrapping_add(1);
        }
    }

    /// Counts a write to the disk tier: the payload that the codec made, or
    /// `None` if it failed. Gives the entry to store.
    pub fn note_encoded(&mut self, logical_size: usize, payload: Option<&[u8]>) -> (entry: Option<
        Bytes,
    >)
        ensures
            match payload {
                Some(payload) => {
                    &&& entry is Some
                    &&& octets::contents(entry->0) == framed(logical_size as u64, payload@)
                    &&& final(self)@ == (LanceIndexDiskCacheStats {
                        disk_write_bytes: foyer_data_cache::counted(
                            old(self)@.disk_write_bytes,
                            octets::contents(entry->0).len() as u64,
                        ),
                        ..old(self)@
                    })
                },
                None => entry is None && final(self)@ == (LanceIndexDiskCacheStats {
                    disk_write_errors: one_more(old(self)@.disk_write_errors),
                    ..old(self)@
                }),
            },
    {
        match payload {
            Some(payload) => {
                let entry: Bytes = frame_entry(logical_size, payload);
                let len: u64 = octets::length(&entry) as u64;
                self.counters.disk_write_bytes = self.counters.disk_write_bytes.wrapping_add(len);
                Some(entry)
            },
            None => {
                self.counters.disk_write_errors = self.counters.disk_write_errors.wrapping_add(1);
                None
            },
        }
    }
}

/// Where an index entry was found.
#[derive(Clone, Copy, Debug, PartialEq, Eq, Structural)]
pub enum MemoryReply {
    /// The memory tier had the entry.
    Hit,
    /// The memory tier did not have it.
    Miss,
}

/// What follows a memory lookup.
#[derive(Clone, Copy, Debug, PartialEq, Eq, Structural)]
pub enum GetStep {
    /// Return the entry from memory.
    Return,
    /// Return nothing: without a codec an entry lives in memory alone.
    ReturnNothing,
    /// Look the entry up on disk.
    ReadDisk,
}

/// Counts the memory lookup of a read and says what follows it. An entry that
/// memory holds is returned without a disk lookup.
pub fn next_of_get(stats: &mut IndexDiskCacheStats, reply: MemoryReply, has_codec: bool) -> (step:
    GetStep)
    ensures
        final(stats)@ == after_memory(old(stats)@, reply == MemoryReply::Hit),
        step == (if reply == MemoryReply::Hit {
            GetStep::Return
        } else if has_codec {
            GetStep::ReadDisk
        } else {
            GetStep::ReturnNothing
        }),
{
    match reply {
        MemoryReply::Hit => {
            stats.note_memory(true);
            GetStep::Return
        },
        MemoryReply::Miss => {
            stats.note_memory(false);
            if has_codec {
                GetStep::ReadDisk
            } else {
                GetStep::ReturnNothing
            }
        },
    }
}

/// What follows the disk lookup of a read.
#[derive(Clone, Copy, Debug, PartialEq, Eq, Structural)]
pub enum DiskGetStep {
    /// Put the entry into memory under its logical size, and return it.
    Promote { size_bytes: usize },
    /// Return nothing.
    ReturnNothing,
}

/// Says what follows the disk lookup of a read, given the logical size of the entry
/// that it found. What was on disk is read from memory the next time.
pub fn next_of_disk(found: Option<usize>) -> (step: DiskGetStep)
    ensures
        step == (match found {
            Some(size_bytes) => DiskGetStep::Promote { size_bytes },
            None => DiskGetStep::ReturnNothing,
        }),
{
    match found {
        Some(size_bytes) => DiskGetStep::Promote { size_bytes },
        None => DiskGetStep::ReturnNothing,
    }
}

/// Whether an entry that was put into memory goes to disk too: without a codec it
/// lives in memory alone.
pub fn insert_to_disk(has_codec: bool) -> (store: bool)
    ensures
        store == has_codec,
{
    has_codec
}

/// A load that runs when the memory tier misses.
#[derive(Clone, Copy, Debug, PartialEq, Eq, Structural)]
pub enum LoadState {
    /// The disk tier is asked first.
    ReadDisk,
    /// The source is asked; `store` says whether the result goes to disk.
    LoadSource { store: bool },
    /// The disk tier had the entry.
    FromDisk,
}

/// How a load starts.
pub fn begin_load(has_codec: bool) -> (state: LoadState)
    ensures
        state == (if has_codec {
            LoadState::ReadDisk
        } else {
            LoadState::LoadSource { store: false }
        }),
{
    if has_codec {
        LoadState::ReadDisk
    } else {
        LoadState::LoadSource { store: false }
    }
}

/// How a load goes on after the disk tier: `found` says whether it had a usable
/// entry. The source is asked only where it had none.
pub fn next_of_load(found: bool) -> (state: LoadState)
    ensures
        state == (if found {
            LoadState::FromDisk
        } else {
            LoadState::LoadSource { store: true }
        }),
{
    if found {
        LoadState::FromDisk
    } else {
        LoadState::LoadSource { store: true }
    }
}

/// What the memory tier said of a read that loads on a miss.
#[derive(Clone, Copy, Debug, PartialEq, Eq, Structural)]
pub enum LoadReply {
    /// The entry, and whether memory had it.
    Loaded { memory_hit: bool },
    /// The load failed.
    Failed,
}

/// Counts a read that loads on a miss. Says, for a read that succeeded, whether
/// the source was spared: the entry came from memory or from disk.
pub fn finish_get_or_insert(
    stats: &mut IndexDiskCacheStats,
    reply: LoadReply,
    disk_hit: bool,
) -> (cached: Option<bool>)
    ensures
        final(stats)@ == after_memory(
            old(stats)@,
            reply == (LoadReply::Loaded { memory_hit: true }),
        ),
        cached == (match reply {
            LoadReply::Loaded { memory_hit } => Some(memory_hit || disk_hit),
            LoadReply::Failed => None,
        }),
{
    match reply {
        LoadReply::Loaded { memory_hit } => {
            stats.note_memory(memory_hit);
            Some(memory_hit || disk_hit)
        },
        LoadReply::Failed => {
            stats.note_memory(false);
            None
        },
    }
}

/// The text under which cache keys name their format.
pub open spec fn cache_key_format() -> Seq<char> {
    "blake3-128-v1"@
}

/// Reads the constant `CACHE_KEY_FORMAT` of `lance_core::cache`.
#[verifier::external_body]
fn lance_cache_key_format() -> (format: &'static str)
    ensures
        format@ == cache_key_format(),
{
    lance_core::cache::CACHE_KEY_FORMAT
}

/// The key of an index entry on disk.
pub open spec fn index_key(
    generation: nat,
    type_id: Seq<char>,
    key: Seq<u8>,
) -> Seq<char> {
    "lance-index-v1:"@ + cache_key_format() + ":"@ + text::decimal(generation) + ":"@ + type_id
        + ":"@ + text::hex(key)
}

/// The key of an index entry on disk: the generation, the type that the codec
/// writes, and the sixteen octets of the cache key.
pub fn disk_key_for_generation(key: &[u8; 16], type_id: &str, generation: u64) -> (disk_key: String)
    ensures
        disk_key@ == index_key(generation as nat, type_id@, key@),
{
    let mut out: String = "lance-index-v1:".to_owned();
    out.append(lance_cache_key_format());
    out.append(":");
    text::push_decimal(&mut out, generation);
    out.append(":");
    out.append(type_id);
    out.append(":");
    text::push_hex(&mut out, key.as_slice());
    out
}

/// A path with a file name appended.
pub open spec fn joined_path(directory: Seq<char>, file: Seq<char>) -> Seq<char> {
    if directory.len() == 0 || directory.last() == '/' {
        directory + file
    } else {
        directory + "/"@ + file
    }
}

/// Where the generation of a cache directory is kept.
pub fn generation_path(directory: &str) -> (path: String)
    ensures
        path@ == joined_path(directory@, "lance-index-generation"@),
{
    let mut path: String = directory.to_owned();
    let len: usize = directory.unicode_len();
    if len > 0 && directory.get_char(len - 1) != '/' {
        path.append("/");
    }
    path.append(INDEX_GENERATION_FILE);
    path
}

/// Whether a number can be the upper half of a random identifier, whose four bits
/// above the twelve lowest name its version, four.
pub open spec fn is_random_half(number: u64) -> bool {
    number as int / 4096 % 16 == 4
}

/// Calls `Uuid::new_v4` and `Uuid::as_u64_pair` of the `uuid` crate for the
/// upper half of a random identifier. Only the bits of the version are known; the
/// others are left to chance.
#[verifier::external_body]
fn random_number() -> (number: u64)
    ensures
        is_random_half(number),
{
    uuid::Uuid::new_v4().as_u64_pair().0
}

/// A generation that no cache has used, but for chance. It is never zero.
pub fn new_generation() -> (generation: u64)
    ensures
        is_random_half(generation),
        generation != 0,
{
    random_number()
}

/// What the generation file holds.
pub enum GenerationFile {
    /// The file has this text.
    Text(String),
    /// There is no file.
    Missing,
    /// The file could not be read.
    Unreadable,
}

/// Which generation a cache starts with.
#[derive(Clone, Copy, Debug, PartialEq, Eq, Structural)]
pub enum GenerationStart {
    /// The generation that was kept.
    Kept(u64),
    /// A new generation, which must be written to the file.
    Cold,
    /// The cache cannot start.
    Failed,
}

/// Decides which generation a cache starts with. A text that is no number
/// starts a new one, so that entries of unknown origin are never read.
pub fn load_generation(file: &GenerationFile) -> (start: GenerationStart)
    ensures
        start == (match *file {
            GenerationFile::Text(text) => match text::parsed_unsigned(
                text::trimmed(text@),
                u64::MAX as nat,
            ) {
                Ok(generation) => GenerationStart::Kept(generation as u64),
                Err(_) => GenerationStart::Cold,
            },
            GenerationFile::Missing => GenerationStart::Cold,
            GenerationFile::Unreadable => GenerationStart::Failed,
        }),
{
    match file {
        GenerationFile::Text(kept) => match text::parse_unsigned(
            text::trim(kept.as_str()),
            u64::MAX,
        ) {
            Ok(generation) => GenerationStart::Kept(generation),
            Err(_) => GenerationStart::Cold,
        },
        GenerationFile::Missing => GenerationStart::Cold,
        GenerationFile::Unreadable => GenerationStart::Failed,
    }
}

/// The text that keeps a generation.
pub fn generation_text(generation: u64) -> (text: String)
    ensures
        text@ == text::decimal(generation as nat),
{
    let mut out: String = String::new();
    text::push_decimal(&mut out, generation);
    assert(out@ =~= text::decimal(generation as nat));
    out
}

/// The name of the file that a generation is written to before it replaces
/// the kept one; `unique` makes it differ from every other.
pub fn temporary_generation_file(unique: &str) -> (name: String)
    ensures
        name@ == "lance-index-generation"@ + "."@ + unique@ + ".tmp"@,
{
    let mut name: String = INDEX_GENERATION_FILE.to_owned();
    name.append(".");
    name.append(unique);
    name.append(".tmp");
    name
}

/// A generation that was kept is the generation that a cache starts with.
pub proof fn law_generation_round_trip(generation: u64)
    ensures
        text::parsed_unsigned(
            text::trimmed(text::decimal(generation as nat)),
            u64::MAX as nat,
        ) == Ok::<nat, text::IntegerError>(generation as nat),
{
    text::lemma_decimal_trimmed(generation as nat);
    text::lemma_decimal_parses(generation as nat, u64::MAX as nat);
}

/// The namespace of an index cache: its memory tier, and the generation under
/// which its entries stand on disk. `M` is the memory tier.
pub struct IndexGeneration<M> {
    pub memory: M,
    pub generation: u64,
}

impl<M> IndexGeneration<M> {
    /// Clears the cache: an empty memory tier and the next generation take the
    /// place of both tiers' entries, whether or not the generation could be
    /// written to its file.
    pub fn clear(&mut self, empty: M, next_generation: u64, persisted: bool) -> (warn: bool)
        ensures
            final(self).memory == empty,
            final(self).generation == next_generation,
            warn == !persisted,
    {
        self.memory = empty;
        self.generation = next_generation;
        !persisted
    }
}

/// Copies the counters of a session, or zeros for a session without a disk
/// tier.
pub fn lance_session_get_index_disk_cache_stats(
    last: &mut LastError,
    session: Option<Option<&IndexDiskCacheStats>>,
    out_stats: Option<&mut LanceIndexDiskCacheStats>,
) -> (status: i32)
    ensures
        error::reports(
            status,
            final(last)@,
            if session is None || out_stats is None {
                Some(error::invalid("session and out_stats must not be NULL"@))
            } else {
                None
            },
        ),
        out_stats matches Some(out) ==> *final(out) == (match session {
            None => *out,
            Some(None) => zero_stats(),
            Some(Some(stats)) => stats@,
        }),
{
    match (session, out_stats) {
        (Some(stats), Some(out)) => {
            *out = match stats {
                Some(stats) => stats.snapshot(),
                None => LanceIndexDiskCacheStats::default(),
            };
            ffi_try(last, Ok(()))
        },
        _ => ffi_try(
            last,
            Err(LanceError::invalid("session and out_stats must not be NULL")),
        ),
    }
}

/// A framed entry is the logical size in eight octets, the lowest first, and the
/// payload behind it. An entry is unframed if and only if it has those eight octets and
/// memory can address the size that they spell.
pub proof fn law_frames_hold_size_and_payload(logical_size: u64, payload: Seq<u8>, octets: Seq<u8>)
    ensures
        framed(logical_size, payload).len() == 8 + payload.len(),
        framed(logical_size, payload).skip(8) == payload,
        framed(logical_size, payload).take(8) == vstd::bytes::spec_u64_to_le_bytes(logical_size),
        unframed(octets) is Some <==> octets.len() >= 8 && vstd::bytes::spec_u64_from_le_bytes(
            octets.take(8),
        ) <= usize::MAX,
        unframed(octets) matches Some(parts) ==> parts.0 == vstd::bytes::spec_u64_from_le_bytes(
            octets.take(8),
        ) && parts.1 == octets.skip(8),
{
    vstd::bytes::lemma_auto_spec_u64_to_from_le_bytes();
    assert(framed(logical_size, payload).skip(8) =~= payload);
    assert(framed(logical_size, payload).take(8) =~= vstd::bytes::spec_u64_to_le_bytes(
        logical_size,
    ));
}

/// Statistics start with every counter at zero.
pub proof fn law_statistics_start_at_zero()
    ensures
        zero_stats().memory_hits == 0 && zero_stats().memory_misses == 0,
        zero_stats().disk_hits == 0 && zero_stats().disk_misses == 0,
        zero_stats().disk_read_bytes == 0 && zero_stats().disk_write_bytes == 0,
        zero_stats().decode_failures == 0 && zero_stats().disk_read_errors == 0
            && zero_stats().disk_write_errors == 0,
{
}

/// A counter goes up by one, and from its largest value to zero.
pub proof fn law_one_more_is_one_more(counter: u64)
    ensures
        counter < u64::MAX ==> one_more(counter) == counter + 1,
        counter == u64::MAX ==> one_more(counter) == 0,
{
}

/// A lookup in memory counts as one hit or as one miss, and as nothing else.
pub proof fn law_memory_lookup_counts_once(stats: LanceIndexDiskCacheStats)
    requires
        stats.memory_hits < u64::MAX,
        stats.memory_misses < u64::MAX,
    ensures
        after_memory(stats, true) == (LanceIndexDiskCacheStats {
            memory_hits: (stats.memory_hits + 1) as u64,
            ..stats
        }),
        after_memory(stats, false) == (LanceIndexDiskCacheStats {
            memory_misses: (stats.memory_misses + 1) as u64,
            ..stats
        }),
{
}

/// A disk reply without an entry counts as one miss, and a failed read as an error
/// besides. An entry counts with all its octets as read; one that cannot be unframed is
/// a miss and a decode failure besides. A hit is counted only once it is decoded.
pub proof fn law_disk_replies_count_once(stats: LanceIndexDiskCacheStats, entry: Bytes)
    requires
        stats.disk_misses < u64::MAX,
        stats.decode_failures < u64::MAX,
        stats.disk_read_errors < u64::MAX,
        octets::contents(entry).len() <= usize::MAX,
        stats.disk_read_bytes + octets::contents(entry).len() <= u64::MAX,
    ensures
        after_disk_reply(stats, DiskReply::Absent) == (LanceIndexDiskCacheStats {
            disk_misses: (stats.disk_misses + 1) as u64,
            ..stats
        }),
        after_disk_reply(stats, DiskReply::Failed) == (LanceIndexDiskCacheStats {
            disk_misses: (stats.disk_misses + 1) as u64,
            disk_read_errors: (stats.disk_read_errors + 1) as u64,
            ..stats
        }),
        unframed(octets::contents(entry)) is Some ==> after_disk_reply(
            stats,
            DiskReply::Entry(entry),
        ) == (LanceIndexDiskCacheStats {
            disk_read_bytes: (stats.disk_read_bytes + octets::contents(entry).len()) as u64,
            ..stats
        }),
        unframed(octets::contents(entry)) is None ==> after_disk_reply(
            stats,
            DiskReply::Entry(entry),
        ) == (LanceIndexDiskCacheStats {
            disk_read_bytes: (stats.disk_read_bytes + octets::contents(entry).len()) as u64,
            disk_misses: (stats.disk_misses + 1) as u64,
            decode_failures: (stats.decode_failures + 1) as u64,
            ..stats
        }),
        after_bad_entry(stats) == (LanceIndexDiskCacheStats {
            disk_misses: (stats.disk_misses + 1) as u64,
            decode_failures: (stats.decode_failures + 1) as u64,
            ..stats
        }),
{
}

/// A disk key names its format, its generation, its type and its key, in this order.
pub proof fn law_disk_keys_name_their_parts(generation: nat, type_id: Seq<char>, key: Seq<u8>)
    ensures
        index_key(generation, type_id, key) == "lance-index-v1:"@ + cache_key_format() + ":"@
            + text::decimal(generation) + ":"@ + type_id + ":"@ + text::hex(key),
        text::has_suffix(index_key(generation, type_id, key), ":"@ + text::hex(key)),
{
    let head = "lance-index-v1:"@ + cache_key_format() + ":"@ + text::decimal(generation) + ":"@
        + type_id;
    text::law_prefixes_and_suffixes(head, ":"@ + text::hex(key), head);
    assert(head + (":"@ + text::hex(key)) =~= index_key(generation, type_id, key));
}

/// A path joins a directory and a file with one slash between them: with its own where
/// the directory ends in one, and with none where there is no directory.
pub proof fn law_paths_are_joined_by_one_slash(directory: Seq<char>, file: Seq<char>)
    ensures
        directory.len() == 0 ==> joined_path(directory, file) == file,
        directory.len() > 0 && directory.last() == '/' ==> joined_path(directory, file) == directory
            + file,
        directory.len() > 0 && directory.last() != '/' ==> joined_path(directory, file) == directory
            + seq!['/'] + file,
{
    reveal_strlit("/");
    assert("/"@ =~= seq!['/']);
    if directory.len() == 0 {
        assert(directory + file =~= file);
    }
}

} // verus!
