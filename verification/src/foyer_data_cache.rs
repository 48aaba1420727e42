//! The data cache of a dataset: which reads it serves, under which keys its
//! entries stand, and how much it served.

use std::collections::HashMap;
use std::ops::Range;

use bytes::Bytes;
use object_store::GetRange;
use vstd::prelude::*;
use vstd::string::{StrSliceExecFns, StringExecFns};

use crate::data_blocks::DataCacheError;
use crate::data_cache::LanceDataCacheStatistics;
use crate::octets;
use crate::text;

verus! {

broadcast use vstd::std_specs::hash::group_hash_axioms;

/// The key of block `block_index` of an object.
pub open spec fn block_key(
    block_size: nat,
    store_prefix: Seq<char>,
    location: Seq<char>,
    block_index: nat,
) -> Seq<char> {
    "lance-data-v1\0"@ + text::decimal(block_size) + "\0"@ + store_prefix + "\0"@ + location
        + "\0"@ + text::decimal(block_index)
}

/// The key of the size of an object.
pub open spec fn object_size_key(
    block_size: nat,
    store_prefix: Seq<char>,
    location: Seq<char>,
) -> Seq<char> {
    "lance-data-v1\0"@ + text::decimal(block_size) + "\0"@ + store_prefix + "\0"@ + location
        + "\0size"@
}

/// Whether a path names a Lance data file: the last segment ends with
/// `.lance`, and the segment before it is `data`.
pub open spec fn is_data_file(location: Seq<char>) -> bool {
    let slash = text::last_position(location, '/');
    &&& slash >= 0
    &&& text::has_suffix(location.skip(slash + 1), ".lance"@)
    &&& ({
        let parent = location.take(slash);
        parent.skip(text::last_position(parent, '/') + 1) == "data"@
    })
}

/// The shape of the cache that one process shares among its datasets.
pub struct FoyerDataCache {
    /// The size of a cache block.
    pub read_block_size: usize,
}

impl FoyerDataCache {
    /// Whether reads of `location` go through the cache. Data files are never
    /// changed once they are written; nothing else is cached.
    pub fn is_cacheable_data_file(location: &str) -> (cacheable: bool)
        ensures
            cacheable == is_data_file(location@),
    {
        let slash: usize = match text::find_last(location, '/') {
            Some(at) => at,
            None => {
                return false;
            },
        };
        let len: usize = location.unicode_len();
        let file: &str = location.substring_char(slash + 1, len);
        let parent: &str = location.substring_char(0, slash);
        assert(file@ =~= location@.skip(slash + 1));
        assert(parent@ =~= location@.take(slash as int));
        if !text::ends_with(file, ".lance") {
            return false;
        }
        let start: usize = match text::find_last(parent, '/') {
            Some(at) => at + 1,
            None => 0,
        };
        let directory: &str = parent.substring_char(start, parent.unicode_len());
        assert(directory@ =~= parent@.skip(start as int));
        text::same_text(directory, "data")
    }

    /// The key of a block.
    pub fn key(&self, store_prefix: &str, location: &str, block_index: u64) -> (key: String)
        ensures
            key@ == block_key(
                self.read_block_size as nat,
                store_prefix@,
                location@,
                block_index as nat,
            ),
    {
        let mut key: String = "lance-data-v1\0".to_owned();
        text::push_decimal(&mut key, self.read_block_size as u64);
        key.append("\0");
        key.append(store_prefix);
        key.append("\0");
        key.append(location);
        key.append("\0");
        text::push_decimal(&mut key, block_index);
        key
    }

    /// The key of the size of an object.
    pub fn size_key(&self, store_prefix: &str, location: &str) -> (key: String)
        ensures
            key@ == object_size_key(self.read_block_size as nat, store_prefix@, location@),
    {
        let mut key: String = "lance-data-v1\0".to_owned();
        text::push_decimal(&mut key, self.read_block_size as u64);
        key.append("\0");
        key.append(store_prefix);
        key.append("\0");
        key.append(location);
        key.append("\0size");
        key
    }
}

/// The octets under which the size of an object is cached: eight, least
/// significant first.
pub fn size_entry(size: u64) -> (entry: Bytes)
    ensures
        octets::contents(entry) == vstd::bytes::spec_u64_to_le_bytes(size),
{
    octets::copy_from_slice(vstd::bytes::u64_to_le_bytes(size).as_slice())
}

/// The size that a cache entry holds; `None` for a malformed entry, which must
/// be refreshed.
pub fn parse_size_entry(entry: &Bytes) -> (size: Option<u64>)
    ensures
        size == (if octets::contents(*entry).len() == 8 {
            Some(vstd::bytes::spec_u64_from_le_bytes(octets::contents(*entry)))
        } else {
            None
        }),
{
    if octets::length(entry) == 8 {
        Some(vstd::bytes::u64_from_le_bytes(octets::as_slice(entry)))
    } else {
        None
    }
}

/// A cached size reads back as the size that was written.
pub proof fn law_size_entry_round_trip(size: u64)
    ensures
        vstd::bytes::spec_u64_to_le_bytes(size).len() == 8,
        vstd::bytes::spec_u64_from_le_bytes(vstd::bytes::spec_u64_to_le_bytes(size)) == size,
{
    vstd::bytes::lemma_auto_spec_u64_to_from_le_bytes();
}

/// Cumulative statistics of one dataset handle.
pub struct FoyerDataCacheStatistics {
    bytes_read_from_cache: u64,
    bytes_read_from_remote: u64,
}

impl View for FoyerDataCacheStatistics {
    type V = LanceDataCacheStatistics;

    closed spec fn view(&self) -> LanceDataCacheStatistics {
        LanceDataCacheStatistics {
            bytes_read_from_cache: self.bytes_read_from_cache,
            bytes_read_from_remote: self.bytes_read_from_remote,
        }
    }
}

/// A 64-bit counter after an addition that wraps around.
pub open spec fn counted(counter: u64, amount: u64) -> u64 {
    ((counter + amount) % 0x1_0000_0000_0000_0000) as u64
}

impl Default for FoyerDataCacheStatistics {
    /// Counters at zero.
    fn default() -> (statistics: FoyerDataCacheStatistics)
        ensures
            statistics@ == (LanceDataCacheStatistics {
                bytes_read_from_cache: 0,
                bytes_read_from_remote: 0,
            }),
    {
        FoyerDataCacheStatistics { bytes_read_from_cache: 0, bytes_read_from_remote: 0 }
    }
}

impl FoyerDataCacheStatistics {
    /// Adds the bytes of one read; the counters wrap around.
    pub fn record(&mut self, bytes_read_from_cache: u64, bytes_read_from_remote: u64)
        ensures
            final(self)@ == (LanceDataCacheStatistics {
                bytes_read_from_cache: counted(
                    old(self)@.bytes_read_from_cache,
                    bytes_read_from_cache,
                ),
                bytes_read_from_remote: counted(
                    old(self)@.bytes_read_from_remote,
                    bytes_read_from_remote,
                ),
            }),
    {
        self.bytes_read_from_cache = self.bytes_read_from_cache.wrapping_add(bytes_read_from_cache);
        self.bytes_read_from_remote =
        self.bytes_read_from_remote.wrapping_add(bytes_read_from_remote);
    }

    /// The counters as they stand.
    pub fn snapshot(&self) -> (statistics: LanceDataCacheStatistics)
        ensures
            statistics == self@,
    {
        LanceDataCacheStatistics {
            bytes_read_from_cache: self.bytes_read_from_cache,
            bytes_read_from_remote: self.bytes_read_from_remote,
        }
    }
}

/// What the conditions of a read request ask for.
#[derive(Clone, Copy, Debug, PartialEq, Eq, Structural)]
pub struct GetConditions {
    /// Only metadata is wanted.
    pub head: bool,
    /// The entity tag must match one of a list.
    pub if_match: bool,
    /// The entity tag must match none of a list.
    pub if_none_match: bool,
    /// The object must have changed since a time.
    pub if_modified_since: bool,
    /// The object must not have changed since a time.
    pub if_unmodified_since: bool,
    /// A certain version is wanted.
    pub version: bool,
    /// The request carries extensions for the store.
    pub extensions: bool,
}

/// Whether a read request is unconditional, so that cached blocks can answer it.
pub fn is_cache_safe_get(options: &GetConditions) -> (safe: bool)
    ensures
        safe <==> *options == (GetConditions {
            head: false,
            if_match: false,
            if_none_match: false,
            if_modified_since: false,
            if_unmodified_since: false,
            version: false,
            extensions: false,
        }),
{
    !options.head && !options.if_match && !options.if_none_match && !options.if_modified_since
        && !options.if_unmodified_since && !options.version && !options.extensions
}

/// Whether a read request goes through the cache.
pub fn serves_get(location: &str, options: &GetConditions) -> (serves: bool)
    ensures
        serves <==> is_data_file(location@) && *options == (GetConditions {
            head: false,
            if_match: false,
            if_none_match: false,
            if_modified_since: false,
            if_unmodified_since: false,
            version: false,
            extensions: false,
        }),
{
    FoyerDataCache::is_cacheable_data_file(location) && is_cache_safe_get(options)
}

/// The part of an object that a read request names.
#[derive(Clone, Copy, Debug, PartialEq, Eq, Structural)]
pub enum RequestedRange {
    /// From `start` up to `end`.
    Bounded { start: u64, end: u64 },
    /// From an offset to the end.
    Offset { offset: u64 },
    /// The last bytes.
    Suffix { count: u64 },
}

/// The bytes that a request names of an object of `len` bytes; `None` where it
/// names none that could be returned.
pub open spec fn resolved(requested: RequestedRange, len: u64) -> Option<(u64, u64)> {
    match requested {
        RequestedRange::Bounded { start, end } => if end <= start || end - start > usize::MAX
            || start >= len {
            None
        } else if end > len {
            Some((start, len))
        } else {
            Some((start, end))
        },
        RequestedRange::Offset { offset } => if offset >= len {
            None
        } else {
            Some((offset, len))
        },
        RequestedRange::Suffix { count } => Some(
            (
                if count <= len {
                    (len - count) as u64
                } else {
                    0
                },
                len,
            ),
        ),
    }
}

/// Calls `GetRange::as_range` of the `object_store` crate. It refuses a bounded
/// range that is empty, inverted or longer than `usize::MAX`, and a bounded
/// range or offset that starts at or after the end of the object. A bounded
/// range is cut at the end of the object, and a suffix longer than the object
/// is the whole object.
#[verifier::external_body]
fn as_range(requested: RequestedRange, len: u64) -> (range: Option<(u64, u64)>)
    ensures
        range == resolved(requested, len),
{
    let requested = match requested {
        RequestedRange::Bounded { start, end } => GetRange::Bounded(start..end),
        RequestedRange::Offset { offset } => GetRange::Offset(offset),
        RequestedRange::Suffix { count } => GetRange::Suffix(count),
    };
    match requested.as_range(len) {
        Ok(range) => Some((range.start, range.end)),
        Err(_) => None,
    }
}

/// How a read request of known size is served.
#[derive(Clone, Copy, Debug, PartialEq, Eq, Structural)]
pub enum GetPlan {
    /// The origin serves it, with its own errors for invalid or empty ranges.
    Origin,
    /// Cached blocks serve these bytes, chunk by chunk.
    Stream { start: u64, end: u64 },
}

/// Decides how a read request of an object of `object_size` bytes is served.
pub fn plan_get(requested: Option<RequestedRange>, object_size: u64) -> (plan: GetPlan)
    ensures
        plan == (match requested {
            None => GetPlan::Stream { start: 0, end: object_size },
            Some(requested) => match resolved(requested, object_size) {
                Some((start, end)) => if start < end {
                    GetPlan::Stream { start, end }
                } else {
                    GetPlan::Origin
                },
                None => GetPlan::Origin,
            },
        }),
{
    match requested {
        None => GetPlan::Stream { start: 0, end: object_size },
        Some(requested) => match as_range(requested, object_size) {
            Some((start, end)) => if start < end {
                GetPlan::Stream { start, end }
            } else {
                GetPlan::Origin
            },
            None => GetPlan::Origin,
        },
    }
}

/// The end of the block that holds `offset`, cut at `end`.
pub open spec fn chunk_end(offset: int, end: int, block_size: int) -> int {
    let boundary = (offset / block_size + 1) * block_size;
    if boundary < end {
        boundary
    } else {
        end
    }
}

/// The next chunk of a streamed read: no more than the rest of one block, so
/// that a consumer that stops costs no further download. `None` at the end.
pub fn next_chunk(remaining: &Range<u64>, block_size: usize) -> (chunk: Option<Range<u64>>)
    requires
        block_size > 0,
    ensures
        match chunk {
            None => remaining.start >= remaining.end,
            Some(range) => {
                &&& remaining.start < remaining.end
                &&& range.start == remaining.start
                &&& range.end == chunk_end(
                    remaining.start as int,
                    remaining.end as int,
                    block_size as int,
                )
                &&& remaining.start < range.end <= remaining.end
            },
        },
{
    if remaining.start >= remaining.end {
        return None;
    }
    let size: u64 = block_size as u64;
    let to_boundary: u64 = size - remaining.start % size;
    proof {
        let s = remaining.start as int;
        let bs = block_size as int;
        vstd::arithmetic::div_mod::lemma_fundamental_div_mod(s, bs);
        vstd::arithmetic::div_mod::lemma_mod_bound(s, bs);
        assert((s / bs + 1) * bs == bs * (s / bs) + bs) by (nonlinear_arith);
    }
    let boundary: u64 = remaining.start.saturating_add(to_boundary);
    let end: u64 = if boundary < remaining.end {
        boundary
    } else {
        remaining.end
    };
    Some(remaining.start..end)
}

/// The chunks of a streamed read, in order.
pub open spec fn stream_chunks(start: int, end: int, block_size: int) -> Seq<(int, int)>
    decreases end - start,
    when block_size > 0 && 0 <= start
    via stream_chunks_decreases
{
    if start >= end {
        Seq::empty()
    } else {
        seq![(start, chunk_end(start, end, block_size))] + stream_chunks(
            chunk_end(start, end, block_size),
            end,
            block_size,
        )
    }
}

proof fn lemma_chunk_end(start: int, end: int, block_size: int)
    requires
        block_size > 0,
        0 <= start < end,
    ensures
        start < chunk_end(start, end, block_size) <= end,
        chunk_end(start, end, block_size) - start <= block_size,
        (chunk_end(start, end, block_size) - 1) / block_size == start / block_size,
{
    let block = start / block_size;
    vstd::arithmetic::div_mod::lemma_fundamental_div_mod(start, block_size);
    vstd::arithmetic::div_mod::lemma_mod_bound(start, block_size);
    assert((block + 1) * block_size == block_size * block + block_size) by (nonlinear_arith);
    let last = chunk_end(start, end, block_size) - 1;
    let offset = last - block * block_size;
    assert(block * block_size == block_size * block) by (nonlinear_arith);
    vstd::arithmetic::div_mod::lemma_fundamental_div_mod_converse(last, block_size, block, offset);
}

#[via_fn]
proof fn stream_chunks_decreases(start: int, end: int, block_size: int) {
    if start < end {
        lemma_chunk_end(start, end, block_size);
    }
}

/// The chunks of a streamed read follow each other without gap or overlap from
/// its start to its end, and each lies inside one block.
pub proof fn law_chunks_cover_the_range(start: int, end: int, block_size: int, i: int)
    requires
        block_size > 0,
        0 <= start < end,
    ensures
        ({
            let chunks = stream_chunks(start, end, block_size);
            &&& chunks.len() > 0
            &&& chunks[0].0 == start
            &&& chunks.last().1 == end
            &&& 0 <= i < chunks.len() ==> chunks[i].0 < chunks[i].1 && chunks[i].1 - chunks[i].0
                <= block_size && chunks[i].0 / block_size == (chunks[i].1 - 1) / block_size
            &&& 0 < i < chunks.len() ==> chunks[i].0 == chunks[i - 1].1
        }),
    decreases end - start,
{
    lemma_chunk_end(start, end, block_size);
    let next = chunk_end(start, end, block_size);
    let chunks = stream_chunks(start, end, block_size);
    if next < end {
        law_chunks_cover_the_range(next, end, block_size, i - 1);
        law_chunks_cover_the_range(next, end, block_size, 0);
        let rest = stream_chunks(next, end, block_size);
        assert(chunks.last() == rest.last());
        if 0 < i < chunks.len() {
            assert(chunks[i] == rest[i - 1]);
        }
        if 1 < i < chunks.len() {
            assert(chunks[i - 1] == rest[i - 2]);
        }
    } else {
        assert(stream_chunks(next, end, block_size).len() == 0);
    }
}

/// The one buffer that a read of a single range returns.
pub fn single_result(buffers: Vec<Bytes>) -> (result: Result<Bytes, DataCacheError>)
    ensures
        match result {
            Ok(buffer) => buffers@.len() > 0 && buffer == buffers@[0],
            Err(error) => buffers@.len() == 0 && error == DataCacheError::MissingGetResult,
        },
{
    let mut buffers = buffers;
    if buffers.len() == 0 {
        Err(DataCacheError::MissingGetResult)
    } else {
        Ok(buffers.remove(0))
    }
}

/// Whether a store is replaced by the origin that was noted for it, and what is
/// noted afterwards.
pub open spec fn unwrapped<E>(
    noted: Map<usize, E>,
    identity: usize,
    wrapper_is_store: bool,
    origin_alive: bool,
) -> (bool, Map<usize, E>) {
    if noted.contains_key(identity) && wrapper_is_store && origin_alive {
        (true, noted)
    } else {
        (false, noted.remove(identity))
    }
}

/// A store that was wrapped resolves to its origin as long as both exist, so that
/// wrappers never nest, and no longer once it is forgotten.
pub proof fn law_wrappers_do_not_nest<E>(noted: Map<usize, E>, identity: usize, entry: E)
    ensures
        unwrapped(noted.insert(identity, entry), identity, true, true) == (
            true,
            noted.insert(identity, entry),
        ),
        !unwrapped(noted.remove(identity), identity, true, true).0,
        !noted.contains_key(identity) ==> noted.insert(identity, entry).remove(identity) == noted,
{
    assert(!noted.contains_key(identity) ==> noted.insert(identity, entry).remove(identity)
        =~= noted);
}

/// The stores that this cache has wrapped, by the identity of the wrapper.
pub struct WrapperRegistry<E> {
    wrapped_stores: HashMap<usize, E>,
}

impl<E> View for WrapperRegistry<E> {
    type V = Map<usize, E>;

    closed spec fn view(&self) -> Map<usize, E> {
        self.wrapped_stores@
    }
}

impl<E> WrapperRegistry<E> {
    /// A registry without wrappers.
    pub fn new() -> (registry: WrapperRegistry<E>)
        ensures
            registry@ == Map::<usize, E>::empty(),
    {
        WrapperRegistry { wrapped_stores: HashMap::new() }
    }

    /// What was noted of a wrapper.
    pub fn entry(&self, identity: usize) -> (entry: Option<&E>)
        ensures
            match entry {
                Some(entry) => self@.contains_key(identity) && *entry == self@[identity],
                None => !self@.contains_key(identity),
            },
    {
        self.wrapped_stores.get(&identity)
    }

    /// Decides whether a store is one of this cache's wrappers and is replaced
    /// by its origin. `wrapper_is_store` says that the noted wrapper still
    /// exists and is this store, `origin_alive` that its origin still exists. A
    /// note that does not hold any more is dropped.
    pub fn unwrap_store(
        &mut self,
        identity: usize,
        wrapper_is_store: bool,
        origin_alive: bool,
    ) -> (use_origin: bool)
        ensures
            (use_origin, final(self)@) == unwrapped(
                old(self)@,
                identity,
                wrapper_is_store,
                origin_alive,
            ),
    {
        let use_origin: bool = self.wrapped_stores.contains_key(&identity) && wrapper_is_store
            && origin_alive;
        if !use_origin {
            self.wrapped_stores.remove(&identity);
        }
        use_origin
    }

    /// Notes a wrapper.
    pub fn remember_wrapper(&mut self, identity: usize, entry: E)
        ensures
            final(self)@ == old(self)@.insert(identity, entry),
    {
        self.wrapped_stores.insert(identity, entry);
    }

    /// Drops what was noted of a wrapper.
    pub fn forget_wrapper(&mut self, identity: usize)
        ensures
            final(self)@ == old(self)@.remove(identity),
    {
        self.wrapped_stores.remove(&identity);
    }
}

/// The cache serves just the files that end in `.lance` and lie directly in a directory
/// named `data`, wherever that directory lies.
pub proof fn law_data_files_lie_in_a_data_directory(
    above: Seq<char>,
    directory: Seq<char>,
    name: Seq<char>,
)
    requires
        above.len() == 0 || above.last() == '/',
        !directory.contains('/'),
        !name.contains('/'),
    ensures
        is_data_file(above + directory + "/"@ + name) <==> directory == "data"@ && name.len() >= 6
            && name.skip(name.len() - 6) == ".lance"@,
        !is_data_file(name),
{
    reveal_strlit("/");
    reveal_strlit(".lance");
    let location = above + directory + "/"@ + name;
    let at = (above.len() + directory.len()) as int;
    let slash = text::last_position(location, '/');
    assert(location[at] == '/');
    text::law_last_position_is_the_last(location, '/', at);
    assert(slash >= at);
    if slash > at {
        assert(location[slash] == name[slash - at - 1]);
        assert(name.contains(name[slash - at - 1]));
    }
    assert(location.skip(slash + 1) =~= name);
    let parent = location.take(slash);
    assert(parent =~= above + directory);
    let start = text::last_position(parent, '/');
    text::law_last_position_is_the_last(parent, '/', above.len() - 1);
    if start >= above.len() {
        assert(parent[start] == directory[start - above.len()]);
        assert(directory.contains(directory[start - above.len()]));
    }
    if above.len() > 0 {
        assert(parent[above.len() - 1] == '/');
    }
    assert(start == above.len() - 1);
    assert(parent.skip(start + 1) =~= directory);
    text::law_last_position_is_the_last(name, '/', 0);
    if text::last_position(name, '/') >= 0 {
        assert(name.contains(name[text::last_position(name, '/')]));
    }
}

/// A counter adds what it is given and wraps around at the end of 64 bits; the order in
/// which amounts are counted does not matter.
pub proof fn law_counters_add_up(counter: u64, amount: u64, other: u64)
    ensures
        counter + amount <= u64::MAX ==> counted(counter, amount) == counter + amount,
        counter + amount > u64::MAX ==> counted(counter, amount) == counter + amount - u64::MAX - 1,
        counted(counted(counter, amount), other) == counted(counted(counter, other), amount),
{
}

/// A range is resolved against the length of the object: a bounded one if it holds a
/// byte, starts inside the object and can be addressed, cut at the end of the object;
/// one from an offset if that lies inside; and the last bytes of the object always, as
/// many as it has.
pub proof fn law_ranges_are_resolved_inside_the_object(
    start: u64,
    end: u64,
    count: u64,
    len: u64,
)
    ensures
        resolved(RequestedRange::Bounded { start, end }, len) is Some <==> start < end && start
            < len && end - start <= usize::MAX,
        resolved(RequestedRange::Bounded { start, end }, len) matches Some(range) ==> range.0
            == start && (end <= len ==> range.1 == end) && (end > len ==> range.1 == len),
        resolved(RequestedRange::Offset { offset: start }, len) is Some <==> start < len,
        resolved(RequestedRange::Offset { offset: start }, len) matches Some(range) ==> range.0
            == start && range.1 == len,
        resolved(RequestedRange::Suffix { count }, len) is Some,
        resolved(RequestedRange::Suffix { count }, len) matches Some(range) ==> range.1 == len && (
        count <= len ==> range.1 - range.0 == count) && (count > len ==> range.0 == 0),
{
}

/// A chunk of a stream goes on to the end of its block, or to the end of the range
/// where that comes first.
pub proof fn law_chunks_end_with_their_block(offset: int, end: int, block_size: int)
    requires
        block_size > 0,
        0 <= offset < end,
    ensures
        offset < chunk_end(offset, end, block_size) <= end,
        (chunk_end(offset, end, block_size) - 1) / block_size == offset / block_size,
        chunk_end(offset, end, block_size) < end ==> chunk_end(offset, end, block_size) % block_size
            == 0,
{
    lemma_chunk_end(offset, end, block_size);
    vstd::arithmetic::div_mod::lemma_mod_multiples_basic(offset / block_size + 1, block_size);
}

/// A store is read through its origin if and only if a wrapper of it was noted, that
/// wrapper is the store, and the origin is still there; otherwise the note is dropped,
/// and no other.
pub proof fn law_stale_wrappers_are_forgotten<E>(
    noted: Map<usize, E>,
    identity: usize,
    other: usize,
    wrapper_is_store: bool,
    origin_alive: bool,
)
    ensures
        ({
            let (use_origin, after) = unwrapped(noted, identity, wrapper_is_store, origin_alive);
            &&& use_origin <==> noted.contains_key(identity) && wrapper_is_store && origin_alive
            &&& use_origin ==> after.contains_key(identity) && after[identity] == noted[identity]
            &&& !use_origin ==> !after.contains_key(identity)
            &&& other != identity ==> (after.contains_key(other) <==> noted.contains_key(other))
            &&& other != identity && noted.contains_key(other) ==> after[other] == noted[other]
        }),
{
}

/// A key of the cache has its format, the block size, the store and the location, each
/// ended by a NUL character, and behind them the number of the block, or the word for
/// the size of the object.
pub proof fn law_keys_name_their_parts(
    block_size: nat,
    store_prefix: Seq<char>,
    location: Seq<char>,
    block_index: nat,
)
    ensures
        ({
            let head = "lance-data-v1"@ + seq!['\0'] + text::decimal(block_size) + seq!['\0']
                + store_prefix + seq!['\0'] + location + seq!['\0'];
            &&& block_key(block_size, store_prefix, location, block_index) == head + text::decimal(
                block_index,
            )
            &&& object_size_key(block_size, store_prefix, location) == head + "size"@
        }),
{
    reveal_strlit("lance-data-v1");
    reveal_strlit("lance-data-v1\0");
    reveal_strlit("\0");
    reveal_strlit("\0size");
    reveal_strlit("size");
    assert("lance-data-v1\0"@ =~= "lance-data-v1"@ + seq!['\0']);
    assert("\0"@ =~= seq!['\0']);
    assert("\0size"@ =~= seq!['\0'] + "size"@);
    let head = "lance-data-v1"@ + seq!['\0'] + text::decimal(block_size) + seq!['\0']
        + store_prefix + seq!['\0'] + location + seq!['\0'];
    assert(object_size_key(block_size, store_prefix, location) =~= head + "size"@);
}

} // verus!
