//! Reads of data files through the block cache.
//!
//! The caller performs the I/O: it asks the cache and the origin store, and
//! hands what came back to the functions here, which decide what is asked next
//! and what the read returns.
//!
//! A ranged read goes through these steps: `begin_read`, `plan_read` with the
//! size of the object, `note_lookup` for each block of the plan,
//! `close_lookups`, `absorb` with what the origin returned for the missing
//! runs, and `finish`.

use std::ops::Range;

use bytes::Bytes;
use vstd::prelude::*;

use crate::data_blocks;
use crate::data_blocks::{assemble_range, requested_bytes_by_cache_status, BlockTable, DataCacheError};
use crate::octets;

verus! {

/// At most this many cache lookups of one read run at a time, so that a large
/// read cannot starve others.
pub const DATA_CACHE_LOOKUP_CONCURRENCY: usize = 8;

/// The first step of a ranged read.
#[derive(Clone, Copy, Debug, PartialEq, Eq, Structural)]
pub enum ReadStart {
    /// Nothing is requested: the result is empty.
    Empty,
    /// The origin serves the request, with its own errors for bad ranges.
    Origin,
    /// The size of the object is needed to plan the read.
    NeedsSize,
}

/// Whether a range of the request is empty or inverted.
pub open spec fn has_empty_range(ranges: Seq<Range<u64>>) -> bool {
    exists|i: int| 0 <= i < ranges.len() && (#[trigger] ranges[i]).start >= ranges[i].end
}

/// Whether a range of the request starts at or after the end of the object.
pub open spec fn starts_past_end(ranges: Seq<Range<u64>>, object_size: int) -> bool {
    exists|i: int| 0 <= i < ranges.len() && (#[trigger] ranges[i]).start >= object_size
}

/// The requested ranges cut at the end of the object.
pub open spec fn readable_ranges(ranges: Seq<Range<u64>>, object_size: u64) -> Seq<Range<u64>> {
    ranges.map_values(
        |range: Range<u64>|
            Range {
                start: range.start,
                end: if range.end < object_size {
                    range.end
                } else {
                    object_size
                },
            },
    )
}

/// Decides how a ranged read starts.
pub fn begin_read(ranges: &[Range<u64>]) -> (start: ReadStart)
    ensures
        start == (if ranges@.len() == 0 {
            ReadStart::Empty
        } else if has_empty_range(ranges@) {
            ReadStart::Origin
        } else {
            ReadStart::NeedsSize
        }),
{
    if ranges.len() == 0 {
        return ReadStart::Empty;
    }
    let mut i: usize = 0;
    while i < ranges.len()
        invariant
            0 <= i <= ranges@.len(),
            ranges@.len() > 0,
            forall|k: int| 0 <= k < i ==> (#[trigger] ranges@[k]).start < ranges@[k].end,
        decreases ranges.len() - i,
    {
        if ranges[i].start >= ranges[i].end {
            return ReadStart::Origin;
        }
        i += 1;
    }
    ReadStart::NeedsSize
}

/// The length that block `index` must have.
pub open spec fn block_length(object_size: int, block_size: int, index: int) -> int {
    if object_size - index * block_size < block_size {
        object_size - index * block_size
    } else {
        block_size
    }
}

/// The block table after a cache lookup, which is used only where it found a
/// block of the right length.
pub open spec fn after_lookup(
    table: Map<u64, Option<Seq<u8>>>,
    index: u64,
    found: Option<Seq<u8>>,
    object_size: int,
    block_size: int,
) -> Map<u64, Option<Seq<u8>>> {
    if found matches Some(octets) && octets.len() == block_length(
        object_size,
        block_size,
        index as int,
    ) {
        table.insert(index, found)
    } else {
        table
    }
}

/// How many blocks the octets fill, the last of them perhaps in part.
pub open spec fn chunk_count(octets: Seq<u8>, block_size: int) -> int {
    (octets.len() + block_size - 1) / block_size
}

/// Part `k` of the octets, cut into blocks.
pub open spec fn chunk(octets: Seq<u8>, block_size: int, k: int) -> Seq<u8> {
    data_blocks::source_block(octets, block_size, k)
}

/// The block table after the octets of one run, which starts at block `first`.
pub open spec fn filled(
    table: Map<u64, Option<Seq<u8>>>,
    first: int,
    octets: Seq<u8>,
    block_size: int,
) -> Map<u64, Option<Seq<u8>>> {
    Map::new(
        |index: u64| table.contains_key(index),
        |index: u64|
            if first <= index < first + chunk_count(octets, block_size) {
                Some(chunk(octets, block_size, index - first))
            } else {
                table[index]
            },
    )
}

/// The cache entries that the octets of one run give, by block.
pub open spec fn run_entries(first: int, octets: Seq<u8>, block_size: int) -> Seq<(u64, Seq<u8>)> {
    Seq::new(
        chunk_count(octets, block_size) as nat,
        |k: int| ((first + k) as u64, chunk(octets, block_size, k)),
    )
}

/// How many runs and replies pair up.
pub open spec fn paired(runs: Seq<Range<u64>>, fetched: Seq<Seq<u8>>) -> int {
    if runs.len() < fetched.len() {
        runs.len() as int
    } else {
        fetched.len() as int
    }
}

/// The block table after the first `n` replies.
pub open spec fn filled_upto(
    table: Map<u64, Option<Seq<u8>>>,
    runs: Seq<Range<u64>>,
    fetched: Seq<Seq<u8>>,
    block_size: int,
    n: int,
) -> Map<u64, Option<Seq<u8>>>
    decreases n,
{
    if n <= 0 {
        table
    } else {
        filled(
            filled_upto(table, runs, fetched, block_size, n - 1),
            runs[n - 1].start as int / block_size,
            fetched[n - 1],
            block_size,
        )
    }
}

/// The cache entries of the first `n` replies, in order.
pub open spec fn entries_upto(
    runs: Seq<Range<u64>>,
    fetched: Seq<Seq<u8>>,
    block_size: int,
    n: int,
) -> Seq<(u64, Seq<u8>)>
    decreases n,
{
    if n <= 0 {
        Seq::empty()
    } else {
        entries_upto(runs, fetched, block_size, n - 1) + run_entries(
            runs[n - 1].start as int / block_size,
            fetched[n - 1],
            block_size,
        )
    }
}

/// Whether every block of the replies has an index that fits in 64 bits.
pub open spec fn indices_fit(
    runs: Seq<Range<u64>>,
    fetched: Seq<Seq<u8>>,
    block_size: int,
) -> bool {
    forall|i: int|
        #![trigger runs[i]]
        0 <= i < paired(runs, fetched) ==> runs[i].start as int / block_size + chunk_count(
            fetched[i],
            block_size,
        ) <= u64::MAX + 1
}

/// All requested ranges as the block table gives them; the first failure wins.
pub open spec fn assembled_all(
    ranges: Seq<Range<u64>>,
    block_size: int,
    table: Map<u64, Option<Seq<u8>>>,
) -> Result<Seq<Seq<u8>>, DataCacheError>
    decreases ranges.len(),
{
    if ranges.len() == 0 {
        Ok(Seq::empty())
    } else {
        match assembled_all(ranges.drop_last(), block_size, table) {
            Err(error) => Err(error),
            Ok(earlier) => match data_blocks::assembled(ranges.last(), block_size, table) {
                Err(error) => Err(error),
                Ok(octets) => Ok(earlier.push(octets)),
            },
        }
    }
}

/// The octets of each buffer.
pub open spec fn octets_of(buffers: Seq<Bytes>) -> Seq<Seq<u8>> {
    buffers.map_values(|buffer: Bytes| octets::contents(buffer))
}

/// Cache entries as block indices and octets.
pub open spec fn entries_of(entries: Seq<(u64, Bytes)>) -> Seq<(u64, Seq<u8>)> {
    entries.map_values(|entry: (u64, Bytes)| (entry.0, octets::contents(entry.1)))
}

/// The sum of the lengths of all buffers.
pub open spec fn summed_length(buffers: Seq<Seq<u8>>) -> nat
    decreases buffers.len(),
{
    if buffers.len() == 0 {
        0
    } else {
        summed_length(buffers.drop_last()) + buffers.last().len()
    }
}

/// What a cache lookup means for the read.
#[derive(Clone, Copy, Debug, PartialEq, Eq, Structural)]
pub enum LookupVerdict {
    /// The block was taken from the cache.
    Used,
    /// The cache had nothing for the block.
    Absent,
    /// The entry has a wrong length: it must be removed from the cache.
    Malformed,
}

/// A ranged read whose object size is known.
pub struct BlockRead {
    /// The requested ranges, cut at the end of the object.
    pub readable: Vec<Range<u64>>,
    /// The size of the object.
    pub object_size: u64,
    /// The size of a block.
    pub block_size: usize,
    /// The blocks that the ranges touch.
    pub table: BlockTable,
}

impl BlockRead {
    /// The ranges lie inside the object, and the table holds just the blocks
    /// that they touch.
    pub open spec fn wf(&self) -> bool {
        &&& self.block_size > 0
        &&& self.table.wf()
        &&& forall|i: int|
            0 <= i < self.readable@.len() ==> (#[trigger] self.readable@[i]).start
                < self.readable@[i].end <= self.object_size
        &&& forall|index: u64| #[trigger]
            self.table@.contains_key(index) <==> data_blocks::touched(
                self.readable@,
                self.block_size as int,
                index as int,
            )
    }

    proof fn lemma_inside(&self)
        requires
            self.wf(),
        ensures
            data_blocks::starts_inside(
                self.table@,
                self.block_size as int,
                self.object_size as int,
            ),
    {
        let bs = self.block_size as int;
        assert forall|index: u64| #[trigger] self.table@.contains_key(index) implies index * bs
            < self.object_size by {
            let i = choose|i: int|
                0 <= i < self.readable@.len() && #[trigger] data_blocks::touches(
                    self.readable@[i],
                    bs,
                    index as int,
                );
            data_blocks::lemma_touched_block(self.readable@[i], bs, index as int);
        }
    }

    /// The blocks to look up, in ascending order.
    pub fn blocks_to_look_up(&self) -> (indices: &Vec<u64>)
        ensures
            indices@ == self.table.order(),
    {
        self.table.indices()
    }

    /// Takes what the cache returned for a block: octets, or nothing.
    pub fn note_lookup(&mut self, index: u64, found: Option<Bytes>) -> (verdict: LookupVerdict)
        requires
            old(self).wf(),
            old(self).table@.contains_key(index),
        ensures
            final(self).wf(),
            final(self).readable == old(self).readable,
            final(self).object_size == old(self).object_size,
            final(self).block_size == old(self).block_size,
            final(self).table.order() == old(self).table.order(),
            verdict == (match found {
                None => LookupVerdict::Absent,
                Some(octets) => if octets::contents(octets).len() == block_length(
                    old(self).object_size as int,
                    old(self).block_size as int,
                    index as int,
                ) {
                    LookupVerdict::Used
                } else {
                    LookupVerdict::Malformed
                },
            }),
            final(self).table@ == after_lookup(
                old(self).table@,
                index,
                match found {
                    None => None,
                    Some(octets) => Some(octets::contents(octets)),
                },
                old(self).object_size as int,
                old(self).block_size as int,
            ),
    {
        match found {
            None => LookupVerdict::Absent,
            Some(octets) => {
                proof {
                    self.lemma_inside();
                    assert(0 <= index * self.block_size) by (nonlinear_arith)
                        requires
                            index >= 0,
                            self.block_size >= 0,
                    ;
                }
                let block_size: u64 = self.block_size as u64;
                let rest: u64 = self.object_size - index * block_size;
                let expected: u64 = if rest < block_size {
                    rest
                } else {
                    block_size
                };
                if octets::length(&octets) as u64 != expected {
                    return LookupVerdict::Malformed;
                }
                self.table.fill(index, octets);
                LookupVerdict::Used
            },
        }
    }

    /// Ends the lookups: how many requested bytes the cache serves and how
    /// many it does not, and which parts of the object must be fetched.
    pub fn close_lookups(self) -> (result: Result<FetchPlan, DataCacheError>)
        requires
            self.wf(),
        ensures
            match result {
                Ok(plan) => {
                    &&& plan.read == self
                    &&& plan.bytes_read_from_cache == data_blocks::saturated(
                        data_blocks::total_present(
                            self.readable@,
                            self.block_size as int,
                            self.table@,
                        ),
                    )
                    &&& plan.bytes_read_from_remote == data_blocks::saturated(
                        data_blocks::total_absent(
                            self.readable@,
                            self.block_size as int,
                            self.table@,
                        ),
                    )
                    &&& data_blocks::is_miss_runs(
                        plan.runs@,
                        self.block_size as int,
                        self.object_size as int,
                        self.table@,
                    )
                    &&& forall|index: u64| #[trigger]
                        data_blocks::is_missing(self.table@, index as int) ==> (index + 1)
                            * self.block_size <= u64::MAX
                },
                Err(error) => error == DataCacheError::BlockEndOverflow && exists|index: u64|
                    #[trigger]
                    data_blocks::is_missing(self.table@, index as int) && (index + 1)
                        * self.block_size > u64::MAX,
            },
    {
        proof {
            self.lemma_inside();
        }
        let block_size: u64 = self.block_size as u64;
        let (bytes_read_from_cache, bytes_read_from_remote) = requested_bytes_by_cache_status(
            self.readable.as_slice(),
            block_size,
            self.table.blocks(),
        );
        match self.table.miss_runs(block_size, self.object_size) {
            Ok(runs) => Ok(
                FetchPlan { read: self, bytes_read_from_cache, bytes_read_from_remote, runs },
            ),
            Err(error) => Err(error),
        }
    }
}

/// A ranged read whose lookups are done.
pub struct FetchPlan {
    /// The read.
    pub read: BlockRead,
    /// Requested bytes that lie in blocks from the cache.
    pub bytes_read_from_cache: u64,
    /// Requested bytes that lie in missing blocks.
    pub bytes_read_from_remote: u64,
    /// The parts of the object to fetch; none if the cache had every block.
    pub runs: Vec<Range<u64>>,
}

/// How a ranged read ends.
pub enum ReadEnd {
    /// The requested octets, with the bytes to add to the statistics.
    Serve { buffers: Vec<Bytes>, bytes_read_from_cache: u64, bytes_read_from_remote: u64 },
    /// The blocks cannot serve the request: the origin must.
    Bypass { error: DataCacheError },
}

/// Plans a ranged read of an object of known size; `None` where the origin must
/// serve it because a range starts at or after the end of the object.
pub fn plan_read(ranges: &[Range<u64>], object_size: u64, block_size: usize) -> (plan: Option<
    BlockRead,
>)
    requires
        block_size > 0,
        !has_empty_range(ranges@),
    ensures
        plan is None <==> starts_past_end(ranges@, object_size as int),
        plan matches Some(read) ==> {
            &&& read.wf()
            &&& read.readable@ == readable_ranges(ranges@, object_size)
            &&& read.object_size == object_size
            &&& read.block_size == block_size
            &&& forall|index: u64| #[trigger]
                read.table@.contains_key(index) ==> read.table@[index] is None
        },
{
    let mut readable: Vec<Range<u64>> = Vec::new();
    let mut i: usize = 0;
    while i < ranges.len()
        invariant
            i <= ranges@.len(),
            !has_empty_range(ranges@),
            readable@.len() == i,
            forall|k: int|
                0 <= k < i ==> readable@[k] == readable_ranges(ranges@, object_size)[k]
                    && (#[trigger] ranges@[k]).start < object_size,
        decreases ranges.len() - i,
    {
        let start: u64 = ranges[i].start;
        let end: u64 = ranges[i].end;
        if start >= object_size {
            return None;
        }
        let cut: u64 = if end < object_size {
            end
        } else {
            object_size
        };
        readable.push(start..cut);
        i += 1;
    }
    assert(readable@ =~= readable_ranges(ranges@, object_size));
    assert forall|k: int| 0 <= k < readable@.len() implies (#[trigger] readable@[k]).start
        < readable@[k].end <= object_size by {
        assert(ranges@[k].start < ranges@[k].end);
    }
    let table = BlockTable::of_ranges(readable.as_slice(), block_size as u64);
    Some(BlockRead { readable, object_size, block_size, table })
}

/// How many lookups of one read may run at a time.
pub fn lookup_concurrency(blocks: usize) -> (concurrency: usize)
    ensures
        concurrency == (if blocks < 1 {
            1
        } else if blocks > DATA_CACHE_LOOKUP_CONCURRENCY {
            DATA_CACHE_LOOKUP_CONCURRENCY
        } else {
            blocks
        }),
        1 <= concurrency <= 8,
        1 <= blocks <= 8 ==> concurrency == blocks,
        blocks > 8 ==> concurrency == 8,
{
    if blocks < 1 {
        1
    } else if blocks > DATA_CACHE_LOOKUP_CONCURRENCY {
        DATA_CACHE_LOOKUP_CONCURRENCY
    } else {
        blocks
    }
}

/// The sum of the lengths of all buffers, saturating at `u64::MAX`.
pub fn total_bytes(buffers: &[Bytes]) -> (total: u64)
    ensures
        total == data_blocks::saturated(summed_length(octets_of(buffers@))),
{
    let mut total: u64 = 0;
    let mut i: usize = 0;
    while i < buffers.len()
        invariant
            i <= buffers@.len(),
            total == data_blocks::saturated(summed_length(octets_of(buffers@.take(i as int)))),
        decreases buffers.len() - i,
    {
        total = total.saturating_add(octets::length(&buffers[i]) as u64);
        assert(octets_of(buffers@.take(i + 1)).drop_last() =~= octets_of(buffers@.take(i as int)));
        i += 1;
    }
    assert(buffers@.take(i as int) =~= buffers@);
    total
}

/// The block table after the first `k` blocks of a run.
spec fn filled_blocks(
    table: Map<u64, Option<Seq<u8>>>,
    first: int,
    octets: Seq<u8>,
    block_size: int,
    k: int,
) -> Map<u64, Option<Seq<u8>>> {
    Map::new(
        |index: u64| table.contains_key(index),
        |index: u64|
            if first <= index < first + k {
                Some(chunk(octets, block_size, index - first))
            } else {
                table[index]
            },
    )
}

/// Where block `k` of some octets lies.
proof fn lemma_chunk_bounds(len: nat, block_size: int, k: int)
    requires
        block_size > 0,
        k >= 0,
    ensures
        k * block_size < len <==> k < (len + block_size - 1) / block_size,
        (k + 1) * block_size == k * block_size + block_size,
        0 <= k * block_size,
{
    let total = len + block_size - 1;
    let q = total / block_size;
    vstd::arithmetic::div_mod::lemma_fundamental_div_mod(total, block_size);
    vstd::arithmetic::div_mod::lemma_mod_bound(total, block_size);
    assert(block_size * q == q * block_size) by (nonlinear_arith);
    assert((k + 1) * block_size == k * block_size + block_size) by (nonlinear_arith);
    assert(0 <= k * block_size) by (nonlinear_arith)
        requires
            k >= 0,
            block_size > 0,
    ;
    if k < q {
        assert((k + 1) * block_size <= q * block_size) by (nonlinear_arith)
            requires
                k + 1 <= q,
                block_size > 0,
        ;
    } else {
        assert(q * block_size <= k * block_size) by (nonlinear_arith)
            requires
                q <= k,
                block_size > 0,
        ;
    }
}

impl FetchPlan {
    /// The read is well formed.
    pub open spec fn wf(&self) -> bool {
        self.read.wf()
    }

    /// Whether a buffer can be reserved for each requested range.
    pub open spec fn can_finish(&self) -> bool {
        forall|i: int|
            0 <= i < self.read.readable@.len() ==> data_blocks::reservable(
                #[trigger] self.read.readable@[i],
                self.read.block_size as int,
            )
    }

    /// Whether every block of the replies has an index that fits in 64 bits.
    pub fn replies_fit(&self, fetched: &Vec<Bytes>) -> (fit: bool)
        requires
            self.wf(),
        ensures
            fit == indices_fit(self.runs@, octets_of(fetched@), self.read.block_size as int),
    {
        let ghost bs = self.read.block_size as int;
        let block_size: u64 = self.read.block_size as u64;
        let mut i: usize = 0;
        while i < self.runs.len() && i < fetched.len()
            invariant
                self.wf(),
                bs == self.read.block_size,
                block_size == self.read.block_size,
                i <= self.runs@.len(),
                i <= fetched@.len(),
                forall|k: int|
                    #![trigger self.runs@[k]]
                    0 <= k < i ==> self.runs@[k].start as int / bs + chunk_count(
                        octets_of(fetched@)[k],
                        bs,
                    ) <= u64::MAX + 1,
            decreases self.runs.len() - i,
        {
            let first: u64 = self.runs[i].start / block_size;
            let len: u64 = octets::length(&fetched[i]) as u64;
            let count: u64 = if len == 0 {
                0
            } else {
                (len - 1) / block_size + 1
            };
            proof {
                let octets = octets_of(fetched@)[i as int];
                assert(octets.len() == len);
                if len == 0 {
                    assert((bs - 1) / bs == 0) by {
                        vstd::arithmetic::div_mod::lemma_basic_div(bs - 1, bs);
                    }
                } else {
                    assert((len - 1 + bs) / bs == (len - 1) / bs + 1) by {
                        vstd::arithmetic::div_mod::lemma_div_plus_one(len - 1, bs);
                    }
                    assert(len + bs - 1 == len - 1 + bs);
                }
            }
            if count > 0 && first > u64::MAX - (count - 1) {
                assert(self.runs@[i as int].start as int / bs + chunk_count(
                    octets_of(fetched@)[i as int],
                    bs,
                ) > u64::MAX + 1);
                return false;
            }
            i += 1;
        }
        true
    }

    /// Takes what the origin returned for the runs and gives the entries to
    /// write to the cache.
    pub fn absorb(&mut self, fetched: &Vec<Bytes>) -> (entries: Vec<(u64, Bytes)>)
        requires
            old(self).wf(),
            indices_fit(
                old(self).runs@,
                octets_of(fetched@),
                old(self).read.block_size as int,
            ),
        ensures
            final(self).wf(),
            final(self).runs == old(self).runs,
            final(self).bytes_read_from_cache == old(self).bytes_read_from_cache,
            final(self).bytes_read_from_remote == old(self).bytes_read_from_remote,
            final(self).read.readable == old(self).read.readable,
            final(self).read.object_size == old(self).read.object_size,
            final(self).read.block_size == old(self).read.block_size,
            final(self).read.table@ == filled_upto(
                old(self).read.table@,
                old(self).runs@,
                octets_of(fetched@),
                old(self).read.block_size as int,
                paired(old(self).runs@, octets_of(fetched@)),
            ),
            entries_of(entries@) == entries_upto(
                old(self).runs@,
                octets_of(fetched@),
                old(self).read.block_size as int,
                paired(old(self).runs@, octets_of(fetched@)),
            ),
    {
        let ghost bs = self.read.block_size as int;
        let ghost before = self.read.table@;
        let ghost replies = octets_of(fetched@);
        let ghost start_self = *self;
        let mut entries: Vec<(u64, Bytes)> = Vec::new();
        assert(entries_of(entries@) =~= Seq::<(u64, Seq<u8>)>::empty());
        let mut i: usize = 0;
        while i < self.runs.len() && i < fetched.len()
            invariant
                self.wf(),
                self.runs == start_self.runs,
                self.bytes_read_from_cache == start_self.bytes_read_from_cache,
                self.bytes_read_from_remote == start_self.bytes_read_from_remote,
                self.read.readable == start_self.read.readable,
                self.read.object_size == start_self.read.object_size,
                self.read.block_size == start_self.read.block_size,
                bs == self.read.block_size,
                bs > 0,
                replies == octets_of(fetched@),
                indices_fit(self.runs@, replies, bs),
                i <= self.runs@.len(),
                i <= fetched@.len(),
                self.read.table@ == filled_upto(before, self.runs@, replies, bs, i as int),
                entries_of(entries@) == entries_upto(self.runs@, replies, bs, i as int),
            decreases self.runs.len() - i,
        {
            let first: u64 = self.runs[i].start / (self.read.block_size as u64);
            let ghost octets = replies[i as int];
            let ghost table = self.read.table@;
            let ghost listed = entries_of(entries@);
            let len: usize = octets::length(&fetched[i]);
            let block_size: usize = self.read.block_size;
            let mut at: usize = 0;
            let mut k: u64 = 0;
            proof {
                assert(octets.len() == len);
                assert(first + chunk_count(octets, bs) <= u64::MAX + 1) by {
                    let run = self.runs@[i as int];
                }
                lemma_chunk_bounds(len as nat, bs, 0);
                vstd::arithmetic::div_mod::lemma_div_pos_is_pos(len + bs - 1, bs);
                assert(table =~= filled_blocks(table, first as int, octets, bs, 0));
                assert(listed =~= listed + run_entries(first as int, octets, bs).take(0));
            }
            while at < len
                invariant
                    self.wf(),
                    self.runs == start_self.runs,
                    self.bytes_read_from_cache == start_self.bytes_read_from_cache,
                    self.bytes_read_from_remote == start_self.bytes_read_from_remote,
                    self.read.readable == start_self.read.readable,
                    self.read.object_size == start_self.read.object_size,
                    self.read.block_size == start_self.read.block_size,
                    block_size == self.read.block_size,
                    bs == block_size,
                    bs > 0,
                    i < fetched@.len(),
                    octets == octets::contents(fetched@[i as int]),
                    len == octets.len(),
                    at <= len,
                    at == len || at == k * bs,
                    at == len ==> k == chunk_count(octets, bs),
                    k <= chunk_count(octets, bs),
                    first + chunk_count(octets, bs) <= u64::MAX + 1,
                    self.read.table@ == filled_blocks(table, first as int, octets, bs, k as int),
                    entries_of(entries@) == listed + run_entries(first as int, octets, bs).take(
                        k as int,
                    ),
                decreases len - at,
            {
                proof {
                    lemma_chunk_bounds(len as nat, bs, k as int);
                    lemma_chunk_bounds(len as nat, bs, k + 1);
                    assert(k <= k * bs) by (nonlinear_arith)
                        requires
                            k >= 0,
                            bs > 0,
                    ;
                }
                let end: usize = if len - at < block_size {
                    len
                } else {
                    at + block_size
                };
                let index: u64 = first + k;
                let part: &[u8] = vstd::slice::slice_subrange(
                    octets::as_slice(&fetched[i]),
                    at,
                    end,
                );
                let value: Bytes = octets::copy_from_slice(part);
                let ghost noted = self.read.table@;
                assert(octets::contents(value) == chunk(octets, bs, k as int));
                let ghost listed_before = entries@;
                entries.push((index, octets::share(&value)));
                self.read.table.fill(index, value);
                proof {
                    assert(entries_of(entries@) =~= entries_of(listed_before).push(
                        (index, chunk(octets, bs, k as int)),
                    ));
                    let all = run_entries(first as int, octets, bs);
                    assert(all.take(k + 1) =~= all.take(k as int).push(all[k as int]));
                    assert((listed + all.take(k as int)).push(all[k as int]) =~= listed + all.take(
                        k + 1,
                    ));
                    assert(self.read.table@ =~= filled_blocks(
                        table,
                        first as int,
                        octets,
                        bs,
                        k + 1,
                    ));
                    assert(self.read.wf()) by {
                        assert forall|index: u64| #[trigger]
                            self.read.table@.contains_key(index) <==> noted.contains_key(
                                index,
                            ) by {}
                    }
                }
                at = end;
                k += 1;
            }
            proof {
                lemma_chunk_bounds(len as nat, bs, k as int);
                if k < chunk_count(octets, bs) {
                    assert(k * bs < len);
                }
                assert(k == chunk_count(octets, bs));
                let all = run_entries(first as int, octets, bs);
                assert(all.take(k as int) =~= all);
                assert(self.read.table@ =~= filled(table, first as int, octets, bs));
            }
            i += 1;
        }
        entries
    }

    /// Whether a buffer can be reserved for each requested range.
    pub fn finishable(&self) -> (can: bool)
        requires
            self.wf(),
        ensures
            can == self.can_finish(),
    {
        let block_size: u64 = self.read.block_size as u64;
        let mut i: usize = 0;
        while i < self.read.readable.len()
            invariant
                self.wf(),
                block_size == self.read.block_size,
                i <= self.read.readable@.len(),
                forall|k: int|
                    0 <= k < i ==> data_blocks::reservable(
                        #[trigger] self.read.readable@[k],
                        self.read.block_size as int,
                    ),
            decreases self.read.readable.len() - i,
        {
            let start: u64 = self.read.readable[i].start;
            let end: u64 = self.read.readable[i].end;
            let ghost range = self.read.readable@[i as int];
            assert(range.start < range.end);
            if start / block_size != (end - 1) / block_size && end - start > isize::MAX as u64
                && end - start <= usize::MAX as u64 {
                assert(!data_blocks::reservable(range, self.read.block_size as int));
                return false;
            }
            i += 1;
        }
        true
    }

    /// Ends the read.
    pub fn finish(self) -> (end: ReadEnd)
        requires
            self.wf(),
            self.can_finish(),
        ensures
            match end {
                ReadEnd::Serve { buffers, bytes_read_from_cache, bytes_read_from_remote } => {
                    &&& assembled_all(
                        self.read.readable@,
                        self.read.block_size as int,
                        self.read.table@,
                    ) == Ok::<Seq<Seq<u8>>, DataCacheError>(octets_of(buffers@))
                    &&& bytes_read_from_cache == self.bytes_read_from_cache
                    &&& bytes_read_from_remote == self.bytes_read_from_remote
                },
                ReadEnd::Bypass { error } => assembled_all(
                    self.read.readable@,
                    self.read.block_size as int,
                    self.read.table@,
                ) == Err::<Seq<Seq<u8>>, DataCacheError>(error),
            },
    {
        let ghost bs = self.read.block_size as int;
        let ghost ranges = self.read.readable@;
        let ghost table = self.read.table@;
        let block_size: u64 = self.read.block_size as u64;
        let mut buffers: Vec<Bytes> = Vec::new();
        let mut i: usize = 0;
        assert(octets_of(buffers@) =~= Seq::<Seq<u8>>::empty());
        while i < self.read.readable.len()
            invariant
                self.wf(),
                self.can_finish(),
                bs == self.read.block_size,
                block_size == self.read.block_size,
                ranges == self.read.readable@,
                table == self.read.table@,
                i <= ranges.len(),
                assembled_all(ranges.take(i as int), bs, table) == Ok::<
                    Seq<Seq<u8>>,
                    DataCacheError,
                >(octets_of(buffers@)),
            decreases self.read.readable.len() - i,
        {
            proof {
                assert(ranges.take(i + 1).drop_last() =~= ranges.take(i as int));
            }
            let ghost before = buffers@;
            match assemble_range(&self.read.readable[i], block_size, self.read.table.blocks()) {
                Ok(octets) => {
                    buffers.push(octets);
                    assert(octets_of(buffers@) =~= octets_of(before).push(
                        octets::contents(octets),
                    ));
                },
                Err(error) => {
                    proof {
                        lemma_assembly_failure(ranges, bs, table, i + 1);
                    }
                    return ReadEnd::Bypass { error };
                },
            }
            i += 1;
        }
        assert(ranges.take(i as int) =~= ranges);
        ReadEnd::Serve {
            buffers,
            bytes_read_from_cache: self.bytes_read_from_cache,
            bytes_read_from_remote: self.bytes_read_from_remote,
        }
    }
}

/// A failure among the first ranges is the failure of the whole read.
proof fn lemma_assembly_failure(
    ranges: Seq<Range<u64>>,
    block_size: int,
    table: Map<u64, Option<Seq<u8>>>,
    n: int,
)
    requires
        0 <= n <= ranges.len(),
        assembled_all(ranges.take(n), block_size, table) is Err,
    ensures
        assembled_all(ranges, block_size, table) == assembled_all(
            ranges.take(n),
            block_size,
            table,
        ),
    decreases ranges.len() - n,
{
    if n < ranges.len() {
        assert(ranges.take(n + 1).drop_last() =~= ranges.take(n));
        lemma_assembly_failure(ranges, block_size, table, n + 1);
    } else {
        assert(ranges.take(n) =~= ranges);
    }
}

/// Whether every known block of a table holds the object's own octets.
pub open spec fn faithful(
    table: Map<u64, Option<Seq<u8>>>,
    data: Seq<u8>,
    block_size: int,
) -> bool {
    forall|index: u64| #[trigger]
        table.contains_key(index) && table[index] is Some ==> data_blocks::holds_block(
            table,
            data,
            block_size,
            index as int,
        )
}

/// The octets of each range of an object.
pub open spec fn source_ranges(ranges: Seq<Range<u64>>, data: Seq<u8>) -> Seq<Seq<u8>> {
    ranges.map_values(|range: Range<u64>| data.subrange(range.start as int, range.end as int))
}

/// A run of missing blocks ends at a block boundary or at the end of the object.
proof fn lemma_run_end(
    runs: Seq<Range<u64>>,
    block_size: int,
    object_size: int,
    table: Map<u64, Option<Seq<u8>>>,
    i: int,
)
    requires
        block_size > 0,
        data_blocks::is_miss_runs(runs, block_size, object_size, table),
        0 <= i < runs.len(),
    ensures
        runs[i].end == object_size || runs[i].end as int % block_size == 0,
{
    let run = runs[i];
    let end = run.end as int;
    if end < object_size {
        assert(!data_blocks::in_runs(runs, end)) by {
            if data_blocks::in_runs(runs, end) {
                let j = choose|j: int|
                    0 <= j < runs.len() && (#[trigger] runs[j]).start <= end < runs[j].end;
                if j < i {
                    assert(runs[j].end < runs[i].start);
                } else if j > i {
                    assert(runs[i].end < runs[j].start);
                }
            }
        }
        assert(data_blocks::in_runs(runs, end - 1)) by {
            assert(runs[i].start <= end - 1 < runs[i].end);
        }
        let q = (end - 1) / block_size;
        data_blocks::lemma_in_block(end - 1, block_size, q);
        data_blocks::lemma_in_block(end, block_size, q);
        assert(end == (q + 1) * block_size);
        vstd::arithmetic::div_mod::lemma_mod_multiples_basic(q + 1, block_size);
    }
}

/// The octets of a run, cut into blocks, are the blocks of the object.
proof fn lemma_run_chunk(
    runs: Seq<Range<u64>>,
    block_size: int,
    data: Seq<u8>,
    table: Map<u64, Option<Seq<u8>>>,
    i: int,
    index: int,
)
    requires
        block_size > 0,
        data_blocks::is_miss_runs(runs, block_size, data.len() as int, table),
        0 <= i < runs.len(),
    ensures
        ({
            let first = runs[i].start as int / block_size;
            let octets = data.subrange(runs[i].start as int, runs[i].end as int);
            &&& runs[i].start == first * block_size
            &&& first <= index < first + chunk_count(octets, block_size) ==> chunk(
                octets,
                block_size,
                index - first,
            ) == data_blocks::source_block(data, block_size, index)
            &&& runs[i].start <= index * block_size < runs[i].end ==> first <= index < first
                + chunk_count(octets, block_size)
        }),
{
    let run = runs[i];
    let first = run.start as int / block_size;
    let octets = data.subrange(run.start as int, run.end as int);
    vstd::arithmetic::div_mod::lemma_fundamental_div_mod(run.start as int, block_size);
    assert(block_size * first == first * block_size) by (nonlinear_arith);
    lemma_run_end(runs, block_size, data.len() as int, table, i);
    let k = index - first;
    assert(k * block_size == index * block_size - first * block_size) by (nonlinear_arith)
        requires
            k == index - first,
    ;
    if run.start <= index * block_size < run.end {
        if index < first {
            assert((index + 1) * block_size <= first * block_size) by (nonlinear_arith)
                requires
                    index + 1 <= first,
                    block_size > 0,
            ;
            assert((index + 1) * block_size == index * block_size + block_size) by (nonlinear_arith);
        }
        lemma_chunk_bounds(octets.len(), block_size, k);
    }
    if first <= index < first + chunk_count(octets, block_size) {
        lemma_chunk_bounds(octets.len(), block_size, k);
        assert((index + 1) * block_size == index * block_size + block_size) by (nonlinear_arith);
        assert((k + 1) * block_size == k * block_size + block_size) by (nonlinear_arith);
        if run.end < data.len() {
            let q = run.end as int / block_size;
            vstd::arithmetic::div_mod::lemma_fundamental_div_mod(run.end as int, block_size);
            assert(block_size * q == q * block_size) by (nonlinear_arith);
            assert(index * block_size < q * block_size);
            assert(index < q) by (nonlinear_arith)
                requires
                    index * block_size < q * block_size,
                    block_size > 0,
            ;
            assert((index + 1) * block_size <= q * block_size) by (nonlinear_arith)
                requires
                    index + 1 <= q,
                    block_size > 0,
            ;
        }
        assert(chunk(octets, block_size, k) =~= data_blocks::source_block(
            data,
            block_size,
            index,
        ));
    }
}

/// What the table holds after the object's octets for the first `n` runs.
proof fn lemma_filled_upto(
    table: Map<u64, Option<Seq<u8>>>,
    runs: Seq<Range<u64>>,
    block_size: int,
    data: Seq<u8>,
    n: int,
)
    requires
        block_size > 0,
        faithful(table, data, block_size),
        data_blocks::is_miss_runs(runs, block_size, data.len() as int, table),
        0 <= n <= runs.len(),
    ensures
        ({
            let after = filled_upto(table, runs, source_ranges(runs, data), block_size, n);
            &&& after.dom() == table.dom()
            &&& faithful(after, data, block_size)
            &&& forall|index: u64|
                #![trigger after[index]]
                after.contains_key(index) && (table[index] is Some || exists|i: int|
                    0 <= i < n && (#[trigger] runs[i]).start <= index * block_size < runs[i].end)
                    ==> after[index] is Some
        }),
    decreases n,
{
    let fetched = source_ranges(runs, data);
    let after = filled_upto(table, runs, fetched, block_size, n);
    if n > 0 {
        lemma_filled_upto(table, runs, block_size, data, n - 1);
        let before = filled_upto(table, runs, fetched, block_size, n - 1);
        let first = runs[n - 1].start as int / block_size;
        let octets = fetched[n - 1];
        assert(octets == data.subrange(runs[n - 1].start as int, runs[n - 1].end as int));
        assert(after == filled(before, first, octets, block_size));
        assert(after.dom() =~= table.dom());
        assert forall|index: u64| #[trigger]
            after.contains_key(index) && after[index] is Some implies data_blocks::holds_block(
            after,
            data,
            block_size,
            index as int,
        ) by {
            lemma_run_chunk(runs, block_size, data, table, n - 1, index as int);
            assert(before.contains_key(index));
        }
        assert forall|index: u64|
            #![trigger after[index]]
            after.contains_key(index) && (table[index] is Some || exists|i: int|
                0 <= i < n && (#[trigger] runs[i]).start <= index * block_size < runs[i].end) implies
            after[index] is Some by {
            lemma_run_chunk(runs, block_size, data, table, n - 1, index as int);
            assert(before.contains_key(index));
            if !(runs[n - 1].start <= index * block_size < runs[n - 1].end) {
                assert(before[index] is Some);
            }
        }
    } else {
        assert(after == table);
    }
}

/// Reading the ranges of a table that holds the object's octets for every
/// touched block.
proof fn lemma_assembled_all(
    ranges: Seq<Range<u64>>,
    block_size: u64,
    table: Map<u64, Option<Seq<u8>>>,
    data: Seq<u8>,
)
    requires
        block_size > 0,
        block_size <= usize::MAX || data.len() <= usize::MAX,
        forall|i: int|
            0 <= i < ranges.len() ==> (#[trigger] ranges[i]).start < ranges[i].end <= data.len()
                && ranges[i].end - ranges[i].start <= usize::MAX,
        forall|index: int| #[trigger]
            data_blocks::touched(ranges, block_size as int, index) ==> data_blocks::holds_block(
                table,
                data,
                block_size as int,
                index,
            ),
    ensures
        assembled_all(ranges, block_size as int, table) == Ok::<Seq<Seq<u8>>, DataCacheError>(
            source_ranges(ranges, data),
        ),
    decreases ranges.len(),
{
    let bs = block_size as int;
    if ranges.len() > 0 {
        let earlier = ranges.drop_last();
        assert forall|index: int| #[trigger]
            data_blocks::touched(earlier, bs, index) implies data_blocks::holds_block(
            table,
            data,
            bs,
            index,
        ) by {
            let i = choose|i: int|
                0 <= i < earlier.len() && #[trigger] data_blocks::touches(earlier[i], bs, index);
            assert(data_blocks::touches(ranges[i], bs, index));
            assert(data_blocks::touched(ranges, bs, index));
        }
        assert forall|i: int| 0 <= i < earlier.len() implies (#[trigger] earlier[i]).start
            < earlier[i].end <= data.len() && earlier[i].end - earlier[i].start <= usize::MAX by {
            assert(earlier[i] == ranges[i]);
        }
        lemma_assembled_all(earlier, block_size, table, data);
        let range = ranges.last();
        assert(range == ranges[ranges.len() - 1]);
        assert forall|i: int|
            range.start as int / bs <= i <= (range.end - 1) / bs implies #[trigger] data_blocks::holds_block(
            table,
            data,
            bs,
            i,
        ) by {
            assert(data_blocks::touches(ranges[ranges.len() - 1], bs, i));
            assert(data_blocks::touched(ranges, bs, i));
        }
        data_blocks::law_assembly_returns_the_source(range, block_size, table, data);
        assert(source_ranges(ranges, data) =~= source_ranges(earlier, data).push(
            data.subrange(range.start as int, range.end as int),
        ));
    } else {
        assert(source_ranges(ranges, data) =~= Seq::<Seq<u8>>::empty());
    }
}

/// Reading through the cache gives back the object's own octets: where the
/// blocks that the cache had are blocks of the object, and the origin returns
/// the object's octets for the missing runs, every requested range comes out as
/// that part of the object. Each range must be what memory can address; the object
/// need not be.
pub proof fn law_cached_reads_are_transparent(
    ranges: Seq<Range<u64>>,
    block_size: u64,
    table: Map<u64, Option<Seq<u8>>>,
    runs: Seq<Range<u64>>,
    data: Seq<u8>,
)
    requires
        block_size > 0,
        data.len() <= u64::MAX,
        block_size <= usize::MAX || data.len() <= usize::MAX,
        forall|i: int|
            0 <= i < ranges.len() ==> (#[trigger] ranges[i]).start < ranges[i].end <= data.len()
                && ranges[i].end - ranges[i].start <= usize::MAX,
        forall|index: u64| #[trigger]
            table.contains_key(index) <==> data_blocks::touched(
                ranges,
                block_size as int,
                index as int,
            ),
        faithful(table, data, block_size as int),
        data_blocks::is_miss_runs(runs, block_size as int, data.len() as int, table),
    ensures
        assembled_all(
            ranges,
            block_size as int,
            filled_upto(
                table,
                runs,
                source_ranges(runs, data),
                block_size as int,
                runs.len() as int,
            ),
        ) == Ok::<Seq<Seq<u8>>, DataCacheError>(source_ranges(ranges, data)),
{
    let bs = block_size as int;
    lemma_filled_upto(table, runs, bs, data, runs.len() as int);
    let after = filled_upto(table, runs, source_ranges(runs, data), bs, runs.len() as int);
    assert forall|index: int| #[trigger]
        data_blocks::touched(ranges, bs, index) implies data_blocks::holds_block(
        after,
        data,
        bs,
        index,
    ) by {
        let i = choose|i: int|
            0 <= i < ranges.len() && #[trigger] data_blocks::touches(ranges[i], bs, index);
        data_blocks::lemma_touched_block(ranges[i], bs, index);
        let key = index as u64;
        assert(index <= index * bs < u64::MAX);
        assert(table.contains_key(key));
        assert(after.contains_key(key));
        if table[key] is None {
            data_blocks::lemma_in_block(index * bs, bs, index);
            assert((index + 1) * bs == index * bs + bs) by (nonlinear_arith);
            assert(data_blocks::is_missing(table, index));
            assert(data_blocks::in_runs(runs, index * bs));
        }
        assert(after[key] is Some);
    }
    lemma_assembled_all(ranges, block_size, after, data);
}

proof fn lemma_entries_upto(
    runs: Seq<Range<u64>>,
    block_size: int,
    table: Map<u64, Option<Seq<u8>>>,
    data: Seq<u8>,
    n: int,
)
    requires
        block_size > 0,
        data.len() <= u64::MAX,
        data_blocks::is_miss_runs(runs, block_size, data.len() as int, table),
        0 <= n <= runs.len(),
    ensures
        ({
            let entries = entries_upto(runs, source_ranges(runs, data), block_size, n);
            &&& forall|k: int|
                0 <= k < entries.len() ==> usable_entry(#[trigger] entries[k], data, block_size)
            &&& forall|index: u64, i: int|
                #![trigger entered(entries, index), runs[i]]
                0 <= i < n && runs[i].start <= index * block_size < runs[i].end ==> entered(
                    entries,
                    index,
                )
        }),
    decreases n,
{
    let fetched = source_ranges(runs, data);
    let entries = entries_upto(runs, fetched, block_size, n);
    if n > 0 {
        lemma_entries_upto(runs, block_size, table, data, n - 1);
        let earlier = entries_upto(runs, fetched, block_size, n - 1);
        let run = runs[n - 1];
        let first = run.start as int / block_size;
        let octets = fetched[n - 1];
        assert(octets == data.subrange(run.start as int, run.end as int));
        let added = run_entries(first, octets, block_size);
        assert(entries == earlier + added);
        vstd::arithmetic::div_mod::lemma_div_pos_is_pos(run.start as int, block_size);
        vstd::arithmetic::div_mod::lemma_div_pos_is_pos(
            octets.len() + block_size - 1,
            block_size,
        );
        assert forall|k: int| 0 <= k < entries.len() implies usable_entry(
            #[trigger] entries[k],
            data,
            block_size,
        ) by {
            if k < earlier.len() {
                assert(entries[k] == earlier[k]);
            } else {
                let j = k - earlier.len();
                let index = first + j;
                assert(entries[k] == added[j]);
                lemma_run_chunk(runs, block_size, data, table, n - 1, index);
                lemma_chunk_bounds(octets.len(), block_size, j);
                assert(index * block_size == first * block_size + j * block_size)
                    by (nonlinear_arith)
                    requires
                        index == first + j,
                ;
                assert(0 <= index <= index * block_size) by (nonlinear_arith)
                    requires
                        index >= 0,
                        block_size > 0,
                ;
                assert((index + 1) * block_size == index * block_size + block_size)
                    by (nonlinear_arith);
            }
        }
        assert forall|index: u64, i: int|
            #![trigger entered(entries, index), runs[i]]
            0 <= i < n && runs[i].start <= index * block_size < runs[i].end implies entered(
            entries,
            index,
        ) by {
            if i < n - 1 {
                assert(entered(earlier, index));
                let k = choose|k: int| 0 <= k < earlier.len() && (#[trigger] earlier[k]).0 == index;
                assert(entries[k].0 == index);
            } else {
                lemma_run_chunk(runs, block_size, data, table, n - 1, index as int);
                assert(added[index - first].0 == index);
                assert(entries[earlier.len() + (index - first)].0 == index);
            }
        }
    }
}

/// Whether a cache entry is the object's own block, with the length that a later
/// lookup asks for.
pub open spec fn usable_entry(entry: (u64, Seq<u8>), data: Seq<u8>, block_size: int) -> bool {
    &&& entry.1 == data_blocks::source_block(data, block_size, entry.0 as int)
    &&& entry.1.len() == block_length(data.len() as int, block_size, entry.0 as int)
}

/// Whether there is an entry for a block.
pub open spec fn entered(entries: Seq<(u64, Seq<u8>)>, index: u64) -> bool {
    exists|k: int| 0 <= k < entries.len() && (#[trigger] entries[k]).0 == index
}

/// What a read fetches serves the next one: every missing block gets a cache
/// entry, and each entry is the object's own block in full, so that a lookup of
/// it is used.
pub proof fn law_fetched_blocks_serve_the_next_read(
    block_size: u64,
    table: Map<u64, Option<Seq<u8>>>,
    runs: Seq<Range<u64>>,
    data: Seq<u8>,
)
    requires
        block_size > 0,
        data.len() <= u64::MAX,
        data_blocks::starts_inside(table, block_size as int, data.len() as int),
        data_blocks::is_miss_runs(runs, block_size as int, data.len() as int, table),
    ensures
        ({
            let entries = entries_upto(
                runs,
                source_ranges(runs, data),
                block_size as int,
                runs.len() as int,
            );
            &&& forall|k: int|
                0 <= k < entries.len() ==> usable_entry(
                    #[trigger] entries[k],
                    data,
                    block_size as int,
                )
            &&& forall|index: u64| #[trigger]
                data_blocks::is_missing(table, index as int) ==> entered(entries, index)
        }),
{
    let bs = block_size as int;
    lemma_entries_upto(runs, bs, table, data, runs.len() as int);
    let entries = entries_upto(runs, source_ranges(runs, data), bs, runs.len() as int);
    assert forall|index: u64| #[trigger]
        data_blocks::is_missing(table, index as int) implies entered(entries, index) by {
        assert(table.contains_key(index));
        assert(0 <= index * bs) by (nonlinear_arith)
            requires
                bs > 0,
        ;
        assert((index + 1) * bs == index * bs + bs) by (nonlinear_arith);
        data_blocks::lemma_in_block(index * bs, bs, index as int);
        assert(data_blocks::in_runs(runs, index * bs));
        let i = choose|i: int|
            0 <= i < runs.len() && (#[trigger] runs[i]).start <= index * bs < runs[i].end;
        assert(runs[i].start <= index * bs < runs[i].end);
    }
}

/// The block table after the lookups of the first `n` blocks of `order`, in a cache
/// that holds these blocks of the object.
pub open spec fn looked_up(
    table: Map<u64, Option<Seq<u8>>>,
    order: Seq<u64>,
    cache: Map<u64, Seq<u8>>,
    object_size: int,
    block_size: int,
    n: int,
) -> Map<u64, Option<Seq<u8>>>
    decreases n,
{
    if n <= 0 {
        table
    } else {
        after_lookup(
            looked_up(table, order, cache, object_size, block_size, n - 1),
            order[n - 1],
            cache.get(order[n - 1]),
            object_size,
            block_size,
        )
    }
}

/// Whether a cache holds a block with the length that a lookup asks for.
pub open spec fn holds_usable(
    cache: Map<u64, Seq<u8>>,
    object_size: int,
    block_size: int,
    index: u64,
) -> bool {
    cache.contains_key(index) && cache[index].len() == block_length(
        object_size,
        block_size,
        index as int,
    )
}

/// A cache after lookups of the blocks of a table, which remove what they find
/// malformed.
pub open spec fn without_malformed(
    cache: Map<u64, Seq<u8>>,
    table: Map<u64, Option<Seq<u8>>>,
    object_size: int,
    block_size: int,
) -> Map<u64, Seq<u8>> {
    Map::new(
        |index: u64|
            cache.contains_key(index) && (table.contains_key(index) ==> holds_usable(
                cache,
                object_size,
                block_size,
                index,
            )),
        |index: u64| cache[index],
    )
}

/// A cache after the first `n` entries were written to it.
pub open spec fn stored(
    cache: Map<u64, Seq<u8>>,
    entries: Seq<(u64, Seq<u8>)>,
    n: int,
) -> Map<u64, Seq<u8>>
    decreases n,
{
    if n <= 0 {
        cache
    } else {
        stored(cache, entries, n - 1).insert(entries[n - 1].0, entries[n - 1].1)
    }
}

/// Whether a block is among the first `n` of `order`.
spec fn seen(order: Seq<u64>, n: int, index: u64) -> bool {
    exists|k: int| 0 <= k < n && #[trigger] order[k] == index
}

proof fn lemma_looked_up(
    table: Map<u64, Option<Seq<u8>>>,
    order: Seq<u64>,
    cache: Map<u64, Seq<u8>>,
    object_size: int,
    block_size: int,
    n: int,
)
    requires
        0 <= n <= order.len(),
        forall|k: int| 0 <= k < order.len() ==> table.contains_key(#[trigger] order[k]),
    ensures
        ({
            let after = looked_up(table, order, cache, object_size, block_size, n);
            &&& after.dom() =~= table.dom()
            &&& forall|index: u64|
                #![trigger after[index]]
                after[index] == (if seen(order, n, index) && holds_usable(
                    cache,
                    object_size,
                    block_size,
                    index,
                ) {
                    Some(cache[index])
                } else {
                    table[index]
                })
        }),
    decreases n,
{
    if n > 0 {
        lemma_looked_up(table, order, cache, object_size, block_size, n - 1);
        let before = looked_up(table, order, cache, object_size, block_size, n - 1);
        let after = looked_up(table, order, cache, object_size, block_size, n);
        assert(table.contains_key(order[n - 1]));
        assert forall|index: u64|
            #![trigger after[index]]
            after[index] == (if seen(order, n, index) && holds_usable(
                cache,
                object_size,
                block_size,
                index,
            ) {
                Some(cache[index])
            } else {
                table[index]
            }) by {
            assert(before[index] == before[index]);
            if order[n - 1] == index {
                assert(seen(order, n, index));
            } else if seen(order, n, index) {
                let k = choose|k: int| 0 <= k < n && #[trigger] order[k] == index;
                assert(0 <= k < n - 1 && order[k] == index);
                assert(seen(order, n - 1, index));
            } else if seen(order, n - 1, index) {
                let k = choose|k: int| 0 <= k < n - 1 && #[trigger] order[k] == index;
                assert(0 <= k < n && order[k] == index);
            }
        }
    }
}

proof fn lemma_stored(
    cache: Map<u64, Seq<u8>>,
    entries: Seq<(u64, Seq<u8>)>,
    data: Seq<u8>,
    block_size: int,
    n: int,
    index: u64,
)
    requires
        0 <= n <= entries.len(),
        forall|k: int| 0 <= k < entries.len() ==> usable_entry(#[trigger] entries[k], data, block_size),
        holds_usable(cache, data.len() as int, block_size, index) || exists|k: int|
            0 <= k < n && (#[trigger] entries[k]).0 == index,
    ensures
        holds_usable(stored(cache, entries, n), data.len() as int, block_size, index),
    decreases n,
{
    if n > 0 {
        assert(usable_entry(entries[n - 1], data, block_size));
        if entries[n - 1].0 != index {
            if !holds_usable(cache, data.len() as int, block_size, index) {
                let k = choose|k: int| 0 <= k < n && (#[trigger] entries[k]).0 == index;
                assert(0 <= k < n - 1 && entries[k].0 == index);
            }
            lemma_stored(cache, entries, data, block_size, n - 1, index);
        }
    }
}

/// A read that is made again, with nothing evicted in between, comes from the cache
/// as a whole: every requested byte counts as read from the cache, none as read
/// from the origin, and nothing is fetched.
pub proof fn law_repeated_read_comes_from_the_cache(
    ranges: Seq<Range<u64>>,
    block_size: u64,
    touched: Map<u64, Option<Seq<u8>>>,
    order: Seq<u64>,
    cache: Map<u64, Seq<u8>>,
    runs: Seq<Range<u64>>,
    runs_again: Seq<Range<u64>>,
    data: Seq<u8>,
)
    requires
        block_size > 0,
        data.len() <= u64::MAX,
        forall|i: int|
            0 <= i < ranges.len() ==> (#[trigger] ranges[i]).start < ranges[i].end <= data.len(),
        forall|index: u64| #[trigger]
            touched.contains_key(index) <==> data_blocks::touched(
                ranges,
                block_size as int,
                index as int,
            ),
        forall|index: u64| #[trigger] touched.contains_key(index) ==> touched[index] is None,
        forall|index: u64| #[trigger] touched.contains_key(index) <==> order.contains(index),
        data_blocks::is_miss_runs(
            runs,
            block_size as int,
            data.len() as int,
            looked_up(
                touched,
                order,
                cache,
                data.len() as int,
                block_size as int,
                order.len() as int,
            ),
        ),
    ensures
        ({
            let bs = block_size as int;
            let size = data.len() as int;
            let blocks = order.len() as int;
            let first = looked_up(touched, order, cache, size, bs, blocks);
            let entries = entries_upto(runs, source_ranges(runs, data), bs, runs.len() as int);
            let kept = stored(
                without_malformed(cache, touched, size, bs),
                entries,
                entries.len() as int,
            );
            let again = looked_up(touched, order, kept, size, bs, blocks);
            &&& data_blocks::total_present(ranges, bs, again) == data_blocks::total_present(
                ranges,
                bs,
                first,
            ) + data_blocks::total_absent(ranges, bs, first)
            &&& data_blocks::total_present(ranges, bs, again) == data_blocks::total_requested(
                ranges,
            )
            &&& data_blocks::total_absent(ranges, bs, again) == 0
            &&& data_blocks::is_miss_runs(runs_again, bs, size, again) ==> runs_again.len() == 0
        }),
{
    let bs = block_size as int;
    let size = data.len() as int;
    let blocks = order.len() as int;
    let first = looked_up(touched, order, cache, size, bs, blocks);
    let entries = entries_upto(runs, source_ranges(runs, data), bs, runs.len() as int);
    let clean = without_malformed(cache, touched, size, bs);
    let kept = stored(clean, entries, entries.len() as int);
    let again = looked_up(touched, order, kept, size, bs, blocks);
    assert forall|k: int| 0 <= k < order.len() implies touched.contains_key(
        #[trigger] order[k],
    ) by {
        assert(order.contains(order[k]));
    }
    lemma_looked_up(touched, order, cache, size, bs, blocks);
    lemma_looked_up(touched, order, kept, size, bs, blocks);
    assert(data_blocks::starts_inside(first, bs, size)) by {
        assert forall|index: u64| #[trigger] first.contains_key(index) implies index * bs
            < size by {
            assert(touched.contains_key(index));
            let i = choose|i: int|
                0 <= i < ranges.len() && #[trigger] data_blocks::touches(
                    ranges[i],
                    bs,
                    index as int,
                );
            data_blocks::lemma_touched_block(ranges[i], bs, index as int);
        }
    }
    law_fetched_blocks_serve_the_next_read(block_size, first, runs, data);
    assert forall|index: u64| #[trigger] touched.contains_key(index) implies again[index] is Some
        && again.contains_key(index) by {
        assert(order.contains(index));
        let k = choose|k: int| 0 <= k < order.len() && order[k] == index;
        assert(seen(order, blocks, index));
        assert(first.contains_key(index));
        if first[index] is None {
            assert(data_blocks::is_missing(first, index as int));
            assert(entered(entries, index));
        } else {
            assert(holds_usable(cache, size, bs, index));
            assert(clean.contains_key(index));
        }
        lemma_stored(clean, entries, data, bs, entries.len() as int, index);
        assert(again.dom().contains(index));
    }
    assert forall|index: int| #[trigger]
        data_blocks::touched(ranges, bs, index) implies data_blocks::is_present(again, index) by {
        let i = choose|i: int|
            0 <= i < ranges.len() && #[trigger] data_blocks::touches(ranges[i], bs, index);
        data_blocks::lemma_touched_block(ranges[i], bs, index);
        let key = index as u64;
        assert(index <= index * bs < u64::MAX);
        assert(touched.contains_key(key));
    }
    data_blocks::lemma_nothing_absent(ranges, bs, again);
    data_blocks::law_every_requested_byte_is_counted_once(ranges, bs, first);
    data_blocks::law_every_requested_byte_is_counted_once(ranges, bs, again);
    if data_blocks::is_miss_runs(runs_again, bs, size, again) && runs_again.len() > 0 {
        let offset = runs_again[0].start as int;
        assert(data_blocks::in_runs(runs_again, offset));
        assert(data_blocks::is_missing(again, offset / bs));
        let key = (offset / bs) as u64;
        assert(again.dom().contains(key));
        assert(touched.contains_key(key));
    }
}

/// A request is planned if and only if every range of it holds a byte and starts
/// inside the object.
pub proof fn law_planned_requests_lie_in_the_object(
    requested: Seq<Range<u64>>,
    object_size: int,
)
    ensures
        !has_empty_range(requested) <==> forall|i: int|
            0 <= i < requested.len() ==> (#[trigger] requested[i]).start < requested[i].end,
        !starts_past_end(requested, object_size) <==> forall|i: int|
            0 <= i < requested.len() ==> (#[trigger] requested[i]).start < object_size,
{
}

/// A planned range keeps the start that was requested, and ends where it was requested
/// to end if that lies inside the object, else at the end of the object.
pub proof fn law_planned_ranges_are_the_requested_ones(
    requested: Seq<Range<u64>>,
    object_size: u64,
    i: int,
)
    requires
        0 <= i < requested.len(),
    ensures
        readable_ranges(requested, object_size).len() == requested.len(),
        readable_ranges(requested, object_size)[i].start == requested[i].start,
        requested[i].end <= object_size ==> readable_ranges(requested, object_size)[i].end
            == requested[i].end,
        requested[i].end > object_size ==> readable_ranges(requested, object_size)[i].end
            == object_size,
{
}

/// A read through the cache serves just the bytes that were requested: of every
/// requested range, the object's own bytes from its start to its end, or to the end of
/// the object where the range goes beyond it. The blocks that the cache had must be
/// blocks of the object, and the origin must return the object's bytes for the runs
/// that it is asked for.
pub proof fn law_read_serves_the_requested_bytes(
    requested: Seq<Range<u64>>,
    block_size: u64,
    table: Map<u64, Option<Seq<u8>>>,
    runs: Seq<Range<u64>>,
    fetched: Seq<Seq<u8>>,
    data: Seq<u8>,
    i: int,
)
    requires
        block_size > 0,
        data.len() <= u64::MAX,
        block_size <= usize::MAX || data.len() <= usize::MAX,
        forall|k: int|
            0 <= k < requested.len() ==> (#[trigger] requested[k]).start < requested[k].end
                && requested[k].start < data.len() && (requested[k].end <= data.len()
                ==> requested[k].end - requested[k].start <= usize::MAX) && (requested[k].end
                > data.len() ==> data.len() - requested[k].start <= usize::MAX),
        forall|index: u64| #[trigger]
            table.contains_key(index) <==> data_blocks::touched(
                readable_ranges(requested, data.len() as u64),
                block_size as int,
                index as int,
            ),
        faithful(table, data, block_size as int),
        data_blocks::is_miss_runs(runs, block_size as int, data.len() as int, table),
        fetched.len() == runs.len(),
        forall|k: int|
            0 <= k < runs.len() ==> #[trigger] fetched[k] == data.subrange(
                runs[k].start as int,
                runs[k].end as int,
            ),
        0 <= i < requested.len(),
    ensures
        ({
            let served = assembled_all(
                readable_ranges(requested, data.len() as u64),
                block_size as int,
                filled_upto(table, runs, fetched, block_size as int, paired(runs, fetched)),
            );
            &&& served is Ok
            &&& served->Ok_0.len() == requested.len()
            &&& requested[i].end <= data.len() ==> served->Ok_0[i] == data.subrange(
                requested[i].start as int,
                requested[i].end as int,
            )
            &&& requested[i].end > data.len() ==> served->Ok_0[i] == data.skip(
                requested[i].start as int,
            )
        }),
{
    let readable = readable_ranges(requested, data.len() as u64);
    assert forall|k: int| 0 <= k < readable.len() implies (#[trigger] readable[k]).start
        < readable[k].end <= data.len() && readable[k].end - readable[k].start <= usize::MAX by {
        assert(requested[k].start < requested[k].end);
    }
    assert(fetched =~= source_ranges(runs, data));
    law_cached_reads_are_transparent(readable, block_size, table, runs, data);
    assert(readable[i].start == requested[i].start);
    if requested[i].end > data.len() {
        assert(data.subrange(requested[i].start as int, data.len() as int) =~= data.skip(
            requested[i].start as int,
        ));
    }
}

/// A well-formed read has just the blocks in which a byte of its ranges lies, and its
/// ranges lie inside the object.
pub proof fn law_read_touches_its_own_blocks(read: BlockRead, i: int, offset: int, index: u64)
    requires
        read.wf(),
    ensures
        read.block_size > 0,
        0 <= i < read.readable@.len() ==> read.readable@[i].start < read.readable@[i].end
            <= read.object_size,
        0 <= i < read.readable@.len() && read.readable@[i].start <= offset < read.readable@[i].end
            ==> read.table@.contains_key((offset / read.block_size as int) as u64),
        read.table@.contains_key(index) ==> exists|k: int, byte: int|
            #![trigger read.readable@[k], byte / read.block_size as int]
            0 <= k < read.readable@.len() && read.readable@[k].start <= byte
                < read.readable@[k].end && byte / read.block_size as int == index,
{
    let bs = read.block_size as int;
    data_blocks::law_touched_blocks_hold_a_requested_byte(
        read.readable@,
        bs,
        i,
        offset,
        index as int,
    );
    if 0 <= i < read.readable@.len() && read.readable@[i].start <= offset < read.readable@[i].end {
        vstd::arithmetic::div_mod::lemma_div_pos_is_pos(offset, bs);
        vstd::arithmetic::div_mod::lemma_div_is_ordered_by_denominator(offset, 1, bs);
        vstd::arithmetic::div_mod::lemma_div_basics(offset);
        assert(read.table@.contains_key((offset / bs) as u64));
    }
}

/// The length that a lookup asks of a block is the length of the object's own block.
pub proof fn law_lookups_ask_for_whole_blocks(data: Seq<u8>, block_size: int, offset: int)
    requires
        block_size > 0,
        0 <= offset < data.len(),
    ensures
        block_length(data.len() as int, block_size, offset / block_size)
            == data_blocks::source_block(data, block_size, offset / block_size).len(),
        0 < block_length(data.len() as int, block_size, offset / block_size) <= block_size,
{
    let index = offset / block_size;
    data_blocks::law_blocks_cut_the_object(data, block_size, offset);
    vstd::arithmetic::div_mod::lemma_fundamental_div_mod(offset, block_size);
    vstd::arithmetic::div_mod::lemma_mod_bound(offset, block_size);
    assert(block_size * index == index * block_size) by (nonlinear_arith);
}

/// A lookup changes nothing but its own block, and that only where the cache had
/// octets of the length that the block must have: those are then known.
pub proof fn law_lookup_takes_only_whole_blocks(
    table: Map<u64, Option<Seq<u8>>>,
    index: u64,
    other: u64,
    found: Option<Seq<u8>>,
    object_size: int,
    block_size: int,
)
    requires
        table.contains_key(index),
        block_size > 0,
        index * block_size < object_size,
    ensures
        ({
            let after = after_lookup(table, index, found, object_size, block_size);
            let rest = object_size - index * block_size;
            let is_whole = found is Some && (found->0.len() == block_size && rest >= block_size
                || found->0.len() == rest && rest < block_size);
            &&& after.contains_key(other) <==> table.contains_key(other)
            &&& other != index && table.contains_key(other) ==> after[other] == table[other]
            &&& is_whole ==> after[index] == found
            &&& !is_whole ==> after[index] == table[index]
        }),
{
}

/// A reply is cut into blocks without loss: each of its octets stands in the part of
/// its block, and there are no other parts.
pub proof fn law_replies_are_cut_into_blocks(octets: Seq<u8>, block_size: int, offset: int, k: int)
    requires
        block_size > 0,
    ensures
        octets.len() == 0 ==> chunk_count(octets, block_size) == 0,
        0 <= offset < octets.len() ==> {
            &&& offset / block_size < chunk_count(octets, block_size)
            &&& offset % block_size < chunk(octets, block_size, offset / block_size).len()
            &&& chunk(octets, block_size, offset / block_size)[offset % block_size]
                == octets[offset]
        },
        0 <= k < chunk_count(octets, block_size) ==> {
            &&& 0 < chunk(octets, block_size, k).len() <= block_size
            &&& k + 1 < chunk_count(octets, block_size) ==> chunk(octets, block_size, k).len()
                == block_size
            &&& k * block_size + chunk(octets, block_size, k).len() <= octets.len()
        },
{
    if octets.len() == 0 {
        vstd::arithmetic::div_mod::lemma_basic_div(block_size - 1, block_size);
    }
    if 0 <= offset < octets.len() {
        let index = offset / block_size;
        data_blocks::law_blocks_cut_the_object(octets, block_size, offset);
        vstd::arithmetic::div_mod::lemma_fundamental_div_mod(offset, block_size);
        vstd::arithmetic::div_mod::lemma_mod_bound(offset, block_size);
        vstd::arithmetic::div_mod::lemma_div_pos_is_pos(offset, block_size);
        assert(block_size * index == index * block_size) by (nonlinear_arith);
        lemma_chunk_bounds(octets.len(), block_size, index);
    }
    if 0 <= k < chunk_count(octets, block_size) {
        lemma_chunk_bounds(octets.len(), block_size, k);
        lemma_chunk_bounds(octets.len(), block_size, k + 1);
    }
}

/// A reply fills the blocks from that of its run on, one part each, as far as the
/// table has them, and no others; it gives one cache entry for each part, in order.
pub proof fn law_reply_fills_its_blocks(
    table: Map<u64, Option<Seq<u8>>>,
    first: int,
    octets: Seq<u8>,
    block_size: int,
    index: u64,
    k: int,
)
    requires
        0 <= first,
        first + chunk_count(octets, block_size) <= u64::MAX + 1,
        chunk_count(octets, block_size) >= 0,
    ensures
        filled(table, first, octets, block_size).contains_key(index) <==> table.contains_key(
            index,
        ),
        table.contains_key(index) && (index < first || index >= first + chunk_count(
            octets,
            block_size,
        )) ==> filled(table, first, octets, block_size)[index] == table[index],
        table.contains_key(index) && first <= index < first + chunk_count(octets, block_size)
            ==> filled(table, first, octets, block_size)[index] == Some(
            chunk(octets, block_size, index - first),
        ),
        run_entries(first, octets, block_size).len() == chunk_count(octets, block_size),
        0 <= k < chunk_count(octets, block_size) ==> run_entries(first, octets, block_size)[k].0
            == first + k && run_entries(first, octets, block_size)[k].1 == chunk(
            octets,
            block_size,
            k,
        ),
{
}

/// Replies pair up with the runs in order, as many as there are of both; each fills
/// the blocks from the start of its run on, and adds its entries behind the earlier
/// ones.
pub proof fn law_replies_pair_up_with_their_runs(
    table: Map<u64, Option<Seq<u8>>>,
    runs: Seq<Range<u64>>,
    fetched: Seq<Seq<u8>>,
    block_size: int,
    n: int,
)
    requires
        0 <= n < paired(runs, fetched),
    ensures
        paired(runs, fetched) <= runs.len() && paired(runs, fetched) <= fetched.len(),
        paired(runs, fetched) == runs.len() || paired(runs, fetched) == fetched.len(),
        filled_upto(table, runs, fetched, block_size, 0) == table,
        entries_upto(runs, fetched, block_size, 0).len() == 0,
        filled_upto(table, runs, fetched, block_size, n + 1) == filled(
            filled_upto(table, runs, fetched, block_size, n),
            runs[n].start as int / block_size,
            fetched[n],
            block_size,
        ),
        entries_upto(runs, fetched, block_size, n + 1) == entries_upto(
            runs,
            fetched,
            block_size,
            n,
        ) + run_entries(runs[n].start as int / block_size, fetched[n], block_size),
{
}

/// A request is served whole or not at all: with one buffer for each of its ranges, in
/// order, if each of them can be assembled; else it fails as the first of its ranges
/// that fails.
pub proof fn law_request_is_served_range_by_range(
    ranges: Seq<Range<u64>>,
    block_size: int,
    table: Map<u64, Option<Seq<u8>>>,
    i: int,
)
    requires
        0 <= i < ranges.len(),
    ensures
        assembled_all(Seq::empty(), block_size, table) == Ok::<Seq<Seq<u8>>, DataCacheError>(
            Seq::empty(),
        ),
        assembled_all(ranges, block_size, table) matches Ok(buffers) ==> buffers.len()
            == ranges.len() && data_blocks::assembled(ranges[i], block_size, table) == Ok::<
            Seq<u8>,
            DataCacheError,
        >(buffers[i]),
        (data_blocks::assembled(ranges[i], block_size, table) is Err && forall|k: int|
            0 <= k < i ==> data_blocks::assembled(#[trigger] ranges[k], block_size, table) is Ok)
            ==> assembled_all(ranges, block_size, table) == Err::<Seq<Seq<u8>>, DataCacheError>(
            data_blocks::assembled(ranges[i], block_size, table)->Err_0,
        ),
        (forall|k: int|
            0 <= k < ranges.len() ==> data_blocks::assembled(
                #[trigger] ranges[k],
                block_size,
                table,
            ) is Ok) ==> assembled_all(ranges, block_size, table) is Ok,
    decreases ranges.len(),
{
    let earlier = ranges.drop_last();
    if earlier.len() == 0 {
        assert(earlier =~= Seq::empty());
    } else if i < earlier.len() {
        law_request_is_served_range_by_range(earlier, block_size, table, i);
        if forall|k: int|
            0 <= k < ranges.len() ==> data_blocks::assembled(
                #[trigger] ranges[k],
                block_size,
                table,
            ) is Ok {
            assert forall|k: int| 0 <= k < earlier.len() implies data_blocks::assembled(
                #[trigger] earlier[k],
                block_size,
                table,
            ) is Ok by {
                assert(data_blocks::assembled(ranges[k], block_size, table) is Ok);
            }
        }
        if forall|k: int|
            0 <= k < i ==> data_blocks::assembled(#[trigger] ranges[k], block_size, table) is Ok {
            assert forall|k: int| 0 <= k < i implies data_blocks::assembled(
                #[trigger] earlier[k],
                block_size,
                table,
            ) is Ok by {
                assert(data_blocks::assembled(ranges[k], block_size, table) is Ok);
            }
        }
    } else {
        law_request_is_served_range_by_range(earlier, block_size, table, 0);
        if forall|k: int|
            0 <= k < i ==> data_blocks::assembled(#[trigger] ranges[k], block_size, table) is Ok {
            assert forall|k: int| 0 <= k < earlier.len() implies data_blocks::assembled(
                #[trigger] earlier[k],
                block_size,
                table,
            ) is Ok by {
                assert(data_blocks::assembled(ranges[k], block_size, table) is Ok);
            }
        }
    }
}

/// Buffers and entries are seen as the octets that they hold, one for one; the lengths
/// of all buffers add up.
pub proof fn law_buffers_are_their_octets(
    buffers: Seq<Bytes>,
    entries: Seq<(u64, Bytes)>,
    i: int,
    octets: Seq<u8>,
)
    ensures
        octets_of(buffers).len() == buffers.len(),
        0 <= i < buffers.len() ==> octets_of(buffers)[i] == octets::contents(buffers[i]),
        entries_of(entries).len() == entries.len(),
        0 <= i < entries.len() ==> entries_of(entries)[i].0 == entries[i].0 && entries_of(
            entries,
        )[i].1 == octets::contents(entries[i].1),
        summed_length(Seq::empty()) == 0,
        summed_length(octets_of(buffers).push(octets)) == summed_length(octets_of(buffers))
            + octets.len(),
{
    assert(octets_of(buffers).push(octets).drop_last() =~= octets_of(buffers));
}

/// Replies fit if and only if the last block of each can be numbered with 64 bits, and
/// a read can finish if and only if a buffer can be reserved for each of its ranges.
pub proof fn law_replies_fit_by_their_last_block(
    runs: Seq<Range<u64>>,
    fetched: Seq<Seq<u8>>,
    block_size: int,
    plan: FetchPlan,
)
    ensures
        indices_fit(runs, fetched, block_size) <==> forall|i: int|
            0 <= i < runs.len() && i < fetched.len() ==> (#[trigger] runs[i]).start as int
                / block_size + chunk_count(fetched[i], block_size) - 1 <= u64::MAX,
        plan.can_finish() <==> forall|i: int|
            0 <= i < plan.read.readable@.len() ==> data_blocks::reservable(
                #[trigger] plan.read.readable@[i],
                plan.read.block_size as int,
            ),
{
}

} // verus!
