//! Fixed-size cache blocks of an object and the byte ranges made of them.
//!
//! Block `i` of an object covers the bytes from `i * block_size` up to the
//! next block or the end of the object. A block table maps each block that a
//! read touches to its octets, or to `None` while they are not known.

use std::collections::BTreeMap;
use std::ops::Range;

use bytes::Bytes;
use vstd::prelude::*;
use vstd::string::StringExecFns;

use crate::octets;
use crate::text;

verus! {

broadcast use vstd::std_specs::btree::group_btree_axioms;

/// Why a read could not be served from cache blocks.
#[derive(Clone, Copy, Debug, PartialEq, Eq, Structural)]
pub enum DataCacheError {
    /// The octets of a block are not known.
    MissingBlock { block: u64 },
    /// A block is too short for the slice that the range needs of it.
    ShortBlock { block: u64, start: usize, end: usize, len: usize },
    /// The first offset inside a block does not fit in `usize`.
    SliceStartTooLarge,
    /// The last offset inside a block does not fit in `usize`.
    SliceEndTooLarge,
    /// The length of a range does not fit in `usize`.
    RangeTooLarge { range_start: u64, range_end: u64 },
    /// The end of a block does not fit in 64 bits.
    BlockEndOverflow,
    /// A ranged read returned no buffer.
    MissingGetResult,
}

impl DataCacheError {
    /// The text of this error for a read of `location`.
    pub open spec fn text(self, location: Seq<char>) -> Seq<char> {
        match self {
            DataCacheError::MissingBlock { block } => "missing block "@ + text::decimal(
                block as nat,
            ) + " for "@ + location,
            DataCacheError::ShortBlock { block, start, end, len } => "short data-cache block "@
                + text::decimal(block as nat) + " for "@ + location + ": need "@ + text::decimal(
                start as nat,
            ) + ".."@ + text::decimal(end as nat) + ", got "@ + text::decimal(len as nat)
                + " bytes"@,
            DataCacheError::SliceStartTooLarge => "data-cache slice start exceeds usize::MAX"@,
            DataCacheError::SliceEndTooLarge => "data-cache slice end exceeds usize::MAX"@,
            DataCacheError::RangeTooLarge { range_start, range_end } => "range "@ + text::decimal(
                range_start as nat,
            ) + ".."@ + text::decimal(range_end as nat) + " for "@ + location + " exceeds usize::MAX"@,
            DataCacheError::BlockEndOverflow => "data-cache block end overflow"@,
            DataCacheError::MissingGetResult => "missing get result for "@ + location,
        }
    }

    /// The text of this error for a read of `location`.
    pub fn message(&self, location: &str) -> (message: String)
        ensures
            message@ == self.text(location@),
    {
        let mut out: String;
        match self {
            DataCacheError::MissingBlock { block } => {
                out = "missing block ".to_owned();
                text::push_decimal(&mut out, *block);
                out.append(" for ");
                out.append(location);
            },
            DataCacheError::ShortBlock { block, start, end, len } => {
                out = "short data-cache block ".to_owned();
                text::push_decimal(&mut out, *block);
                out.append(" for ");
                out.append(location);
                out.append(": need ");
                text::push_decimal(&mut out, *start as u64);
                out.append("..");
                text::push_decimal(&mut out, *end as u64);
                out.append(", got ");
                text::push_decimal(&mut out, *len as u64);
                out.append(" bytes");
            },
            DataCacheError::SliceStartTooLarge => {
                out = "data-cache slice start exceeds usize::MAX".to_owned();
            },
            DataCacheError::SliceEndTooLarge => {
                out = "data-cache slice end exceeds usize::MAX".to_owned();
            },
            DataCacheError::RangeTooLarge { range_start, range_end } => {
                out = "range ".to_owned();
                text::push_decimal(&mut out, *range_start);
                out.append("..");
                text::push_decimal(&mut out, *range_end);
                out.append(" for ");
                out.append(location);
                out.append(" exceeds usize::MAX");
            },
            DataCacheError::BlockEndOverflow => {
                out = "data-cache block end overflow".to_owned();
            },
            DataCacheError::MissingGetResult => {
                out = "missing get result for ".to_owned();
                out.append(location);
            },
        }
        out
    }
}

/// A block table as sequences of octets.
pub open spec fn known(blocks: Map<u64, Option<Bytes>>) -> Map<u64, Option<Seq<u8>>> {
    blocks.map_values(
        |block: Option<Bytes>|
            match block {
                Some(octets) => Some(octets::contents(octets)),
                None => None,
            },
    )
}

/// Whether the octets of block `index` are known.
pub open spec fn is_present(blocks: Map<u64, Option<Seq<u8>>>, index: int) -> bool {
    &&& 0 <= index <= u64::MAX
    &&& blocks.contains_key(index as u64)
    &&& blocks[index as u64] is Some
}

/// The offset inside block `index` at which `range` starts to need it.
pub open spec fn piece_start(range: Range<u64>, block_size: int, index: int) -> int {
    if range.start <= index * block_size {
        0
    } else {
        range.start - index * block_size
    }
}

/// The offset inside block `index` at which `range` stops to need it.
pub open spec fn piece_end(range: Range<u64>, block_size: int, index: int) -> int {
    if range.end - index * block_size < block_size {
        range.end - index * block_size
    } else {
        block_size
    }
}

/// What block `index` contributes to `range`.
pub open spec fn piece(
    range: Range<u64>,
    block_size: int,
    blocks: Map<u64, Option<Seq<u8>>>,
    index: int,
) -> Result<Seq<u8>, DataCacheError> {
    let start = piece_start(range, block_size, index);
    let end = piece_end(range, block_size, index);
    if !is_present(blocks, index) {
        Err(DataCacheError::MissingBlock { block: index as u64 })
    } else if start > usize::MAX {
        Err(DataCacheError::SliceStartTooLarge)
    } else if end > usize::MAX {
        Err(DataCacheError::SliceEndTooLarge)
    } else {
        let octets = blocks[index as u64]->0;
        if end > octets.len() {
            Err(
                DataCacheError::ShortBlock {
                    block: index as u64,
                    start: start as usize,
                    end: end as usize,
                    len: octets.len() as usize,
                },
            )
        } else {
            Ok(octets.subrange(start, end))
        }
    }
}

/// The pieces of blocks `index` to `last`, joined; the first failure wins.
pub open spec fn joined_pieces(
    range: Range<u64>,
    block_size: int,
    blocks: Map<u64, Option<Seq<u8>>>,
    index: int,
    last: int,
) -> Result<Seq<u8>, DataCacheError>
    decreases last - index + 1,
{
    if index > last {
        Ok(Seq::empty())
    } else {
        match piece(range, block_size, blocks, index) {
            Err(error) => Err(error),
            Ok(octets) => match joined_pieces(range, block_size, blocks, index + 1, last) {
                Err(error) => Err(error),
                Ok(rest) => Ok(octets + rest),
            },
        }
    }
}

/// The octets of `range` as the block table gives them.
pub open spec fn assembled(
    range: Range<u64>,
    block_size: int,
    blocks: Map<u64, Option<Seq<u8>>>,
) -> Result<Seq<u8>, DataCacheError> {
    let first = range.start as int / block_size;
    let last = (range.end - 1) / block_size;
    if range.start >= range.end {
        Ok(Seq::empty())
    } else if first != last && range.end - range.start > usize::MAX {
        Err(DataCacheError::RangeTooLarge { range_start: range.start, range_end: range.end })
    } else {
        joined_pieces(range, block_size, blocks, first, last)
    }
}

/// Whether a buffer for `range` can be reserved: a range over several blocks
/// needs one whose length stays within what an allocation can have.
pub open spec fn reservable(range: Range<u64>, block_size: int) -> bool {
    ||| range.start >= range.end
    ||| range.start as int / block_size == (range.end - 1) / block_size
    ||| range.end - range.start <= isize::MAX
    ||| range.end - range.start > usize::MAX
}

/// Where a block lies relative to a range that touches it.
pub proof fn lemma_touched_block(range: Range<u64>, block_size: int, index: int)
    requires
        block_size > 0,
        range.start < range.end,
        range.start as int / block_size <= index <= (range.end - 1) / block_size,
    ensures
        0 <= index * block_size < range.end,
        0 <= index <= index * block_size,
        range.start < (index + 1) * block_size,
        index == range.start as int / block_size ==> index * block_size <= range.start,
        index > range.start as int / block_size ==> range.start <= index * block_size,
        0 <= piece_start(range, block_size, index) < piece_end(range, block_size, index)
            <= block_size,
{
    let first = range.start as int / block_size;
    let last = (range.end - 1) / block_size;
    vstd::arithmetic::div_mod::lemma_fundamental_div_mod(range.start as int, block_size);
    vstd::arithmetic::div_mod::lemma_mod_bound(range.start as int, block_size);
    vstd::arithmetic::div_mod::lemma_fundamental_div_mod(range.end - 1, block_size);
    vstd::arithmetic::div_mod::lemma_mod_bound(range.end - 1, block_size);
    vstd::arithmetic::div_mod::lemma_div_pos_is_pos(range.start as int, block_size);
    assert(index * block_size <= last * block_size) by (nonlinear_arith)
        requires
            index <= last,
            block_size > 0,
    ;
    assert((first + 1) * block_size <= (index + 1) * block_size) by (nonlinear_arith)
        requires
            first <= index,
            block_size > 0,
    ;
    assert((first + 1) * block_size == first * block_size + block_size) by (nonlinear_arith);
    assert((index + 1) * block_size == index * block_size + block_size) by (nonlinear_arith);
    assert(block_size * first == first * block_size) by (nonlinear_arith);
    assert(block_size * last == last * block_size) by (nonlinear_arith);
    assert(0 <= index * block_size && index <= index * block_size) by (nonlinear_arith)
        requires
            index >= 0,
            block_size > 0,
    ;
    if index > first {
        assert((first + 1) * block_size <= index * block_size) by (nonlinear_arith)
            requires
                first + 1 <= index,
                block_size > 0,
        ;
    }
}

/// The last block of a range ends the range.
pub proof fn lemma_order_of_blocks(range: Range<u64>, block_size: int)
    requires
        block_size > 0,
        range.start < range.end,
    ensures
        range.start as int / block_size <= (range.end - 1) / block_size < u64::MAX,
        ((range.end - 1) / block_size) * block_size + piece_end(
            range,
            block_size,
            (range.end - 1) / block_size,
        ) == range.end,
{
    let last = (range.end - 1) / block_size;
    vstd::arithmetic::div_mod::lemma_div_is_ordered(range.start as int, range.end - 1, block_size);
    vstd::arithmetic::div_mod::lemma_fundamental_div_mod(range.end - 1, block_size);
    vstd::arithmetic::div_mod::lemma_mod_bound(range.end - 1, block_size);
    vstd::arithmetic::div_mod::lemma_div_pos_is_pos(range.end - 1, block_size);
    assert(block_size * last == last * block_size) by (nonlinear_arith);
    assert(last <= last * block_size) by (nonlinear_arith)
        requires
            last >= 0,
            block_size > 0,
    ;
}

/// Joining one block more at the end.
proof fn lemma_joined_extend(
    range: Range<u64>,
    block_size: int,
    blocks: Map<u64, Option<Seq<u8>>>,
    index: int,
    last: int,
)
    requires
        index <= last,
        joined_pieces(range, block_size, blocks, index, last - 1) is Ok,
    ensures
        joined_pieces(range, block_size, blocks, index, last) == (match piece(
            range,
            block_size,
            blocks,
            last,
        ) {
            Err(error) => Err::<Seq<u8>, DataCacheError>(error),
            Ok(octets) => Ok(
                joined_pieces(range, block_size, blocks, index, last - 1)->Ok_0 + octets,
            ),
        }),
    decreases last - index,
{
    reveal_with_fuel(joined_pieces, 2);
    if index < last {
        lemma_joined_extend(range, block_size, blocks, index + 1, last);
        if piece(range, block_size, blocks, last) is Ok {
            let head = piece(range, block_size, blocks, index)->Ok_0;
            let middle = joined_pieces(range, block_size, blocks, index + 1, last - 1)->Ok_0;
            let tail = piece(range, block_size, blocks, last)->Ok_0;
            assert(head + (middle + tail) =~= (head + middle) + tail);
        }
    } else {
        if piece(range, block_size, blocks, last) is Ok {
            let octets = piece(range, block_size, blocks, last)->Ok_0;
            assert(octets + Seq::<u8>::empty() =~= Seq::<u8>::empty() + octets);
        }
    }
}

/// A failure among the first blocks is the failure of the whole join.
proof fn lemma_joined_failure(
    range: Range<u64>,
    block_size: int,
    blocks: Map<u64, Option<Seq<u8>>>,
    index: int,
    upto: int,
    last: int,
)
    requires
        index <= upto <= last,
        joined_pieces(range, block_size, blocks, index, upto) is Err,
    ensures
        joined_pieces(range, block_size, blocks, index, last) == joined_pieces(
            range,
            block_size,
            blocks,
            index,
            upto,
        ),
    decreases upto - index,
{
    reveal_with_fuel(joined_pieces, 2);
    if index < upto && piece(range, block_size, blocks, index) is Ok {
        lemma_joined_failure(range, block_size, blocks, index + 1, upto, last);
    }
}

/// What the joined blocks amount to in bytes: from the start of the range to
/// the end of the last block, cut at the end of the range.
proof fn lemma_joined_length(
    range: Range<u64>,
    block_size: int,
    blocks: Map<u64, Option<Seq<u8>>>,
    last: int,
)
    requires
        block_size > 0,
        range.start < range.end,
        range.start as int / block_size <= last <= (range.end - 1) / block_size,
        joined_pieces(range, block_size, blocks, range.start as int / block_size, last) is Ok,
    ensures
        joined_pieces(
            range,
            block_size,
            blocks,
            range.start as int / block_size,
            last,
        )->Ok_0.len() == last * block_size + piece_end(range, block_size, last) - range.start,
    decreases last,
{
    let first = range.start as int / block_size;
    lemma_touched_block(range, block_size, last);
    reveal_with_fuel(joined_pieces, 2);
    if last > first {
        if joined_pieces(range, block_size, blocks, first, last - 1) is Err {
            lemma_joined_failure(range, block_size, blocks, first, last - 1, last);
        }
        lemma_joined_extend(range, block_size, blocks, first, last);
        lemma_touched_block(range, block_size, last - 1);
        lemma_joined_length(range, block_size, blocks, last - 1);
        assert((last - 1) * block_size + block_size == last * block_size) by (nonlinear_arith);
    }
}

/// Reads the octets of `range` out of the block table.
///
/// The range must already end at or before the end of the object: a block that
/// is too short for it is an error and never shortens the result.
pub fn assemble_range(
    range: &Range<u64>,
    block_size: u64,
    blocks: &BTreeMap<u64, Option<Bytes>>,
) -> (result: Result<Bytes, DataCacheError>)
    requires
        block_size > 0,
        reservable(*range, block_size as int),
    ensures
        match result {
            Ok(octets) => assembled(*range, block_size as int, known(blocks@)) == Ok::<
                Seq<u8>,
                DataCacheError,
            >(octets::contents(octets)) && (range.start < range.end ==> octets::contents(octets).len() == range.end
                - range.start),
            Err(error) => assembled(*range, block_size as int, known(blocks@)) == Err::<
                Seq<u8>,
                DataCacheError,
            >(error),
        },
{
    if range.start >= range.end {
        return Ok(octets::empty());
    }
    let first: u64 = range.start / block_size;
    let last: u64 = (range.end - 1) / block_size;
    let ghost bs = block_size as int;
    if first == last {
        proof {
            lemma_touched_block(*range, bs, first as int);
            reveal_with_fuel(joined_pieces, 2);
        }
        let block: &Bytes = match blocks.get(&first) {
            Some(Some(block)) => block,
            _ => {
                return Err(DataCacheError::MissingBlock { block: first });
            },
        };
        let block_start: u64 = first * block_size;
        if range.start - block_start > usize::MAX as u64 {
            return Err(DataCacheError::SliceStartTooLarge);
        }
        let start: usize = (range.start - block_start) as usize;
        let rest: u64 = range.end - block_start;
        let end_in_block: u64 = if rest < block_size {
            rest
        } else {
            block_size
        };
        if end_in_block > usize::MAX as u64 {
            return Err(DataCacheError::SliceEndTooLarge);
        }
        let end: usize = end_in_block as usize;
        let len: usize = octets::length(block);
        if end > len {
            return Err(DataCacheError::ShortBlock { block: first, start, end, len });
        }
        proof {
            lemma_joined_length(*range, bs, known(blocks@), first as int);
            assert(octets::contents(*block).subrange(start as int, end as int) + Seq::<u8>::empty()
                =~= octets::contents(*block).subrange(start as int, end as int));
            lemma_order_of_blocks(*range, bs);
        }
        return Ok(octets::slice(block, start, end));
    }
    if range.end - range.start > usize::MAX as u64 {
        return Err(DataCacheError::RangeTooLarge { range_start: range.start, range_end: range.end });
    }
    let requested_len: usize = (range.end - range.start) as usize;
    let mut output: bytes::BytesMut = octets::with_capacity(requested_len);
    let mut block_index: u64 = first;
    proof {
        lemma_order_of_blocks(*range, bs);
    }
    while block_index <= last
        invariant
            block_size > 0,
            bs == block_size,
            range.start < range.end,
            range.end - range.start == requested_len <= isize::MAX,
            first == range.start as int / bs,
            last == (range.end - 1) / bs,
            first < last < u64::MAX,
            first <= block_index <= last + 1,
            assembled(*range, bs, known(blocks@)) == joined_pieces(
                *range,
                bs,
                known(blocks@),
                first as int,
                last as int,
            ),
            joined_pieces(*range, bs, known(blocks@), first as int, block_index - 1) == Ok::<
                Seq<u8>,
                DataCacheError,
            >(octets::pending(output)),
        decreases last + 1 - block_index,
    {
        proof {
            lemma_touched_block(*range, bs, block_index as int);
            lemma_joined_extend(*range, bs, known(blocks@), first as int, block_index as int);
            if piece(*range, bs, known(blocks@), block_index as int) is Err {
                lemma_joined_failure(
                    *range,
                    bs,
                    known(blocks@),
                    first as int,
                    block_index as int,
                    last as int,
                );
            } else {
                lemma_joined_length(*range, bs, known(blocks@), block_index as int);
            }
        }
        let block: &Bytes = match blocks.get(&block_index) {
            Some(Some(block)) => block,
            _ => {
                return Err(DataCacheError::MissingBlock { block: block_index });
            },
        };
        let block_start: u64 = block_index * block_size;
        let start_in_block: u64 = if range.start <= block_start {
            0
        } else {
            range.start - block_start
        };
        if start_in_block > usize::MAX as u64 {
            return Err(DataCacheError::SliceStartTooLarge);
        }
        let start: usize = start_in_block as usize;
        let rest: u64 = range.end - block_start;
        let end_in_block: u64 = if rest < block_size {
            rest
        } else {
            block_size
        };
        if end_in_block > usize::MAX as u64 {
            return Err(DataCacheError::SliceEndTooLarge);
        }
        let end: usize = end_in_block as usize;
        let len: usize = octets::length(block);
        if end > len {
            return Err(DataCacheError::ShortBlock { block: block_index, start, end, len });
        }
        let octets: &[u8] = octets::as_slice(block);
        octets::extend_from_slice(
            &mut output,
            vstd::slice::slice_subrange(octets, start, end),
        );
        block_index += 1;
    }
    proof {
        lemma_joined_length(*range, bs, known(blocks@), last as int);
        lemma_order_of_blocks(*range, bs);
    }
    Ok(octets::freeze(output))
}

/// The octets of block `index` of an object.
pub open spec fn source_block(data: Seq<u8>, block_size: int, index: int) -> Seq<u8> {
    data.subrange(
        index * block_size,
        if (index + 1) * block_size < data.len() {
            (index + 1) * block_size
        } else {
            data.len() as int
        },
    )
}

/// Whether the table holds the object's own octets for block `index`.
pub open spec fn holds_block(
    blocks: Map<u64, Option<Seq<u8>>>,
    data: Seq<u8>,
    block_size: int,
    index: int,
) -> bool {
    is_present(blocks, index) && blocks[index as u64]->0 == source_block(data, block_size, index)
}

/// Joining blocks that hold an object's own octets gives the object's octets.
proof fn lemma_joined_source(
    range: Range<u64>,
    block_size: int,
    blocks: Map<u64, Option<Seq<u8>>>,
    data: Seq<u8>,
    last: int,
)
    requires
        0 < block_size,
        range.start < range.end <= data.len(),
        range.start as int / block_size <= last <= (range.end - 1) / block_size,
        block_size <= usize::MAX || data.len() <= usize::MAX,
        forall|i: int|
            range.start as int / block_size <= i <= last ==> #[trigger] holds_block(
                blocks,
                data,
                block_size,
                i,
            ),
    ensures
        joined_pieces(range, block_size, blocks, range.start as int / block_size, last) == Ok::<
            Seq<u8>,
            DataCacheError,
        >(
            data.subrange(
                range.start as int,
                last * block_size + piece_end(range, block_size, last),
            ),
        ),
    decreases last,
{
    let first = range.start as int / block_size;
    lemma_touched_block(range, block_size, last);
    lemma_order_of_blocks(range, block_size);
    assert(holds_block(blocks, data, block_size, last));
    assert((last + 1) * block_size == last * block_size + block_size) by (nonlinear_arith);
    let own = source_block(data, block_size, last);
    let start = piece_start(range, block_size, last);
    let end = piece_end(range, block_size, last);
    assert(end <= own.len());
    assert(end <= usize::MAX);
    assert(piece(range, block_size, blocks, last) == Ok::<Seq<u8>, DataCacheError>(
        own.subrange(start, end),
    ));
    assert(own.subrange(start, end) =~= data.subrange(
        last * block_size + start,
        last * block_size + end,
    ));
    reveal_with_fuel(joined_pieces, 2);
    if last > first {
        lemma_touched_block(range, block_size, last - 1);
        lemma_joined_source(range, block_size, blocks, data, last - 1);
        lemma_joined_extend(range, block_size, blocks, first, last);
        assert((last - 1) * block_size + block_size == last * block_size) by (nonlinear_arith);
        assert(data.subrange(range.start as int, last * block_size) + data.subrange(
            last * block_size,
            last * block_size + end,
        ) =~= data.subrange(range.start as int, last * block_size + end));
    } else {
        assert(own.subrange(start, end) + Seq::<u8>::empty() =~= own.subrange(start, end));
    }
}

/// A range that lies inside an object, read out of blocks that hold the
/// object's octets, is exactly that part of the object. The range, and a block as
/// far as the object fills it, must be what memory can address; the object need
/// not be.
pub proof fn law_assembly_returns_the_source(
    range: Range<u64>,
    block_size: u64,
    blocks: Map<u64, Option<Seq<u8>>>,
    data: Seq<u8>,
)
    requires
        0 < block_size,
        range.start < range.end <= data.len(),
        block_size <= usize::MAX || data.len() <= usize::MAX,
        range.end - range.start <= usize::MAX,
        forall|i: int|
            range.start as int / block_size as int <= i <= (range.end - 1) / block_size as int
                ==> #[trigger] holds_block(blocks, data, block_size as int, i),
    ensures
        assembled(range, block_size as int, blocks) == Ok::<Seq<u8>, DataCacheError>(
            data.subrange(range.start as int, range.end as int),
        ),
{
    lemma_order_of_blocks(range, block_size as int);
    lemma_joined_source(
        range,
        block_size as int,
        blocks,
        data,
        (range.end - 1) / block_size as int,
    );
}

/// How many of the bytes from `start` to `end` lie in blocks that are known.
pub open spec fn bytes_present(
    start: int,
    end: int,
    block_size: int,
    blocks: Map<u64, Option<Seq<u8>>>,
) -> nat
    decreases end - start,
{
    if start >= end {
        0
    } else {
        (if is_present(blocks, start / block_size) {
            1nat
        } else {
            0nat
        }) + bytes_present(start + 1, end, block_size, blocks)
    }
}

/// How many of the bytes from `start` to `end` lie in blocks that are not known.
pub open spec fn bytes_absent(
    start: int,
    end: int,
    block_size: int,
    blocks: Map<u64, Option<Seq<u8>>>,
) -> nat
    decreases end - start,
{
    if start >= end {
        0
    } else {
        (if is_present(blocks, start / block_size) {
            0nat
        } else {
            1nat
        }) + bytes_absent(start + 1, end, block_size, blocks)
    }
}

/// `bytes_present` over all ranges.
pub open spec fn total_present(
    ranges: Seq<Range<u64>>,
    block_size: int,
    blocks: Map<u64, Option<Seq<u8>>>,
) -> nat
    decreases ranges.len(),
{
    if ranges.len() == 0 {
        0
    } else {
        total_present(ranges.drop_last(), block_size, blocks) + bytes_present(
            ranges.last().start as int,
            ranges.last().end as int,
            block_size,
            blocks,
        )
    }
}

/// `bytes_absent` over all ranges.
pub open spec fn total_absent(
    ranges: Seq<Range<u64>>,
    block_size: int,
    blocks: Map<u64, Option<Seq<u8>>>,
) -> nat
    decreases ranges.len(),
{
    if ranges.len() == 0 {
        0
    } else {
        total_absent(ranges.drop_last(), block_size, blocks) + bytes_absent(
            ranges.last().start as int,
            ranges.last().end as int,
            block_size,
            blocks,
        )
    }
}

/// The sum of the lengths of all ranges; an inverted range counts as empty.
pub open spec fn total_requested(ranges: Seq<Range<u64>>) -> nat
    decreases ranges.len(),
{
    if ranges.len() == 0 {
        0
    } else {
        total_requested(ranges.drop_last()) + (if ranges.last().start < ranges.last().end {
            (ranges.last().end - ranges.last().start) as nat
        } else {
            0
        })
    }
}

/// A number of bytes as a saturating 64-bit counter shows it.
pub open spec fn saturated(count: nat) -> u64 {
    if count <= u64::MAX {
        count as u64
    } else {
        u64::MAX
    }
}

/// Counting one stretch inside a single block, then the rest.
proof fn lemma_count_stretch(
    start: int,
    middle: int,
    end: int,
    block_size: int,
    blocks: Map<u64, Option<Seq<u8>>>,
)
    requires
        block_size > 0,
        0 <= start <= middle <= end,
        middle <= (start / block_size) * block_size + block_size,
    ensures
        bytes_present(start, end, block_size, blocks) == (if is_present(
            blocks,
            start / block_size,
        ) {
            (middle - start) as nat
        } else {
            0
        }) + bytes_present(middle, end, block_size, blocks),
        bytes_absent(start, end, block_size, blocks) == (if is_present(
            blocks,
            start / block_size,
        ) {
            0
        } else {
            (middle - start) as nat
        }) + bytes_absent(middle, end, block_size, blocks),
    decreases middle - start,
{
    if start < middle {
        if start + 1 < middle {
            let q = start / block_size;
            vstd::arithmetic::div_mod::lemma_fundamental_div_mod(start, block_size);
            vstd::arithmetic::div_mod::lemma_mod_bound(start, block_size);
            assert(block_size * q == q * block_size) by (nonlinear_arith);
            assert((start + 1) / block_size == q) by {
                vstd::arithmetic::div_mod::lemma_fundamental_div_mod_converse(
                    start + 1,
                    block_size,
                    q,
                    start + 1 - q * block_size,
                );
            }
            lemma_count_stretch(start + 1, middle, end, block_size, blocks);
        }
    }
}

proof fn lemma_counts_add_up(
    start: int,
    end: int,
    block_size: int,
    blocks: Map<u64, Option<Seq<u8>>>,
)
    ensures
        bytes_present(start, end, block_size, blocks) + bytes_absent(
            start,
            end,
            block_size,
            blocks,
        ) == (if start < end {
            end - start
        } else {
            0
        }),
    decreases end - start,
{
    if start < end {
        lemma_counts_add_up(start + 1, end, block_size, blocks);
    }
}

/// Every requested byte is counted once, either as present or as absent.
pub proof fn law_every_requested_byte_is_counted_once(
    ranges: Seq<Range<u64>>,
    block_size: int,
    blocks: Map<u64, Option<Seq<u8>>>,
)
    ensures
        total_present(ranges, block_size, blocks) + total_absent(ranges, block_size, blocks)
            == total_requested(ranges),
    decreases ranges.len(),
{
    if ranges.len() > 0 {
        law_every_requested_byte_is_counted_once(ranges.drop_last(), block_size, blocks);
        lemma_counts_add_up(
            ranges.last().start as int,
            ranges.last().end as int,
            block_size,
            blocks,
        );
    }
}

proof fn lemma_stretch_present(
    start: int,
    end: int,
    block_size: int,
    blocks: Map<u64, Option<Seq<u8>>>,
    range: Range<u64>,
)
    requires
        block_size > 0,
        range.start <= start,
        end == range.end,
        forall|index: int| #[trigger]
            touches(range, block_size, index) ==> is_present(blocks, index),
    ensures
        bytes_absent(start, end, block_size, blocks) == 0,
    decreases end - start,
{
    if start < end {
        vstd::arithmetic::div_mod::lemma_div_is_ordered(range.start as int, start, block_size);
        vstd::arithmetic::div_mod::lemma_div_is_ordered(start, end - 1, block_size);
        assert(touches(range, block_size, start / block_size));
        lemma_stretch_present(start + 1, end, block_size, blocks, range);
    }
}

/// Where every touched block is known, no requested byte is absent.
pub proof fn lemma_nothing_absent(
    ranges: Seq<Range<u64>>,
    block_size: int,
    blocks: Map<u64, Option<Seq<u8>>>,
)
    requires
        block_size > 0,
        forall|index: int| #[trigger]
            touched(ranges, block_size, index) ==> is_present(blocks, index),
    ensures
        total_absent(ranges, block_size, blocks) == 0,
    decreases ranges.len(),
{
    if ranges.len() > 0 {
        let earlier = ranges.drop_last();
        let range = ranges.last();
        assert forall|index: int| #[trigger] touched(earlier, block_size, index) implies is_present(
            blocks,
            index,
        ) by {
            let i = choose|i: int|
                0 <= i < earlier.len() && #[trigger] touches(earlier[i], block_size, index);
            assert(touches(ranges[i], block_size, index));
            assert(touched(ranges, block_size, index));
        }
        lemma_nothing_absent(earlier, block_size, blocks);
        assert forall|index: int| #[trigger] touches(range, block_size, index) implies is_present(
            blocks,
            index,
        ) by {
            assert(touches(ranges[ranges.len() - 1], block_size, index));
            assert(touched(ranges, block_size, index));
        }
        lemma_stretch_present(range.start as int, range.end as int, block_size, blocks, range);
    }
}

/// Splits the requested bytes into those of known blocks and the others.
pub fn requested_bytes_by_cache_status(
    ranges: &[Range<u64>],
    block_size: u64,
    blocks: &BTreeMap<u64, Option<Bytes>>,
) -> (split: (u64, u64))
    requires
        block_size > 0,
    ensures
        split.0 == saturated(total_present(ranges@, block_size as int, known(blocks@))),
        split.1 == saturated(total_absent(ranges@, block_size as int, known(blocks@))),
{
    let ghost bs = block_size as int;
    let ghost table = known(blocks@);
    let mut hit_bytes: u64 = 0;
    let mut miss_bytes: u64 = 0;
    let mut i: usize = 0;
    while i < ranges.len()
        invariant
            block_size > 0,
            bs == block_size,
            table == known(blocks@),
            i <= ranges.len(),
            hit_bytes == saturated(total_present(ranges@.take(i as int), bs, table)),
            miss_bytes == saturated(total_absent(ranges@.take(i as int), bs, table)),
        decreases ranges.len() - i,
    {
        let range_start: u64 = ranges[i].start;
        let range_end: u64 = ranges[i].end;
        let ghost present = total_present(ranges@.take(i as int), bs, table);
        let ghost absent = total_absent(ranges@.take(i as int), bs, table);
        let mut start: u64 = range_start;
        let ghost mut seen_present: nat = 0;
        let ghost mut seen_absent: nat = 0;
        while start < range_end
            invariant
                block_size > 0,
                bs == block_size,
                table == known(blocks@),
                range_start <= start,
                start <= range_end || start == range_start,
                hit_bytes == saturated(present + seen_present),
                miss_bytes == saturated(absent + seen_absent),
                bytes_present(range_start as int, range_end as int, bs, table) == seen_present
                    + bytes_present(start as int, range_end as int, bs, table),
                bytes_absent(range_start as int, range_end as int, bs, table) == seen_absent
                    + bytes_absent(start as int, range_end as int, bs, table),
            decreases range_end - start,
        {
            let block_index: u64 = start / block_size;
            proof {
                vstd::arithmetic::div_mod::lemma_fundamental_div_mod(start as int, bs);
                vstd::arithmetic::div_mod::lemma_mod_bound(start as int, bs);
                assert(bs * block_index == block_index * bs) by (nonlinear_arith);
            }
            let block_start: u64 = block_index * block_size;
            let block_end: u64 = block_start.saturating_add(block_size);
            let end: u64 = if range_end < block_end {
                range_end
            } else {
                block_end
            };
            let bytes: u64 = end - start;
            proof {
                lemma_count_stretch(start as int, end as int, range_end as int, bs, table);
            }
            let present_here: bool = match blocks.get(&block_index) {
                Some(Some(_)) => true,
                _ => false,
            };
            assert(present_here == is_present(table, block_index as int));
            if present_here {
                hit_bytes = hit_bytes.saturating_add(bytes);
                proof {
                    seen_present = seen_present + bytes as nat;
                }
            } else {
                miss_bytes = miss_bytes.saturating_add(bytes);
                proof {
                    seen_absent = seen_absent + bytes as nat;
                }
            }
            start = end;
        }
        proof {
            assert(ranges@.take(i + 1).drop_last() =~= ranges@.take(i as int));
            assert(ranges@.take(i + 1).last() == ranges@[i as int]);
        }
        i += 1;
    }
    proof {
        assert(ranges@.take(i as int) =~= ranges@);
    }
    (hit_bytes, miss_bytes)
}

/// Whether a read touches block `index` and its octets are not known.
pub open spec fn is_missing(blocks: Map<u64, Option<Seq<u8>>>, index: int) -> bool {
    &&& 0 <= index <= u64::MAX
    &&& blocks.contains_key(index as u64)
    &&& blocks[index as u64] is None
}

/// Whether every block of the table starts before the end of the object.
pub open spec fn starts_inside(
    blocks: Map<u64, Option<Seq<u8>>>,
    block_size: int,
    object_size: int,
) -> bool {
    forall|index: u64| #[trigger]
        blocks.contains_key(index) ==> index * block_size < object_size
}

/// Whether `offset` lies in one of `runs`.
pub open spec fn in_runs(runs: Seq<Range<u64>>, offset: int) -> bool {
    exists|i: int| 0 <= i < runs.len() && (#[trigger] runs[i]).start <= offset < runs[i].end
}

/// The missing parts of an object: ascending runs of bytes, each as long as
/// possible, that hold exactly the bytes of the missing blocks.
pub open spec fn is_miss_runs(
    runs: Seq<Range<u64>>,
    block_size: int,
    object_size: int,
    blocks: Map<u64, Option<Seq<u8>>>,
) -> bool {
    &&& forall|i: int|
        0 <= i < runs.len() ==> (#[trigger] runs[i]).start < runs[i].end <= object_size
            && runs[i].start as int % block_size == 0
    &&& forall|i: int, j: int| 0 <= i < j < runs.len() ==> runs[i].end < runs[j].start
    &&& forall|offset: int|
        0 <= offset < object_size ==> (#[trigger] in_runs(runs, offset) <==> is_missing(
            blocks,
            offset / block_size,
        ))
}

/// Whether a range touches block `index`.
pub open spec fn touches(range: Range<u64>, block_size: int, index: int) -> bool {
    &&& range.start < range.end
    &&& range.start as int / block_size <= index <= (range.end - 1) / block_size
}

/// Whether one of `ranges` touches block `index`.
pub open spec fn touched(ranges: Seq<Range<u64>>, block_size: int, index: int) -> bool {
    exists|i: int| 0 <= i < ranges.len() && #[trigger] touches(ranges[i], block_size, index)
}

/// The blocks that a read touches, with the order in which they lie.
pub struct BlockTable {
    indices: Vec<u64>,
    blocks: BTreeMap<u64, Option<Bytes>>,
}

impl View for BlockTable {
    type V = Map<u64, Option<Seq<u8>>>;

    closed spec fn view(&self) -> Map<u64, Option<Seq<u8>>> {
        known(self.blocks@)
    }
}

impl BlockTable {
    /// The blocks of the table in ascending order.
    pub closed spec fn order(&self) -> Seq<u64> {
        self.indices@
    }

    /// The order lists each block once, in ascending order.
    pub open spec fn wf(&self) -> bool {
        &&& forall|i: int, j: int| 0 <= i < j < self.order().len() ==> self.order()[i]
            < self.order()[j]
        &&& forall|index: u64| #[trigger]
            self@.contains_key(index) <==> self.order().contains(index)
    }

    /// A table without blocks.
    pub fn new() -> (table: BlockTable)
        ensures
            table.wf(),
            table@ == Map::<u64, Option<Seq<u8>>>::empty(),
    {
        let table = BlockTable { indices: Vec::new(), blocks: BTreeMap::new() };
        assert(table@ =~= Map::<u64, Option<Seq<u8>>>::empty());
        table
    }

    /// The blocks in ascending order.
    pub fn indices(&self) -> (indices: &Vec<u64>)
        ensures
            indices@ == self.order(),
    {
        &self.indices
    }

    /// The blocks with what is known of them.
    pub fn blocks(&self) -> (blocks: &BTreeMap<u64, Option<Bytes>>)
        ensures
            known(blocks@) == self@,
    {
        &self.blocks
    }

    /// Adds a block whose octets are not known, unless the table has it.
    pub fn touch(&mut self, index: u64)
        requires
            old(self).wf(),
        ensures
            final(self).wf(),
            final(self)@ == (if old(self)@.contains_key(index) {
                old(self)@
            } else {
                old(self)@.insert(index, None)
            }),
    {
        if self.blocks.contains_key(&index) {
            return;
        }
        let ghost before = self.indices@;
        assert(before == self.order());
        assert(!self@.contains_key(index));
        let mut at: usize = self.indices.len();
        while at > 0 && self.indices[at - 1] > index
            invariant
                at <= self.indices.len(),
                self.indices@ == before,
                forall|i: int, j: int| 0 <= i < j < before.len() ==> before[i] < before[j],
                forall|i: int| at <= i < before.len() ==> before[i] > index,
            decreases at,
        {
            at -= 1;
        }
        proof {
            if at > 0 {
                assert(before.contains(before[at - 1]));
            }
        }
        self.indices.insert(at, index);
        self.blocks.insert(index, None);
        proof {
            let after = self.indices@;
            assert(after == before.insert(at as int, index));
            assert forall|k: u64| after.contains(k) <==> (k == index || before.contains(k)) by {
                if k == index {
                    assert(after[at as int] == k);
                }
                if before.contains(k) {
                    let i = choose|i: int| 0 <= i < before.len() && before[i] == k;
                    if i < at {
                        assert(after[i] == k);
                    } else {
                        assert(after[i + 1] == k);
                    }
                }
                if after.contains(k) && k != index {
                    let i = choose|i: int| 0 <= i < after.len() && after[i] == k;
                    if i < at {
                        assert(before[i] == k);
                    } else {
                        assert(before[i - 1] == k);
                    }
                }
            }
            assert(self@ =~= old(self)@.insert(index, None));
        }
    }

    /// Notes the octets of a block, if the table has it.
    pub fn fill(&mut self, index: u64, octets: Bytes)
        requires
            old(self).wf(),
        ensures
            final(self).wf(),
            final(self).order() == old(self).order(),
            final(self)@ == (if old(self)@.contains_key(index) {
                old(self)@.insert(index, Some(octets::contents(octets)))
            } else {
                old(self)@
            }),
    {
        if self.blocks.contains_key(&index) {
            self.blocks.insert(index, Some(octets));
            assert(self@ =~= old(self)@.insert(index, Some(octets::contents(octets))));
            assert(self.order() == old(self).order());
            assert(old(self)@.contains_key(index));
        }
    }

    /// The table of all blocks that `ranges` touch, none of them known.
    pub fn of_ranges(ranges: &[Range<u64>], block_size: u64) -> (table: BlockTable)
        requires
            block_size > 0,
            forall|i: int|
                0 <= i < ranges@.len() ==> (#[trigger] ranges@[i]).start < ranges@[i].end,
        ensures
            table.wf(),
            forall|index: u64|
                #![trigger table@.contains_key(index)]
                (table@.contains_key(index) <==> touched(ranges@, block_size as int, index as int))
                    && (table@.contains_key(index) ==> table@[index] is None),
    {
        let ghost bs = block_size as int;
        let mut table = BlockTable::new();
        let mut i: usize = 0;
        while i < ranges.len()
            invariant
                block_size > 0,
                bs == block_size,
                i <= ranges.len(),
                forall|k: int|
                    0 <= k < ranges@.len() ==> (#[trigger] ranges@[k]).start < ranges@[k].end,
                table.wf(),
                forall|index: u64|
                    #![trigger table@.contains_key(index)]
                    (table@.contains_key(index) <==> touched(
                        ranges@.take(i as int),
                        bs,
                        index as int,
                    )) && (table@.contains_key(index) ==> table@[index] is None),
            decreases ranges.len() - i,
        {
            let ghost before = table@;
            let ghost range = ranges@[i as int];
            let first: u64 = ranges[i].start / block_size;
            let last: u64 = (ranges[i].end - 1) / block_size;
            let mut block_index: u64 = first;
            proof {
                lemma_order_of_blocks(range, bs);
            }
            while block_index <= last
                invariant
                    range.start < range.end,
                    first == range.start as int / bs,
                    last == (range.end - 1) / bs,
                    last < u64::MAX,
                    first <= block_index <= last + 1,
                    table.wf(),
                    forall|index: u64|
                        #![trigger table@.contains_key(index)]
                        (table@.contains_key(index) <==> before.contains_key(index) || first
                            <= index < block_index),
                    forall|index: u64| #[trigger]
                        table@.contains_key(index) ==> table@[index] is None,
                    forall|index: u64| #[trigger]
                        before.contains_key(index) ==> before[index] is None,
                decreases last + 1 - block_index,
            {
                table.touch(block_index);
                block_index += 1;
            }
            proof {
                assert forall|index: u64| #[trigger] table@.contains_key(index) <==> touched(
                    ranges@.take(i + 1),
                    bs,
                    index as int,
                ) by {
                    let earlier = ranges@.take(i as int);
                    let upto = ranges@.take(i + 1);
                    if touched(earlier, bs, index as int) {
                        let k = choose|k: int|
                            0 <= k < earlier.len() && #[trigger] touches(
                                earlier[k],
                                bs,
                                index as int,
                            );
                        assert(touches(upto[k], bs, index as int));
                    }
                    if first <= index <= last {
                        assert(touches(upto[i as int], bs, index as int));
                    }
                    if touched(upto, bs, index as int) {
                        let k = choose|k: int|
                            0 <= k < upto.len() && #[trigger] touches(upto[k], bs, index as int);
                        if k < i {
                            assert(touches(earlier[k], bs, index as int));
                        }
                    }
                }
            }
            i += 1;
        }
        assert(ranges@.take(i as int) =~= ranges@);
        table
    }

    /// The missing parts of the object as runs of bytes, or an error if the
    /// end of a missing block does not fit in 64 bits.
    pub fn miss_runs(&self, block_size: u64, object_size: u64) -> (result: Result<
        Vec<Range<u64>>,
        DataCacheError,
    >)
        requires
            self.wf(),
            block_size > 0,
            starts_inside(self@, block_size as int, object_size as int),
        ensures
            match result {
                Ok(runs) => is_miss_runs(
                    runs@,
                    block_size as int,
                    object_size as int,
                    self@,
                ) && forall|index: u64| #[trigger]
                    is_missing(self@, index as int) ==> (index + 1) * block_size <= u64::MAX,
                Err(error) => error == DataCacheError::BlockEndOverflow && exists|index: u64|
                    #[trigger] is_missing(self@, index as int) && (index + 1) * block_size
                        > u64::MAX,
            },
    {
        let ghost bs = block_size as int;
        let ghost size = object_size as int;
        let ghost order = self.indices@;
        let mut runs: Vec<Range<u64>> = Vec::new();
        let mut i: usize = 0;
        let ghost mut latest: int = -1;
        while i < self.indices.len()
            invariant
                self.wf(),
                block_size > 0,
                bs == block_size,
                size == object_size,
                order == self.order(),
                order == self.indices@,
                starts_inside(self@, bs, size),
                i <= self.indices.len(),
                forall|k: int|
                    0 <= k < i && is_missing(self@, (#[trigger] order[k]) as int) ==> (order[k] + 1)
                        * bs <= u64::MAX,
                forall|k: int|
                    0 <= k < runs@.len() ==> (#[trigger] runs@[k]).start < runs@[k].end <= size
                        && runs@[k].start as int % bs == 0,
                forall|k: int, l: int| 0 <= k < l < runs@.len() ==> runs@[k].end < runs@[l].start,
                forall|offset: int|
                    0 <= offset < size ==> (#[trigger] in_runs(runs@, offset) <==> is_missing(
                        self@,
                        offset / bs,
                    ) && order.take(i as int).contains((offset / bs) as u64)),
                forall|k: int| i <= k < order.len() ==> latest < #[trigger] order[k],
                runs@.len() > 0 ==> latest >= 0 && runs@.last().end == (if (latest + 1) * bs
                    < size {
                    (latest + 1) * bs
                } else {
                    size
                }),
            decreases self.indices.len() - i,
        {
            let block_index: u64 = self.indices[i];
            let ghost before = runs@;
            proof {
                assert(order.contains(block_index));
                assert(self@.contains_key(block_index));
                assert(order.take(i + 1) =~= order.take(i as int).push(block_index));
                assert forall|x: u64| #[trigger]
                    order.take(i + 1).contains(x) <==> order.take(i as int).contains(x) || x
                        == block_index by {
                    lemma_push_contains(order.take(i as int), block_index, x);
                }
            }
            let missing: bool = match self.blocks.get(&block_index) {
                Some(None) => true,
                _ => false,
            };
            assert(missing == is_missing(self@, block_index as int));
            if missing {
                proof {
                    assert((block_index + 1) * bs == block_index * bs + bs) by (nonlinear_arith);
                    assert(0 <= block_index * bs) by (nonlinear_arith)
                        requires
                            bs > 0,
                    ;
                    assert((block_index * bs) % bs == 0) by {
                        vstd::arithmetic::div_mod::lemma_mod_multiples_basic(
                            block_index as int,
                            bs,
                        );
                    }
                    assert((latest + 1) * bs <= block_index * bs) by (nonlinear_arith)
                        requires
                            latest + 1 <= block_index,
                            bs > 0,
                    ;
                }
                let start: u64 = block_index * block_size;
                if start > u64::MAX - block_size {
                    return Err(DataCacheError::BlockEndOverflow);
                }
                let block_end: u64 = start + block_size;
                let end: u64 = if block_end < object_size {
                    block_end
                } else {
                    object_size
                };
                let count: usize = runs.len();
                if count > 0 && runs[count - 1].end == start {
                    let run_start: u64 = runs[count - 1].start;
                    runs.set(count - 1, run_start..end);
                } else {
                    runs.push(start..end);
                }
                proof {
                    latest = block_index as int;
                    assert forall|offset: int| 0 <= offset < size implies (#[trigger] in_runs(
                        runs@,
                        offset,
                    ) <==> is_missing(self@, offset / bs) && order.take(i + 1).contains(
                        (offset / bs) as u64,
                    )) by {
                        lemma_in_block(offset, bs, block_index as int);
                        lemma_runs_extended(before, runs@, start, end, offset);
                    }
                }
            }
            i += 1;
        }
        proof {
            assert(order.take(i as int) =~= order);
            assert forall|index: u64| #[trigger] is_missing(self@, index as int) implies (index
                + 1) * block_size <= u64::MAX by {
                assert(order.contains(index));
                let k = choose|k: int| 0 <= k < order.len() && order[k] == index;
            }
            assert forall|offset: int| 0 <= offset < size implies (#[trigger] in_runs(
                runs@,
                offset,
            ) <==> is_missing(self@, offset / bs)) by {
                if is_missing(self@, offset / bs) {
                    assert(self@.contains_key((offset / bs) as u64));
                }
            }
        }
        Ok(runs)
    }
}

/// Which offsets a block covers.
pub proof fn lemma_in_block(offset: int, block_size: int, index: int)
    requires
        0 <= offset,
        block_size > 0,
    ensures
        offset / block_size == index <==> index * block_size <= offset < (index + 1) * block_size,
{
    let q = offset / block_size;
    vstd::arithmetic::div_mod::lemma_fundamental_div_mod(offset, block_size);
    vstd::arithmetic::div_mod::lemma_mod_bound(offset, block_size);
    assert(block_size * q == q * block_size) by (nonlinear_arith);
    assert((q + 1) * block_size == q * block_size + block_size) by (nonlinear_arith);
    assert((index + 1) * block_size == index * block_size + block_size) by (nonlinear_arith);
    if index < q {
        assert((index + 1) * block_size <= q * block_size) by (nonlinear_arith)
            requires
                index + 1 <= q,
                block_size > 0,
        ;
    } else if index > q {
        assert((q + 1) * block_size <= index * block_size) by (nonlinear_arith)
            requires
                q + 1 <= index,
                block_size > 0,
        ;
    }
}

proof fn lemma_push_contains(s: Seq<u64>, last: u64, x: u64)
    ensures
        s.push(last).contains(x) <==> s.contains(x) || x == last,
{
    if s.contains(x) {
        let i = choose|i: int| 0 <= i < s.len() && s[i] == x;
        assert(s.push(last)[i] == x);
    }
    if x == last {
        assert(s.push(last)[s.len() as int] == x);
    }
}

/// Which offsets the runs cover after one more block was added at their end.
proof fn lemma_runs_extended(
    before: Seq<Range<u64>>,
    after: Seq<Range<u64>>,
    start: u64,
    end: u64,
    offset: int,
)
    requires
        start < end,
        after == before.push(start..end) || (before.len() > 0 && before.last().start
            < before.last().end && before.last().end == start && after == before.update(
            before.len() - 1,
            before.last().start..end,
        )),
    ensures
        in_runs(after, offset) <==> in_runs(before, offset) || start <= offset < end,
{
    let n = before.len() as int;
    if in_runs(before, offset) {
        let i = choose|i: int|
            0 <= i < before.len() && (#[trigger] before[i]).start <= offset < before[i].end;
        assert(after[i].start <= offset < after[i].end);
    }
    if start <= offset < end {
        assert(after[after.len() - 1].start <= offset < after[after.len() - 1].end);
    }
    if in_runs(after, offset) {
        let i = choose|i: int|
            0 <= i < after.len() && (#[trigger] after[i]).start <= offset < after[i].end;
        if i < n {
            assert(before[i].start <= offset < before[i].end || start <= offset < end);
        }
    }
}

/// A table of buffers has the same blocks as its octets, known in the same places.
pub proof fn law_known_blocks_are_the_buffers(blocks: Map<u64, Option<Bytes>>, index: u64)
    ensures
        known(blocks).contains_key(index) <==> blocks.contains_key(index),
        blocks.contains_key(index) ==> {
            &&& known(blocks)[index] is Some <==> blocks[index] is Some
            &&& blocks[index] matches Some(buffer) ==> known(blocks)[index] == Some(
                octets::contents(buffer),
            )
        },
{
}

/// A well-formed table lists each of its blocks once, in ascending order, and no
/// other.
pub proof fn law_table_lists_its_blocks(table: BlockTable, i: int, j: int, index: u64)
    requires
        table.wf(),
    ensures
        0 <= i < j < table.order().len() ==> table.order()[i] < table.order()[j],
        table@.contains_key(index) <==> exists|k: int|
            0 <= k < table.order().len() && table.order()[k] == index,
{
    if table@.contains_key(index) {
        assert(table.order().contains(index));
    }
}

/// Block `index` of an object holds the byte at each of its offsets, as many as the
/// block size or as the object still has.
pub proof fn law_blocks_cut_the_object(data: Seq<u8>, block_size: int, offset: int)
    requires
        block_size > 0,
        0 <= offset < data.len(),
    ensures
        ({
            let block = source_block(data, block_size, offset / block_size);
            let begin = offset - offset % block_size;
            &&& offset % block_size < block.len()
            &&& block[offset % block_size] == data[offset]
            &&& begin + block_size <= data.len() ==> block.len() == block_size
            &&& begin + block_size > data.len() ==> block.len() == data.len() - begin
        }),
{
    let index = offset / block_size;
    vstd::arithmetic::div_mod::lemma_fundamental_div_mod(offset, block_size);
    vstd::arithmetic::div_mod::lemma_mod_bound(offset, block_size);
    assert(block_size * index == index * block_size) by (nonlinear_arith);
    assert((index + 1) * block_size == index * block_size + block_size) by (nonlinear_arith);
    assert(0 <= index) by {
        vstd::arithmetic::div_mod::lemma_div_pos_is_pos(offset, block_size);
    }
    assert(0 <= index * block_size) by (nonlinear_arith)
        requires
            index >= 0,
            block_size > 0,
    ;
}

proof fn lemma_joined_octets(
    range: Range<u64>,
    block_size: int,
    blocks: Map<u64, Option<Seq<u8>>>,
    index: int,
    offset: int,
)
    requires
        block_size > 0,
        range.start < range.end,
        range.start as int / block_size <= index <= (range.end - 1) / block_size,
        joined_pieces(range, block_size, blocks, index, (range.end - 1) / block_size) is Ok,
        range.start <= offset < range.end,
        index * block_size <= offset,
    ensures
        ({
            let joined = joined_pieces(
                range,
                block_size,
                blocks,
                index,
                (range.end - 1) / block_size,
            )->Ok_0;
            let from = index * block_size + piece_start(range, block_size, index);
            let at = offset / block_size;
            &&& joined.len() == range.end - from
            &&& 0 <= at <= u64::MAX && blocks.contains_key(at as u64) && blocks[at as u64] is Some
            &&& offset % block_size < blocks[at as u64]->0.len()
            &&& joined[offset - from] == blocks[at as u64]->0[offset % block_size]
        }),
    decreases (range.end - 1) / block_size - index,
{
    let last = (range.end - 1) / block_size;
    let from = index * block_size + piece_start(range, block_size, index);
    lemma_touched_block(range, block_size, index);
    lemma_order_of_blocks(range, block_size);
    reveal_with_fuel(joined_pieces, 2);
    let head = piece(range, block_size, blocks, index)->Ok_0;
    let rest = joined_pieces(range, block_size, blocks, index + 1, last)->Ok_0;
    let joined = joined_pieces(range, block_size, blocks, index, last)->Ok_0;
    assert((index + 1) * block_size == index * block_size + block_size) by (nonlinear_arith);
    if index < last {
        lemma_touched_block(range, block_size, index + 1);
        assert(piece_end(range, block_size, index) == block_size);
        let later = if offset >= (index + 1) * block_size {
            offset
        } else {
            (index + 1) * block_size
        };
        lemma_joined_octets(range, block_size, blocks, index + 1, later);
        assert(joined.len() == range.end - from);
        if offset >= (index + 1) * block_size {
            assert(joined[offset - from] == rest[offset - (index + 1) * block_size]);
        }
    } else {
        assert(joined =~= head);
    }
    if offset < (index + 1) * block_size {
        lemma_in_block(offset, block_size, index);
        vstd::arithmetic::div_mod::lemma_fundamental_div_mod(offset, block_size);
        assert(block_size * index == index * block_size) by (nonlinear_arith);
        assert(offset % block_size == offset - index * block_size);
        assert(joined[offset - from] == head[offset - from]);
    }
}

/// An assembled range has its own length, and the byte at each of its offsets is the
/// one that the block of that offset holds there. An empty range is assembled from
/// nothing.
pub proof fn law_assembly_takes_each_byte_from_its_block(
    range: Range<u64>,
    block_size: int,
    blocks: Map<u64, Option<Seq<u8>>>,
    offset: int,
)
    requires
        block_size > 0,
        assembled(range, block_size, blocks) is Ok,
    ensures
        ({
            let octets = assembled(range, block_size, blocks)->Ok_0;
            let at = offset / block_size;
            &&& range.start >= range.end ==> octets.len() == 0
            &&& range.start < range.end ==> octets.len() == range.end - range.start
            &&& range.start <= offset < range.end ==> {
                &&& 0 <= at <= u64::MAX && blocks.contains_key(at as u64)
                    && blocks[at as u64] is Some
                &&& offset % block_size < blocks[at as u64]->0.len()
                &&& octets[offset - range.start] == blocks[at as u64]->0[offset % block_size]
            }
        }),
{
    if range.start < range.end {
        lemma_order_of_blocks(range, block_size);
        let first = range.start as int / block_size;
        lemma_touched_block(range, block_size, first);
        let some = if range.start <= offset < range.end {
            offset
        } else {
            range.start as int
        };
        lemma_joined_octets(range, block_size, blocks, first, some);
    }
}

proof fn lemma_joined_error(
    range: Range<u64>,
    block_size: int,
    blocks: Map<u64, Option<Seq<u8>>>,
    index: int,
)
    requires
        block_size > 0,
        range.start < range.end,
        range.start as int / block_size <= index <= (range.end - 1) / block_size + 1,
        joined_pieces(range, block_size, blocks, index, (range.end - 1) / block_size) is Err,
    ensures
        exists|at: int|
            index <= at <= (range.end - 1) / block_size && #[trigger] piece(
                range,
                block_size,
                blocks,
                at,
            ) is Err && joined_pieces(
                range,
                block_size,
                blocks,
                index,
                (range.end - 1) / block_size,
            ) == Err::<Seq<u8>, DataCacheError>(piece(range, block_size, blocks, at)->Err_0)
                && forall|k: int|
                index <= k < at ==> #[trigger] piece(range, block_size, blocks, k) is Ok,
    decreases (range.end - 1) / block_size - index + 1,
{
    reveal_with_fuel(joined_pieces, 2);
    let last = (range.end - 1) / block_size;
    if piece(range, block_size, blocks, index) is Ok {
        lemma_joined_error(range, block_size, blocks, index + 1);
        let at = choose|at: int|
            index + 1 <= at <= last && #[trigger] piece(range, block_size, blocks, at) is Err
                && joined_pieces(range, block_size, blocks, index + 1, last) == Err::<
                Seq<u8>,
                DataCacheError,
            >(piece(range, block_size, blocks, at)->Err_0) && forall|k: int|
                index + 1 <= k < at ==> #[trigger] piece(range, block_size, blocks, k) is Ok;
        assert(piece(range, block_size, blocks, at) is Err);
    } else {
        assert(piece(range, block_size, blocks, index) is Err);
    }
}

/// An assembly that fails names a block that the range needs: one that is not known,
/// or one that is shorter than the range needs it to be; unless the range or a part
/// of a block is more than memory can address.
pub proof fn law_failed_assembly_names_its_block(
    range: Range<u64>,
    block_size: int,
    blocks: Map<u64, Option<Seq<u8>>>,
)
    requires
        block_size > 0,
        assembled(range, block_size, blocks) is Err,
    ensures
        range.start < range.end,
        match assembled(range, block_size, blocks)->Err_0 {
            DataCacheError::MissingBlock { block } => {
                &&& range.start as int / block_size <= block <= (range.end - 1) / block_size
                &&& !(blocks.contains_key(block) && blocks[block] is Some)
            },
            DataCacheError::ShortBlock { block, start, end, len } => {
                &&& range.start as int / block_size <= block <= (range.end - 1) / block_size
                &&& blocks.contains_key(block) && blocks[block] is Some
                &&& blocks[block]->0.len() < end <= block_size
                &&& len as nat == blocks[block]->0.len() || blocks[block]->0.len() > usize::MAX
                &&& block * block_size + end <= range.end
                &&& start == 0 || block * block_size + start == range.start
                &&& end == block_size || block * block_size + end == range.end
            },
            DataCacheError::SliceStartTooLarge => block_size > usize::MAX,
            DataCacheError::SliceEndTooLarge => block_size > usize::MAX,
            DataCacheError::RangeTooLarge { range_start, range_end } => {
                &&& range_start == range.start && range_end == range.end
                &&& range.end - range.start > usize::MAX
            },
            _ => false,
        },
{
    let first = range.start as int / block_size;
    let last = (range.end - 1) / block_size;
    assert(range.start < range.end);
    lemma_order_of_blocks(range, block_size);
    if !(first != last && range.end - range.start > usize::MAX) {
        lemma_joined_error(range, block_size, blocks, first);
        let at = choose|at: int|
            first <= at <= last && #[trigger] piece(range, block_size, blocks, at) is Err
                && joined_pieces(range, block_size, blocks, first, last) == Err::<
                Seq<u8>,
                DataCacheError,
            >(piece(range, block_size, blocks, at)->Err_0);
        lemma_touched_block(range, block_size, at);
    }
}

/// A range that several blocks serve is too large if and only if its length is more
/// than memory can address, whatever is known of its blocks.
pub proof fn law_range_must_be_addressable(
    range: Range<u64>,
    block_size: int,
    blocks: Map<u64, Option<Seq<u8>>>,
)
    requires
        block_size > 0,
        range.start < range.end,
        range.end - range.start > usize::MAX,
        range.start as int / block_size != (range.end - 1) / block_size,
    ensures
        assembled(range, block_size, blocks) == Err::<Seq<u8>, DataCacheError>(
            DataCacheError::RangeTooLarge { range_start: range.start, range_end: range.end },
        ),
{
}

/// The bytes of two adjoining stretches are counted apart, and one byte counts for its
/// own block: as present if that block is known, else as absent.
pub proof fn law_bytes_count_for_their_block(
    start: int,
    middle: int,
    end: int,
    block_size: int,
    blocks: Map<u64, Option<Seq<u8>>>,
)
    requires
        block_size > 0,
        0 <= start <= middle <= end <= u64::MAX + 1,
    ensures
        bytes_present(start, end, block_size, blocks) == bytes_present(
            start,
            middle,
            block_size,
            blocks,
        ) + bytes_present(middle, end, block_size, blocks),
        bytes_absent(start, end, block_size, blocks) == bytes_absent(
            start,
            middle,
            block_size,
            blocks,
        ) + bytes_absent(middle, end, block_size, blocks),
        bytes_present(start, start, block_size, blocks) == 0,
        bytes_absent(start, start, block_size, blocks) == 0,
        start <= u64::MAX ==> ({
            let at = (start / block_size) as u64;
            let is_known = blocks.contains_key(at) && blocks[at] is Some;
            &&& bytes_present(start, start + 1, block_size, blocks) == if is_known {
                1nat
            } else {
                0nat
            }
            &&& bytes_absent(start, start + 1, block_size, blocks) == if is_known {
                0nat
            } else {
                1nat
            }
        }),
    decreases middle - start,
{
    reveal_with_fuel(bytes_present, 2);
    reveal_with_fuel(bytes_absent, 2);
    if start <= u64::MAX {
        vstd::arithmetic::div_mod::lemma_div_pos_is_pos(start, block_size);
        vstd::arithmetic::div_mod::lemma_div_is_ordered_by_denominator(start, 1, block_size);
        vstd::arithmetic::div_mod::lemma_div_basics(start);
    }
    if start < middle {
        law_bytes_count_for_their_block(start + 1, middle, end, block_size, blocks);
    }
}

/// The counts of a request add up over its ranges, and an empty request counts
/// nothing.
pub proof fn law_counts_add_up_over_ranges(
    ranges: Seq<Range<u64>>,
    range: Range<u64>,
    block_size: int,
    blocks: Map<u64, Option<Seq<u8>>>,
)
    ensures
        total_present(Seq::empty(), block_size, blocks) == 0,
        total_absent(Seq::empty(), block_size, blocks) == 0,
        total_requested(Seq::empty()) == 0,
        total_present(ranges.push(range), block_size, blocks) == total_present(
            ranges,
            block_size,
            blocks,
        ) + bytes_present(range.start as int, range.end as int, block_size, blocks),
        total_absent(ranges.push(range), block_size, blocks) == total_absent(
            ranges,
            block_size,
            blocks,
        ) + bytes_absent(range.start as int, range.end as int, block_size, blocks),
        total_requested(ranges.push(range)) == total_requested(ranges) + if range.start
            <= range.end {
            range.end - range.start
        } else {
            0
        },
{
    assert(ranges.push(range).drop_last() =~= ranges);
}

/// A counter shows a number of bytes as it is, up to the largest it can hold.
pub proof fn law_counter_saturates(count: nat)
    ensures
        count <= u64::MAX ==> saturated(count) == count,
        count > u64::MAX ==> saturated(count) == u64::MAX,
{
}

/// A request touches just the blocks in which one of its bytes lies.
pub proof fn law_touched_blocks_hold_a_requested_byte(
    ranges: Seq<Range<u64>>,
    block_size: int,
    i: int,
    offset: int,
    index: int,
)
    requires
        block_size > 0,
    ensures
        0 <= i < ranges.len() && ranges[i].start <= offset < ranges[i].end ==> touched(
            ranges,
            block_size,
            offset / block_size,
        ),
        touched(ranges, block_size, index) ==> exists|k: int, byte: int|
            #![trigger ranges[k], byte / block_size]
            0 <= k < ranges.len() && ranges[k].start <= byte < ranges[k].end && byte / block_size
                == index,
{
    if 0 <= i < ranges.len() && ranges[i].start <= offset < ranges[i].end {
        vstd::arithmetic::div_mod::lemma_div_is_ordered(
            ranges[i].start as int,
            offset,
            block_size,
        );
        vstd::arithmetic::div_mod::lemma_div_is_ordered(offset, ranges[i].end - 1, block_size);
        assert(touches(ranges[i], block_size, offset / block_size));
    }
    if touched(ranges, block_size, index) {
        let k = choose|k: int|
            0 <= k < ranges.len() && #[trigger] touches(ranges[k], block_size, index);
        lemma_touched_block(ranges[k], block_size, index);
        let byte = if ranges[k].start <= index * block_size {
            index * block_size
        } else {
            ranges[k].start as int
        };
        assert((index + 1) * block_size == index * block_size + block_size) by (nonlinear_arith);
        lemma_in_block(byte, block_size, index);
        assert(ranges[k].start <= byte < ranges[k].end && byte / block_size == index);
    }
}

/// The runs to fetch hold just the bytes of the object that lie in blocks that the
/// read touches and does not know. They start at block boundaries, ascend, and no two
/// of them adjoin.
pub proof fn law_runs_hold_the_missing_bytes(
    runs: Seq<Range<u64>>,
    block_size: int,
    object_size: int,
    blocks: Map<u64, Option<Seq<u8>>>,
    i: int,
    j: int,
    offset: int,
)
    requires
        block_size > 0,
        object_size <= u64::MAX,
        is_miss_runs(runs, block_size, object_size, blocks),
    ensures
        0 <= i < runs.len() ==> runs[i].start < runs[i].end <= object_size && runs[i].start as int
            % block_size == 0,
        0 <= i < j < runs.len() ==> runs[i].end < runs[j].start,
        0 <= offset < object_size ==> ({
            let at = (offset / block_size) as u64;
            (exists|k: int| 0 <= k < runs.len() && (#[trigger] runs[k]).start <= offset < runs[k].end)
                <==> blocks.contains_key(at) && blocks[at] is None
        }),
{
    if 0 <= offset < object_size {
        vstd::arithmetic::div_mod::lemma_div_pos_is_pos(offset, block_size);
        vstd::arithmetic::div_mod::lemma_div_is_ordered_by_denominator(offset, 1, block_size);
        vstd::arithmetic::div_mod::lemma_div_basics(offset);
        assert(in_runs(runs, offset) <==> is_missing(blocks, offset / block_size));
    }
}

/// A buffer cannot be reserved just for a range over several blocks whose length
/// memory can address but no allocation can have.
pub proof fn law_only_oversized_ranges_cannot_be_reserved(range: Range<u64>, block_size: int)
    ensures
        !reservable(range, block_size) <==> range.start as int / block_size != (range.end - 1)
            / block_size && isize::MAX < range.end - range.start <= usize::MAX,
{
}

/// A failed read says what failed, with the block or the range where there is one.
pub proof fn law_read_failure_says_what_failed(error: DataCacheError, location: Seq<char>)
    ensures
        match error {
            DataCacheError::MissingBlock { block } => error.text(location) == "missing block "@
                + text::decimal(block as nat) + " for "@ + location,
            DataCacheError::ShortBlock { block, start, end, len } => error.text(location)
                == "short data-cache block "@ + text::decimal(block as nat) + " for "@ + location
                + ": need "@ + text::decimal(start as nat) + ".."@ + text::decimal(end as nat)
                + ", got "@ + text::decimal(len as nat) + " bytes"@,
            DataCacheError::SliceStartTooLarge => error.text(location)
                == "data-cache slice start exceeds usize::MAX"@,
            DataCacheError::SliceEndTooLarge => error.text(location)
                == "data-cache slice end exceeds usize::MAX"@,
            DataCacheError::RangeTooLarge { range_start, range_end } => error.text(location)
                == "range "@ + text::decimal(range_start as nat) + ".."@ + text::decimal(
                range_end as nat,
            ) + " for "@ + location + " exceeds usize::MAX"@,
            DataCacheError::BlockEndOverflow => error.text(location)
                == "data-cache block end overflow"@,
            DataCacheError::MissingGetResult => error.text(location) == "missing get result for "@
                + location,
        },
{
}

} // verus!
