//! The disk cache that data blocks and serialized index entries share.

use vstd::prelude::*;
use vstd::string::StringExecFns;

use crate::error;
use crate::error::LanceError;
use crate::helpers::{require_c_string, CStringArg};
use crate::session;
use crate::session::u64_to_usize;
use crate::text;

verus! {

/// The granularity of the disk cache.
pub const PAGE_SIZE: usize = 4096;

/// The size of a data block that one cache entry holds.
pub const DEFAULT_READ_BLOCK_SIZE: usize = 1048576;

/// The size of a block of the storage device.
pub const DEFAULT_STORAGE_BLOCK_SIZE: usize = 16777216;

/// One disk path and total capacity shared by data blocks and index entries.
pub struct LanceFoyerCacheOptions {
    /// The directory.
    pub directory: CStringArg,
    /// The capacity.
    pub disk_capacity_bytes: u64,
}

/// Why a disk cache of this shape cannot be used: a storage block must hold a
/// page for its own index and more, and the device needs four of them.
pub open spec fn geometry_failure(
    disk_capacity: usize,
    storage_block_size: usize,
) -> Option<error::Report> {
    if storage_block_size <= PAGE_SIZE || storage_block_size % PAGE_SIZE != 0 {
        Some(
            error::invalid(
                "storage_block_size_bytes="@ + text::decimal(storage_block_size as nat)
                    + " must be a multiple of "@ + text::decimal(PAGE_SIZE as nat)
                    + " and greater than "@ + text::decimal(PAGE_SIZE as nat),
            ),
        )
    } else if storage_block_size * 4 > usize::MAX {
        Some(
            error::invalid(
                "storage_block_size_bytes="@ + text::decimal(storage_block_size as nat)
                    + " is too large"@,
            ),
        )
    } else if disk_capacity < storage_block_size * 4 || disk_capacity % PAGE_SIZE != 0 {
        Some(
            error::invalid(
                "disk_capacity_bytes="@ + text::decimal(disk_capacity as nat)
                    + " must be a multiple of "@ + text::decimal(PAGE_SIZE as nat)
                    + " and at least "@ + text::decimal((storage_block_size * 4) as nat)
                    + " (four storage blocks of "@ + text::decimal(storage_block_size as nat)
                    + " bytes)"@,
            ),
        )
    } else {
        None
    }
}

/// Checks the shape of a disk cache.
pub fn validate_disk_cache_sizes(disk_capacity: usize, storage_block_size: usize) -> (result:
    Result<(), LanceError>)
    ensures
        error::failure(result) == geometry_failure(disk_capacity, storage_block_size),
{
    if storage_block_size <= PAGE_SIZE || storage_block_size % PAGE_SIZE != 0 {
        let mut message: String = "storage_block_size_bytes=".to_owned();
        text::push_decimal(&mut message, storage_block_size as u64);
        message.append(" must be a multiple of ");
        text::push_decimal(&mut message, PAGE_SIZE as u64);
        message.append(" and greater than ");
        text::push_decimal(&mut message, PAGE_SIZE as u64);
        return Err(LanceError::invalid_text(message));
    }
    let minimum_capacity: usize = match storage_block_size.checked_mul(4) {
        Some(minimum) => minimum,
        None => {
            let mut message: String = "storage_block_size_bytes=".to_owned();
            text::push_decimal(&mut message, storage_block_size as u64);
            message.append(" is too large");
            return Err(LanceError::invalid_text(message));
        },
    };
    if disk_capacity < minimum_capacity || disk_capacity % PAGE_SIZE != 0 {
        let mut message: String = "disk_capacity_bytes=".to_owned();
        text::push_decimal(&mut message, disk_capacity as u64);
        message.append(" must be a multiple of ");
        text::push_decimal(&mut message, PAGE_SIZE as u64);
        message.append(" and at least ");
        text::push_decimal(&mut message, minimum_capacity as u64);
        message.append(" (four storage blocks of ");
        text::push_decimal(&mut message, storage_block_size as u64);
        message.append(" bytes)");
        return Err(LanceError::invalid_text(message));
    }
    Ok(())
}

/// A disk cache whose shape is accepted has room for at least four storage
/// blocks, each with more than a page.
pub proof fn law_accepted_geometry_has_four_blocks(disk_capacity: usize, storage_block_size: usize)
    requires
        geometry_failure(disk_capacity, storage_block_size) is None,
    ensures
        storage_block_size > PAGE_SIZE,
        storage_block_size % PAGE_SIZE == 0,
        disk_capacity % PAGE_SIZE == 0,
        disk_capacity / storage_block_size >= 4,
{
    vstd::arithmetic::div_mod::lemma_div_is_ordered(
        storage_block_size * 4,
        disk_capacity as int,
        storage_block_size as int,
    );
    vstd::arithmetic::div_mod::lemma_div_multiples_vanish(4, storage_block_size as int);
    assert(4 * storage_block_size == storage_block_size * 4);
}

/// The line that records the shape of a cache directory.
pub open spec fn layout_line(disk_capacity: nat, storage_block_size: nat) -> Seq<char> {
    "lance-disk-v1 "@ + text::decimal(disk_capacity) + " "@ + text::decimal(storage_block_size)
        + "\n"@
}

/// The line that records the shape of a cache directory.
pub fn expected_layout(disk_capacity: usize, storage_block_size: usize) -> (line: String)
    ensures
        line@ == layout_line(disk_capacity as nat, storage_block_size as nat),
{
    let mut line: String = "lance-disk-v1 ".to_owned();
    text::push_decimal(&mut line, disk_capacity as u64);
    line.append(" ");
    text::push_decimal(&mut line, storage_block_size as u64);
    line.append("\n");
    line
}

/// What the record of a cache directory asks for.
#[derive(Clone, Copy, Debug, PartialEq, Eq, Structural)]
pub enum LayoutStep {
    /// The directory has the requested shape.
    Keep,
    /// The directory has no record: its partitions must be checked, then the
    /// record written.
    Adopt,
    /// The directory has another shape and must not be used.
    Mismatch,
}

/// What the record of a cache directory asks for.
pub open spec fn layout_step(
    layout: Seq<char>,
    disk_capacity: nat,
    storage_block_size: nat,
) -> LayoutStep {
    if layout.len() == 0 {
        LayoutStep::Adopt
    } else if layout == layout_line(disk_capacity, storage_block_size) {
        LayoutStep::Keep
    } else {
        LayoutStep::Mismatch
    }
}

/// Compares the record of a cache directory with the requested shape.
pub fn check_layout(layout: &str, disk_capacity: usize, storage_block_size: usize) -> (step:
    LayoutStep)
    ensures
        step == layout_step(layout@, disk_capacity as nat, storage_block_size as nat),
{
    if layout.is_empty() {
        LayoutStep::Adopt
    } else if text::same_text(
        layout,
        expected_layout(disk_capacity, storage_block_size).as_str(),
    ) {
        LayoutStep::Keep
    } else {
        LayoutStep::Mismatch
    }
}

/// A directory recorded with one shape is refused under every other.
pub proof fn law_layout_change_is_refused(
    capacity_a: nat,
    block_size_a: nat,
    capacity_b: nat,
    block_size_b: nat,
)
    requires
        layout_line(capacity_a, block_size_a) == layout_line(capacity_b, block_size_b),
    ensures
        capacity_a == capacity_b,
        block_size_a == block_size_b,
        layout_line(capacity_a, block_size_a).len() > 0,
{
    let head = "lance-disk-v1 "@;
    reveal_strlit(" ");
    reveal_strlit("\n");
    assert(" "@ =~= seq![' ']);
    text::lemma_decimal_digits(capacity_a);
    text::lemma_decimal_digits(capacity_b);
    let rest_a = text::decimal(block_size_a) + "\n"@;
    let rest_b = text::decimal(block_size_b) + "\n"@;
    let tail_a = text::decimal(capacity_a) + seq![' '] + rest_a;
    let tail_b = text::decimal(capacity_b) + seq![' '] + rest_b;
    assert(layout_line(capacity_a, block_size_a) =~= head + tail_a);
    assert(layout_line(capacity_b, block_size_b) =~= head + tail_b);
    assert((head + tail_a).skip(head.len() as int) =~= tail_a);
    assert((head + tail_b).skip(head.len() as int) =~= tail_b);
    crate::cache_keys::lemma_decimal_has_no(capacity_a, ' ');
    crate::cache_keys::lemma_decimal_has_no(capacity_b, ' ');
    crate::cache_keys::lemma_cut(
        text::decimal(capacity_a),
        rest_a,
        text::decimal(capacity_b),
        rest_b,
        ' ',
    );
    text::lemma_decimal_injective(capacity_a, capacity_b);
    assert(rest_a.drop_last() =~= text::decimal(block_size_a));
    assert(rest_b.drop_last() =~= text::decimal(block_size_b));
    text::lemma_decimal_injective(block_size_a, block_size_b);
}

/// A directory that was recorded is kept under its own shape and refused under
/// every other.
pub proof fn law_recorded_directory_keeps_its_shape(
    disk_capacity: nat,
    storage_block_size: nat,
    other_capacity: nat,
    other_block_size: nat,
)
    ensures
        layout_step(
            layout_line(disk_capacity, storage_block_size),
            other_capacity,
            other_block_size,
        ) == (if disk_capacity == other_capacity && storage_block_size == other_block_size {
            LayoutStep::Keep
        } else {
            LayoutStep::Mismatch
        }),
{
    law_layout_change_is_refused(
        disk_capacity,
        storage_block_size,
        disk_capacity,
        storage_block_size,
    );
    if layout_line(disk_capacity, storage_block_size) == layout_line(
        other_capacity,
        other_block_size,
    ) {
        law_layout_change_is_refused(
            disk_capacity,
            storage_block_size,
            other_capacity,
            other_block_size,
        );
    }
}

/// Whether a file of a cache directory is a partition of its device.
pub open spec fn is_partition(name: Seq<char>) -> bool {
    text::has_prefix(name, "foyer-storage-direct-fs-"@)
}

/// Whether a file of a cache directory is a partition of its device.
pub fn is_partition_file(name: &str) -> (is: bool)
    ensures
        is == is_partition(name@),
{
    text::starts_with(name, "foyer-storage-direct-fs-")
}

/// Why a cache directory without a record cannot be adopted.
#[derive(Clone, Copy, Debug, PartialEq, Eq, Structural)]
pub enum PartitionError {
    /// A partition has another size than a storage block: opening it would
    /// truncate it.
    Size { size: u64, expected: usize },
    /// There are more partitions than the capacity has room for.
    TooMany { partitions: usize, disk_capacity: usize },
}

impl PartitionError {
    /// The text of this error; `quoted` is the path of the partition, or of the
    /// directory that has too many, in quotes.
    pub open spec fn text(self, quoted: Seq<char>) -> Seq<char> {
        match self {
            PartitionError::Size { size, expected } => "cache partition "@ + quoted + " has size "@
                + text::decimal(size as nat) + ", expected "@ + text::decimal(expected as nat)
                + "; use a new cache directory"@,
            PartitionError::TooMany { partitions, disk_capacity } => "cache directory "@ + quoted
                + " has "@ + text::decimal(partitions as nat)
                + " partitions exceeding disk_capacity_bytes="@ + text::decimal(
                disk_capacity as nat,
            ) + "; use a new cache directory"@,
        }
    }

    /// The text of this error; `quoted` is the path of the partition, or of the
    /// directory that has too many, in quotes.
    pub fn message(&self, quoted: &str) -> (message: String)
        ensures
            message@ == self.text(quoted@),
    {
        let mut out: String;
        match self {
            PartitionError::Size { size, expected } => {
                out = "cache partition ".to_owned();
                out.append(quoted);
                out.append(" has size ");
                text::push_decimal(&mut out, *size);
                out.append(", expected ");
                text::push_decimal(&mut out, *expected as u64);
                out.append("; use a new cache directory");
            },
            PartitionError::TooMany { partitions, disk_capacity } => {
                out = "cache directory ".to_owned();
                out.append(quoted);
                out.append(" has ");
                text::push_decimal(&mut out, *partitions as u64);
                out.append(" partitions exceeding disk_capacity_bytes=");
                text::push_decimal(&mut out, *disk_capacity as u64);
                out.append("; use a new cache directory");
            },
        }
        out
    }
}

/// The text for a directory whose record differs from the requested one; all
/// arguments are in quotes.
pub open spec fn mismatch_text(
    directory: Seq<char>,
    layout: Seq<char>,
    expected: Seq<char>,
) -> Seq<char> {
    "cache directory "@ + directory + " has layout "@ + layout + ", requested "@ + expected
        + "; use a new cache directory when changing disk capacity or storage block size"@
}

/// The text for a directory whose record differs from the requested one; all
/// arguments are in quotes.
pub fn layout_mismatch(directory: &str, layout: &str, expected: &str) -> (message: String)
    ensures
        message@ == mismatch_text(directory@, layout@, expected@),
{
    let mut message: String = "cache directory ".to_owned();
    message.append(directory);
    message.append(" has layout ");
    message.append(layout);
    message.append(", requested ");
    message.append(expected);
    message.append(
        "; use a new cache directory when changing disk capacity or storage block size",
    );
    message
}

/// Which part of a disk cache could not be set up.
#[derive(Clone, Copy, Debug, PartialEq, Eq, Structural)]
pub enum CachePart {
    /// The disk cache itself.
    Disk,
    /// The generation of the index cache.
    IndexGeneration,
}

/// What a part that could not be set up reports; `directory` is in quotes.
pub open spec fn setup_failure(part: CachePart, directory: Seq<char>, reason: Seq<char>) -> error::Report {
    error::io(
        (match part {
            CachePart::Disk => "failed to initialize Foyer cache at "@,
            CachePart::IndexGeneration => "failed to initialize index cache generation at "@,
        }) + directory + ": "@ + reason,
    )
}

/// The failure of a part that could not be set up; `directory` is in quotes.
pub fn cache_setup_error(part: CachePart, directory: &str, reason: &str) -> (error: LanceError)
    ensures
        error@ == setup_failure(part, directory@, reason@),
{
    let mut message: String = match part {
        CachePart::Disk => "failed to initialize Foyer cache at ".to_owned(),
        CachePart::IndexGeneration => "failed to initialize index cache generation at ".to_owned(),
    };
    message.append(directory);
    message.append(": ");
    message.append(reason);
    LanceError::io(message)
}

/// Counts the partitions of a cache directory that is to be adopted.
pub struct PartitionScan {
    /// The partitions seen, each as large as a storage block.
    pub partitions: usize,
}

impl PartitionScan {
    /// A scan that has seen nothing.
    pub fn new() -> (scan: PartitionScan)
        ensures
            scan.partitions == 0,
    {
        PartitionScan { partitions: 0 }
    }

    /// Takes the size of one partition.
    pub fn note(&mut self, size: u64, storage_block_size: usize) -> (result: Result<
        (),
        PartitionError,
    >)
        requires
            old(self).partitions < usize::MAX,
        ensures
            match result {
                Ok(_) => size == storage_block_size && final(self).partitions == old(
                    self,
                ).partitions + 1,
                Err(error) => size != storage_block_size && error == (PartitionError::Size {
                    size,
                    expected: storage_block_size,
                }) && *final(self) == *old(self),
            },
    {
        if size != storage_block_size as u64 {
            return Err(PartitionError::Size { size, expected: storage_block_size });
        }
        self.partitions += 1;
        Ok(())
    }

    /// Ends the scan.
    pub fn finish(self, disk_capacity: usize, storage_block_size: usize) -> (result: Result<
        (),
        PartitionError,
    >)
        requires
            storage_block_size > 0,
        ensures
            match result {
                Ok(_) => self.partitions <= disk_capacity / storage_block_size,
                Err(error) => self.partitions > disk_capacity / storage_block_size && error == (
                PartitionError::TooMany { partitions: self.partitions, disk_capacity }),
            },
    {
        if self.partitions > disk_capacity / storage_block_size {
            return Err(
                PartitionError::TooMany { partitions: self.partitions, disk_capacity },
            );
        }
        Ok(())
    }
}

/// A file of a cache directory.
pub struct DirectoryFile {
    /// Its name.
    pub name: String,
    /// Its path, in quotes.
    pub quoted_path: String,
    /// Its size.
    pub size: u64,
}

/// What is known of a locked cache directory.
pub struct DirectoryState {
    /// The directory, in quotes.
    pub quoted_path: String,
    /// Its record; empty where it has none.
    pub layout: String,
    /// Its record, in quotes.
    pub quoted_layout: String,
    /// The requested record, in quotes.
    pub quoted_expected: String,
    /// Its files, in the order of their listing. They count only for a directory
    /// without a record.
    pub files: Vec<DirectoryFile>,
    /// Whether the listing broke off after these files.
    pub listing_failed: bool,
}

/// What becomes of a locked cache directory.
pub enum DirectoryVerdict {
    /// It is used as it is.
    Keep,
    /// It is used once this record was written to it.
    Record(String),
    /// It must not be used, for this reason.
    Refuse(String),
    /// It cannot be used because its files could not be listed.
    ListingFailed,
}

/// The text for the first partition, from `from` on, that has another size than a
/// storage block.
pub open spec fn partition_failure(
    files: Seq<DirectoryFile>,
    storage_block_size: usize,
    from: int,
) -> Option<Seq<char>>
    decreases files.len() - from,
{
    if from < 0 || from >= files.len() {
        None
    } else if is_partition(files[from].name@) && files[from].size != storage_block_size {
        Some(
            (PartitionError::Size { size: files[from].size, expected: storage_block_size }).text(
                files[from].quoted_path@,
            ),
        )
    } else {
        partition_failure(files, storage_block_size, from + 1)
    }
}

/// How many of the first `n` files are partitions.
pub open spec fn partition_count(files: Seq<DirectoryFile>, n: int) -> nat
    decreases n,
{
    if n <= 0 {
        0
    } else {
        partition_count(files, n - 1) + (if is_partition(files[n - 1].name@) {
            1nat
        } else {
            0nat
        })
    }
}

/// Whether a verdict is the one on a directory. A directory without a record is
/// adopted only where that neither truncates a partition nor leaves one outside
/// the capacity.
pub open spec fn is_verdict(
    verdict: DirectoryVerdict,
    state: DirectoryState,
    disk_capacity: usize,
    storage_block_size: usize,
) -> bool {
    let files = state.files@;
    let count = partition_count(files, files.len() as int);
    match layout_step(state.layout@, disk_capacity as nat, storage_block_size as nat) {
        LayoutStep::Keep => verdict is Keep,
        LayoutStep::Mismatch => verdict matches DirectoryVerdict::Refuse(reason) && reason@
            == mismatch_text(
            state.quoted_path@,
            state.quoted_layout@,
            state.quoted_expected@,
        ),
        LayoutStep::Adopt => match partition_failure(files, storage_block_size, 0) {
            Some(text) => verdict matches DirectoryVerdict::Refuse(reason) && reason@ == text,
            None => if state.listing_failed {
                verdict is ListingFailed
            } else if count > disk_capacity as int / storage_block_size as int {
                verdict matches DirectoryVerdict::Refuse(reason) && reason@ == (
                PartitionError::TooMany { partitions: count as usize, disk_capacity }).text(
                    state.quoted_path@,
                )
            } else {
                verdict matches DirectoryVerdict::Record(line) && line@ == layout_line(
                    disk_capacity as nat,
                    storage_block_size as nat,
                )
            },
        },
    }
}

/// Decides on a locked cache directory.
pub fn lock_directory(
    state: &DirectoryState,
    disk_capacity: usize,
    storage_block_size: usize,
) -> (verdict: DirectoryVerdict)
    requires
        storage_block_size > 0,
    ensures
        is_verdict(verdict, *state, disk_capacity, storage_block_size),
{
    match check_layout(state.layout.as_str(), disk_capacity, storage_block_size) {
        LayoutStep::Keep => {
            return DirectoryVerdict::Keep;
        },
        LayoutStep::Mismatch => {
            return DirectoryVerdict::Refuse(
                layout_mismatch(
                    state.quoted_path.as_str(),
                    state.quoted_layout.as_str(),
                    state.quoted_expected.as_str(),
                ),
            );
        },
        LayoutStep::Adopt => {},
    }
    let mut scan: PartitionScan = PartitionScan::new();
    let mut i: usize = 0;
    while i < state.files.len()
        invariant
            i <= state.files@.len(),
            scan.partitions <= i,
            scan.partitions == partition_count(state.files@, i as int),
            partition_failure(state.files@, storage_block_size, 0) == partition_failure(
                state.files@,
                storage_block_size,
                i as int,
            ),
            layout_step(state.layout@, disk_capacity as nat, storage_block_size as nat)
                == LayoutStep::Adopt,
        decreases state.files.len() - i,
    {
        let file: &DirectoryFile = &state.files[i];
        if is_partition_file(file.name.as_str()) {
            if let Err(error) = scan.note(file.size, storage_block_size) {
                return DirectoryVerdict::Refuse(error.message(file.quoted_path.as_str()));
            }
        }
        i += 1;
    }
    if state.listing_failed {
        return DirectoryVerdict::ListingFailed;
    }
    match scan.finish(disk_capacity, storage_block_size) {
        Ok(_) => DirectoryVerdict::Record(expected_layout(disk_capacity, storage_block_size)),
        Err(error) => DirectoryVerdict::Refuse(error.message(state.quoted_path.as_str())),
    }
}

/// Opening a directory that is adopted truncates no partition: each is as large as
/// a storage block, and all of them fit the capacity.
pub proof fn law_adoption_truncates_nothing(
    verdict: DirectoryVerdict,
    state: DirectoryState,
    disk_capacity: usize,
    storage_block_size: usize,
    i: int,
)
    requires
        storage_block_size > 0,
        is_verdict(verdict, state, disk_capacity, storage_block_size),
        verdict is Record,
    ensures
        0 <= i < state.files@.len() && is_partition(state.files@[i].name@) ==> state.files@[i].size
            == storage_block_size,
        partition_count(state.files@, state.files@.len() as int) * storage_block_size
            <= disk_capacity,
{
    if 0 <= i < state.files@.len() {
        lemma_partition_sizes(state.files@, storage_block_size, 0, i);
    }
    let count = partition_count(state.files@, state.files@.len() as int) as int;
    let room = disk_capacity as int / storage_block_size as int;
    vstd::arithmetic::div_mod::lemma_fundamental_div_mod(
        disk_capacity as int,
        storage_block_size as int,
    );
    vstd::arithmetic::div_mod::lemma_mod_bound(disk_capacity as int, storage_block_size as int);
    assert(count * storage_block_size <= storage_block_size * room) by (nonlinear_arith)
        requires
            0 <= count <= room,
            storage_block_size > 0,
    ;
}

proof fn lemma_partition_sizes(
    files: Seq<DirectoryFile>,
    storage_block_size: usize,
    from: int,
    i: int,
)
    requires
        0 <= from <= i < files.len(),
        partition_failure(files, storage_block_size, from) is None,
    ensures
        is_partition(files[i].name@) ==> files[i].size == storage_block_size,
    decreases i - from,
{
    if from < i {
        lemma_partition_sizes(files, storage_block_size, from + 1, i);
    }
}

/// How a session with an optional disk cache is built.
pub enum FoyerSessionPlan {
    /// Without a disk cache.
    InMemory { index_cache_size_bytes: usize, metadata_cache_size_bytes: usize },
    /// With a disk cache that holds data blocks and index entries.
    OnDisk {
        directory: String,
        disk_capacity: usize,
        memory_capacity: usize,
        metadata_cache_size_bytes: usize,
    },
}

/// The first failure among the arguments of a session with a disk cache.
pub open spec fn foyer_session_failure(
    index_cache_size_bytes: u64,
    metadata_cache_size_bytes: u64,
    options: Option<LanceFoyerCacheOptions>,
) -> Option<error::Report> {
    let sizes = session::session_sizes_failure(index_cache_size_bytes, metadata_cache_size_bytes);
    if sizes is Some {
        sizes
    } else {
        match options {
            None => None,
            Some(options) => {
                let capacity = options.disk_capacity_bytes;
                let absent = options.directory.required(
                    "foyer_cache_options.directory must not be NULL"@,
                );
                if absent is Some {
                    absent
                } else if options.directory.text()->0.len() == 0 {
                    Some(error::invalid("foyer_cache_options.directory must not be empty"@))
                } else if session::exceeds_usize(capacity, "disk_capacity_bytes"@) is Some {
                    session::exceeds_usize(capacity, "disk_capacity_bytes"@)
                } else {
                    geometry_failure(capacity as usize, DEFAULT_STORAGE_BLOCK_SIZE)
                }
            },
        }
    }
}

/// Checks the arguments of a session with a disk cache and plans it. NULL
/// options mean no disk cache.
pub fn session_new_with_foyer_cache_inner(
    index_cache_size_bytes: u64,
    metadata_cache_size_bytes: u64,
    options: Option<&LanceFoyerCacheOptions>,
) -> (result: Result<FoyerSessionPlan, LanceError>)
    ensures
        ({
            let failed = foyer_session_failure(
                index_cache_size_bytes,
                metadata_cache_size_bytes,
                match options {
                    Some(options) => Some(*options),
                    None => None,
                },
            );
            match result {
                Err(error) => failed == Some(error@),
                Ok(plan) => failed is None && match (options, plan) {
                    (
                        None,
                        FoyerSessionPlan::InMemory {
                            index_cache_size_bytes: index,
                            metadata_cache_size_bytes: metadata,
                        },
                    ) => index == index_cache_size_bytes && metadata == metadata_cache_size_bytes,
                    (
                        Some(options),
                        FoyerSessionPlan::OnDisk {
                            directory,
                            disk_capacity,
                            memory_capacity,
                            metadata_cache_size_bytes: metadata,
                        },
                    ) => {
                        &&& options.directory.text() == Some(directory@)
                        &&& disk_capacity == options.disk_capacity_bytes
                        &&& memory_capacity == index_cache_size_bytes
                        &&& metadata == metadata_cache_size_bytes
                    },
                    _ => false,
                },
            }
        }),
{
    let memory_capacity: usize = match u64_to_usize(
        index_cache_size_bytes,
        "index_cache_size_bytes",
    ) {
        Ok(size) => size,
        Err(error) => {
            return Err(error);
        },
    };
    let metadata_cache_size_bytes: usize = match u64_to_usize(
        metadata_cache_size_bytes,
        "metadata_cache_size_bytes",
    ) {
        Ok(size) => size,
        Err(error) => {
            return Err(error);
        },
    };
    let options: &LanceFoyerCacheOptions = match options {
        Some(options) => options,
        None => {
            return Ok(
                FoyerSessionPlan::InMemory {
                    index_cache_size_bytes: memory_capacity,
                    metadata_cache_size_bytes,
                },
            );
        },
    };
    let directory: &str = match require_c_string(
        &options.directory,
        "foyer_cache_options.directory must not be NULL",
    ) {
        Ok(directory) => directory,
        Err(error) => {
            return Err(error);
        },
    };
    if directory.is_empty() {
        return Err(LanceError::invalid("foyer_cache_options.directory must not be empty"));
    }
    let disk_capacity: usize = match u64_to_usize(
        options.disk_capacity_bytes,
        "disk_capacity_bytes",
    ) {
        Ok(capacity) => capacity,
        Err(error) => {
            return Err(error);
        },
    };
    match validate_disk_cache_sizes(disk_capacity, DEFAULT_STORAGE_BLOCK_SIZE) {
        Ok(_) => Ok(
            FoyerSessionPlan::OnDisk {
                directory: directory.to_owned(),
                disk_capacity,
                memory_capacity,
                metadata_cache_size_bytes,
            },
        ),
        Err(error) => Err(error),
    }
}

/// A geometry is accepted if and only if a storage block is more than one page and a
/// whole number of pages of 4096 bytes, and the capacity is a whole number of pages and
/// at least four storage blocks.
pub proof fn law_geometry_is_accepted_for_its_sizes(
    disk_capacity: usize,
    storage_block_size: usize,
)
    ensures
        geometry_failure(disk_capacity, storage_block_size) is None <==> {
            &&& storage_block_size > 4096 && storage_block_size as int % 4096 == 0
            &&& disk_capacity as int % 4096 == 0
            &&& 4 * storage_block_size <= disk_capacity
        },
        geometry_failure(disk_capacity, storage_block_size) matches Some(report) ==> report.0
            == error::LanceErrorCode::InvalidArgument,
        storage_block_size <= 4096 || storage_block_size as int % 4096 != 0 ==> geometry_failure(
            disk_capacity,
            storage_block_size,
        ) == Some(
            error::invalid(
                "storage_block_size_bytes="@ + text::decimal(storage_block_size as nat)
                    + " must be a multiple of "@ + text::decimal(4096) + " and greater than "@
                    + text::decimal(4096),
            ),
        ),
        storage_block_size > 4096 && storage_block_size as int % 4096 == 0 && 4
            * storage_block_size > usize::MAX ==> geometry_failure(
            disk_capacity,
            storage_block_size,
        ) == Some(
            error::invalid(
                "storage_block_size_bytes="@ + text::decimal(storage_block_size as nat)
                    + " is too large"@,
            ),
        ),
        storage_block_size > 4096 && storage_block_size as int % 4096 == 0 && 4
            * storage_block_size <= usize::MAX && (disk_capacity < 4 * storage_block_size
            || disk_capacity as int % 4096 != 0) ==> geometry_failure(
            disk_capacity,
            storage_block_size,
        ) == Some(
            error::invalid(
                "disk_capacity_bytes="@ + text::decimal(disk_capacity as nat)
                    + " must be a multiple of "@ + text::decimal(4096) + " and at least "@
                    + text::decimal((4 * storage_block_size) as nat) + " (four storage blocks of "@
                    + text::decimal(storage_block_size as nat) + " bytes)"@,
            ),
        ),
{
}

/// A session with a disk cache is planned if and only if memory can address its sizes,
/// the directory is a text that is not empty, and the capacity is a whole number of
/// pages and at least 64 MiB, four storage blocks of 16 MiB.
pub proof fn law_disk_cache_is_planned_for_its_options(
    index_cache_size_bytes: u64,
    metadata_cache_size_bytes: u64,
    options: LanceFoyerCacheOptions,
)
    ensures
        foyer_session_failure(index_cache_size_bytes, metadata_cache_size_bytes, None) is None
            <==> index_cache_size_bytes <= usize::MAX && metadata_cache_size_bytes <= usize::MAX,
        foyer_session_failure(index_cache_size_bytes, metadata_cache_size_bytes, Some(options))
            is None <==> {
            &&& index_cache_size_bytes <= usize::MAX && metadata_cache_size_bytes <= usize::MAX
            &&& options.directory is Text && options.directory->Text_0@.len() > 0
            &&& options.disk_capacity_bytes <= usize::MAX
            &&& options.disk_capacity_bytes as int % 4096 == 0
            &&& options.disk_capacity_bytes >= 67108864
        },
        index_cache_size_bytes <= usize::MAX && metadata_cache_size_bytes <= usize::MAX
            && options.directory is Null ==> foyer_session_failure(
            index_cache_size_bytes,
            metadata_cache_size_bytes,
            Some(options),
        ) == Some(error::invalid("foyer_cache_options.directory must not be NULL"@)),
        index_cache_size_bytes <= usize::MAX && metadata_cache_size_bytes <= usize::MAX
            && options.directory is Text && options.directory->Text_0@.len() == 0
            ==> foyer_session_failure(
            index_cache_size_bytes,
            metadata_cache_size_bytes,
            Some(options),
        ) == Some(error::invalid("foyer_cache_options.directory must not be empty"@)),
        index_cache_size_bytes <= usize::MAX && metadata_cache_size_bytes <= usize::MAX
            && options.directory is Text && options.directory->Text_0@.len() > 0
            && options.disk_capacity_bytes > usize::MAX ==> foyer_session_failure(
            index_cache_size_bytes,
            metadata_cache_size_bytes,
            Some(options),
        ) == Some(
            error::invalid(
                "disk_capacity_bytes"@ + "="@ + text::decimal(options.disk_capacity_bytes as nat)
                    + " exceeds usize::MAX on this target"@,
            ),
        ),
{
}

/// A directory without a layout is adopted, one with the requested layout kept, and any
/// other refused.
pub proof fn law_layout_decides_the_step(
    layout: Seq<char>,
    disk_capacity: nat,
    storage_block_size: nat,
)
    ensures
        ({
            let step = layout_step(layout, disk_capacity, storage_block_size);
            let line = "lance-disk-v1 "@ + text::decimal(disk_capacity) + " "@ + text::decimal(
                storage_block_size,
            ) + "\n"@;
            &&& step == LayoutStep::Adopt <==> layout.len() == 0
            &&& step == LayoutStep::Keep <==> layout == line
            &&& step == LayoutStep::Mismatch <==> layout.len() > 0 && layout != line
        }),
{
    law_layout_change_is_refused(
        disk_capacity,
        storage_block_size,
        disk_capacity,
        storage_block_size,
    );
}

proof fn lemma_partition_failure(files: Seq<DirectoryFile>, storage_block_size: usize, from: int)
    requires
        0 <= from <= files.len(),
    ensures
        partition_failure(files, storage_block_size, from) is None <==> forall|i: int|
            from <= i < files.len() && text::has_prefix(
                (#[trigger] files[i]).name@,
                "foyer-storage-direct-fs-"@,
            ) ==> files[i].size == storage_block_size,
    decreases files.len() - from,
{
    if from < files.len() {
        lemma_partition_failure(files, storage_block_size, from + 1);
        if partition_failure(files, storage_block_size, from) is None {
            assert forall|i: int|
                from <= i < files.len() && text::has_prefix(
                    (#[trigger] files[i]).name@,
                    "foyer-storage-direct-fs-"@,
                ) implies files[i].size == storage_block_size by {
                if i > from {
                    assert(partition_failure(files, storage_block_size, from + 1) is None);
                }
            }
        }
    }
}

/// The partitions of a directory are the files whose name starts as Foyer names them,
/// counted one by one.
pub proof fn law_partitions_are_counted_by_name(files: Seq<DirectoryFile>, n: int)
    requires
        0 <= n < files.len(),
    ensures
        partition_count(files, 0) == 0,
        is_partition(files[n].name@) <==> text::has_prefix(
            files[n].name@,
            "foyer-storage-direct-fs-"@,
        ),
        text::has_prefix(files[n].name@, "foyer-storage-direct-fs-"@) ==> partition_count(
            files,
            n + 1,
        ) == partition_count(files, n) + 1,
        !text::has_prefix(files[n].name@, "foyer-storage-direct-fs-"@) ==> partition_count(
            files,
            n + 1,
        ) == partition_count(files, n),
{
}

/// A directory with the requested layout is kept and one with another refused, whatever
/// files it has. One without a layout is recorded with the requested one if and only if
/// its listing did not fail, every partition has the size of a storage block, and they
/// all fit in the capacity; a listing that failed counts only behind partitions of the
/// right size.
pub proof fn law_directory_is_judged_by_its_layout_and_files(
    verdict: DirectoryVerdict,
    state: DirectoryState,
    disk_capacity: usize,
    storage_block_size: usize,
)
    requires
        storage_block_size > 0,
        is_verdict(verdict, state, disk_capacity, storage_block_size),
    ensures
        ({
            let line = "lance-disk-v1 "@ + text::decimal(disk_capacity as nat) + " "@
                + text::decimal(storage_block_size as nat) + "\n"@;
            let files = state.files@;
            let sizes_match = forall|i: int|
                0 <= i < files.len() && text::has_prefix(
                    (#[trigger] files[i]).name@,
                    "foyer-storage-direct-fs-"@,
                ) ==> files[i].size == storage_block_size;
            let count = partition_count(files, files.len() as int);
            &&& verdict is Keep <==> state.layout@ == line
            &&& state.layout@.len() > 0 && state.layout@ != line ==> verdict is Refuse
                && verdict->Refuse_0@ == "cache directory "@ + state.quoted_path@
                + " has layout "@ + state.quoted_layout@ + ", requested "@ + state.quoted_expected@
                + "; use a new cache directory when changing disk capacity or storage block size"@
            &&& verdict is ListingFailed <==> state.layout@.len() == 0 && sizes_match
                && state.listing_failed
            &&& verdict is Record <==> state.layout@.len() == 0 && sizes_match
                && !state.listing_failed && count * storage_block_size <= disk_capacity
            &&& verdict is Record ==> verdict->Record_0@ == line
        }),
{
    let files = state.files@;
    let count = partition_count(files, files.len() as int) as int;
    let size = storage_block_size as int;
    let room = disk_capacity as int / size;
    lemma_partition_failure(files, storage_block_size, 0);
    law_layout_decides_the_step(
        state.layout@,
        disk_capacity as nat,
        storage_block_size as nat,
    );
    vstd::arithmetic::div_mod::lemma_fundamental_div_mod(disk_capacity as int, size);
    vstd::arithmetic::div_mod::lemma_mod_bound(disk_capacity as int, size);
    assert(size * room == room * size) by (nonlinear_arith);
    if count <= room {
        assert(count * size <= room * size) by (nonlinear_arith)
            requires
                count <= room,
                size > 0,
        ;
    } else {
        assert((room + 1) * size <= count * size) by (nonlinear_arith)
            requires
                room + 1 <= count,
                size > 0,
        ;
        assert((room + 1) * size == room * size + size) by (nonlinear_arith);
    }
}

/// A directory without a layout is refused for the first partition of another size, or
/// else for more partitions than fit in the capacity.
pub proof fn law_refused_directory_names_the_partition(
    verdict: DirectoryVerdict,
    state: DirectoryState,
    disk_capacity: usize,
    storage_block_size: usize,
    at: int,
)
    requires
        storage_block_size > 0,
        is_verdict(verdict, state, disk_capacity, storage_block_size),
        state.layout@.len() == 0,
    ensures
        (0 <= at < state.files@.len() && is_partition(state.files@[at].name@)
            && state.files@[at].size != storage_block_size && forall|i: int|
            0 <= i < at && is_partition((#[trigger] state.files@[i]).name@)
                ==> state.files@[i].size == storage_block_size) ==> verdict is Refuse
            && verdict->Refuse_0@ == "cache partition "@ + state.files@[at].quoted_path@
            + " has size "@ + text::decimal(state.files@[at].size as nat) + ", expected "@
            + text::decimal(storage_block_size as nat) + "; use a new cache directory"@,
        (!state.listing_failed && partition_count(state.files@, state.files@.len() as int)
            > disk_capacity as int / storage_block_size as int && partition_count(
            state.files@,
            state.files@.len() as int,
        ) <= usize::MAX && forall|i: int|
            0 <= i < state.files@.len() && is_partition((#[trigger] state.files@[i]).name@)
                ==> state.files@[i].size == storage_block_size) ==> verdict is Refuse
            && verdict->Refuse_0@ == "cache directory "@ + state.quoted_path@ + " has "@
            + text::decimal(partition_count(state.files@, state.files@.len() as int))
            + " partitions exceeding disk_capacity_bytes="@ + text::decimal(disk_capacity as nat)
            + "; use a new cache directory"@,
{
    let files = state.files@;
    if 0 <= at < files.len() && is_partition(files[at].name@) && files[at].size
        != storage_block_size && forall|i: int|
        0 <= i < at && is_partition((#[trigger] files[i]).name@) ==> files[i].size
            == storage_block_size {
        lemma_first_partition(files, storage_block_size, 0, at);
    }
    lemma_partition_failure(files, storage_block_size, 0);
    if forall|i: int|
        0 <= i < files.len() && is_partition((#[trigger] files[i]).name@) ==> files[i].size
            == storage_block_size {
        assert forall|i: int|
            0 <= i < files.len() && text::has_prefix(
                (#[trigger] files[i]).name@,
                "foyer-storage-direct-fs-"@,
            ) implies files[i].size == storage_block_size by {
            assert(is_partition(files[i].name@));
        }
    }
}

proof fn lemma_first_partition(
    files: Seq<DirectoryFile>,
    storage_block_size: usize,
    from: int,
    at: int,
)
    requires
        0 <= from <= at < files.len(),
        is_partition(files[at].name@) && files[at].size != storage_block_size,
        forall|i: int|
            from <= i < at && is_partition((#[trigger] files[i]).name@) ==> files[i].size
                == storage_block_size,
    ensures
        partition_failure(files, storage_block_size, from) == Some(
            (PartitionError::Size { size: files[at].size, expected: storage_block_size }).text(
                files[at].quoted_path@,
            ),
        ),
    decreases at - from,
{
    if from < at {
        lemma_first_partition(files, storage_block_size, from + 1, at);
    }
}

/// A refused directory and a cache that could not be set up say what is wrong, and
/// where.
pub proof fn law_cache_failures_say_what_is_wrong(
    error: PartitionError,
    quoted: Seq<char>,
    layout: Seq<char>,
    expected: Seq<char>,
)
    ensures
        match error {
            PartitionError::Size { size, expected } => error.text(quoted) == "cache partition "@
                + quoted + " has size "@ + text::decimal(size as nat) + ", expected "@
                + text::decimal(expected as nat) + "; use a new cache directory"@,
            PartitionError::TooMany { partitions, disk_capacity } => error.text(quoted)
                == "cache directory "@ + quoted + " has "@ + text::decimal(partitions as nat)
                + " partitions exceeding disk_capacity_bytes="@ + text::decimal(
                disk_capacity as nat,
            ) + "; use a new cache directory"@,
        },
        mismatch_text(quoted, layout, expected) == "cache directory "@ + quoted + " has layout "@
            + layout + ", requested "@ + expected
            + "; use a new cache directory when changing disk capacity or storage block size"@,
        setup_failure(CachePart::Disk, quoted, layout) == error::io(
            "failed to initialize Foyer cache at "@ + quoted + ": "@ + layout,
        ),
        setup_failure(CachePart::IndexGeneration, quoted, layout) == error::io(
            "failed to initialize index cache generation at "@ + quoted + ": "@ + layout,
        ),
{
}

/// A page has 4096 bytes, a block that is read 256 pages, and a storage block sixteen of
/// those blocks, so that the default sizes are accepted with room for four of them.
pub proof fn law_default_sizes_go_together()
    ensures
        PAGE_SIZE == 4096,
        DEFAULT_READ_BLOCK_SIZE == 256 * PAGE_SIZE,
        DEFAULT_STORAGE_BLOCK_SIZE == 16 * DEFAULT_READ_BLOCK_SIZE,
        geometry_failure(
            (4 * DEFAULT_STORAGE_BLOCK_SIZE) as usize,
            DEFAULT_STORAGE_BLOCK_SIZE,
        ) is None,
{
}

} // verus!
