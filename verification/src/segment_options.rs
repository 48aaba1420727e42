//! Options of index segment builders.

use std::collections::HashSet;

use vstd::prelude::*;
use vstd::string::StringExecFns;

use crate::error;
use crate::error::LanceError;
use crate::index::{LanceMetricType, LanceVectorIndexType};
use crate::text;

verus! {

broadcast use vstd::std_specs::hash::group_hash_axioms;

/// Options shared by scalar and vector index segment builders. A model is absent
/// only when both pointers of its pair are NULL.
pub struct LanceIndexSegmentBuildOptions {
    /// The fragments to index; `None` is NULL. Where `fragment_count` is longer
    /// than memory allows, the list is not read and is empty.
    pub fragment_ids: Option<Vec<u32>>,
    pub fragment_count: usize,
    /// The identifier of the segment; `None` is NULL.
    pub index_uuid: Option<[u8; 16]>,
    pub ivf_centroids_is_null: bool,
    pub ivf_centroids_schema_is_null: bool,
    pub pq_codebook_is_null: bool,
    pub pq_codebook_schema_is_null: bool,
    pub mode: i32,
}

impl LanceIndexSegmentBuildOptions {
    /// The list of fragments is as long as the count says, where it was read.
    pub open spec fn wf(&self) -> bool {
        self.fragment_ids matches Some(ids) ==> ids@.len() == if self.fragment_count
            <= max_fragment_count() {
            self.fragment_count as int
        } else {
            0
        }
    }
}

/// The longest list of 32-bit numbers that memory allows.
pub open spec fn max_fragment_count() -> int {
    isize::MAX / 4
}

/// Controls whether a segment builder trains models or uses supplied models.
#[derive(Clone, Copy, Debug, PartialEq, Eq, Structural)]
pub enum LanceIndexSegmentBuildMode {
    Auto,
    LocalTrain,
    Precomputed,
}

/// What a number that names no build mode reports.
pub open spec fn mode_failure(value: i32) -> Option<error::Report> {
    if 0 <= value <= 2 {
        None
    } else {
        Some(
            error::invalid(
                "mode must be 0 (AUTO), 1 (LOCAL_TRAIN), or 2 (PRECOMPUTED); got "@
                    + text::signed_decimal(value as int),
            ),
        )
    }
}

impl LanceIndexSegmentBuildMode {
    /// The number under which C names this mode.
    pub open spec fn raw(self) -> int {
        match self {
            LanceIndexSegmentBuildMode::Auto => 0,
            LanceIndexSegmentBuildMode::LocalTrain => 1,
            LanceIndexSegmentBuildMode::Precomputed => 2,
        }
    }

    /// The name of this mode.
    pub open spec fn name(self) -> Seq<char> {
        match self {
            LanceIndexSegmentBuildMode::Auto => "Auto"@,
            LanceIndexSegmentBuildMode::LocalTrain => "LocalTrain"@,
            LanceIndexSegmentBuildMode::Precomputed => "Precomputed"@,
        }
    }

    /// The name of this mode.
    pub fn to_name(self) -> (name: &'static str)
        ensures
            name@ == self.name(),
    {
        match self {
            LanceIndexSegmentBuildMode::Auto => "Auto",
            LanceIndexSegmentBuildMode::LocalTrain => "LocalTrain",
            LanceIndexSegmentBuildMode::Precomputed => "Precomputed",
        }
    }

    /// The mode that C names by a number.
    pub fn from_c(value: i32) -> (result: Result<LanceIndexSegmentBuildMode, LanceError>)
        ensures
            match result {
                Ok(mode) => mode.raw() == value && mode_failure(value) is None,
                Err(error) => mode_failure(value) == Some(error@),
            },
    {
        if value == 0 {
            Ok(LanceIndexSegmentBuildMode::Auto)
        } else if value == 1 {
            Ok(LanceIndexSegmentBuildMode::LocalTrain)
        } else if value == 2 {
            Ok(LanceIndexSegmentBuildMode::Precomputed)
        } else {
            let mut message: String =
                "mode must be 0 (AUTO), 1 (LOCAL_TRAIN), or 2 (PRECOMPUTED); got ".to_owned();
            text::push_signed(&mut message, value as i64);
            Err(LanceError::invalid_text(message))
        }
    }
}

/// Raw-discriminant vector parameters for the segment-builder ABI.
#[derive(Clone, Copy, Debug, PartialEq, Eq, Structural)]
pub struct LanceVectorIndexSegmentParams {
    pub index_type: i32,
    pub metric: i32,
    pub num_partitions: u32,
    pub num_sub_vectors: u32,
    pub num_bits: u32,
    pub max_iterations: u32,
    pub hnsw_m: u32,
    pub hnsw_ef_construction: u32,
    pub sample_rate: u32,
}

/// Vector parameters with checked kinds.
#[derive(Clone, Copy, Debug, PartialEq, Eq, Structural)]
pub struct LanceVectorIndexParams {
    pub index_type: LanceVectorIndexType,
    pub metric: LanceMetricType,
    pub num_partitions: u32,
    pub num_sub_vectors: u32,
    pub num_bits: u32,
    pub max_iterations: u32,
    pub hnsw_m: u32,
    pub hnsw_ef_construction: u32,
    pub sample_rate: u32,
}

/// What parameters with an unknown index type or metric report.
pub open spec fn params_failure(params: LanceVectorIndexSegmentParams) -> Option<error::Report> {
    if !(101 <= params.index_type <= 106) {
        Some(
            error::invalid(
                "invalid vector index type: "@ + text::signed_decimal(params.index_type as int),
            ),
        )
    } else if !(0 <= params.metric <= 3) {
        Some(error::invalid("invalid metric: "@ + text::signed_decimal(params.metric as int)))
    } else {
        None
    }
}

/// Whether checked parameters are those that were given.
pub open spec fn parses_to(
    params: LanceVectorIndexSegmentParams,
    parsed: LanceVectorIndexParams,
) -> bool {
    &&& parsed.index_type.raw() == params.index_type
    &&& parsed.metric.raw() == params.metric
    &&& parsed.num_partitions == params.num_partitions
    &&& parsed.num_sub_vectors == params.num_sub_vectors
    &&& parsed.num_bits == params.num_bits
    &&& parsed.max_iterations == params.max_iterations
    &&& parsed.hnsw_m == params.hnsw_m
    &&& parsed.hnsw_ef_construction == params.hnsw_ef_construction
    &&& parsed.sample_rate == params.sample_rate
}

impl LanceVectorIndexSegmentParams {
    /// Checks the index type, then the metric.
    pub fn parse(self) -> (result: Result<LanceVectorIndexParams, LanceError>)
        ensures
            match result {
                Ok(parsed) => params_failure(self) is None && parses_to(self, parsed),
                Err(error) => params_failure(self) == Some(error@),
            },
    {
        let index_type: LanceVectorIndexType = match LanceVectorIndexType::from_c(
            self.index_type,
        ) {
            Some(kind) => kind,
            None => {
                let mut message: String = "invalid vector index type: ".to_owned();
                text::push_signed(&mut message, self.index_type as i64);
                return Err(LanceError::invalid_text(message));
            },
        };
        let metric: LanceMetricType = match LanceMetricType::from_raw(self.metric) {
            Some(metric) => metric,
            None => {
                let mut message: String = "invalid metric: ".to_owned();
                text::push_signed(&mut message, self.metric as i64);
                return Err(LanceError::invalid_text(message));
            },
        };
        Ok(
            LanceVectorIndexParams {
                index_type,
                metric,
                num_partitions: self.num_partitions,
                num_sub_vectors: self.num_sub_vectors,
                num_bits: self.num_bits,
                max_iterations: self.max_iterations,
                hnsw_m: self.hnsw_m,
                hnsw_ef_construction: self.hnsw_ef_construction,
                sample_rate: self.sample_rate,
            },
        )
    }
}

/// Checked build options.
pub struct ParsedBuildOptions {
    /// The fragments to index; `None` for all.
    pub fragment_ids: Option<Vec<u32>>,
    pub index_uuid: Option<[u8; 16]>,
    pub mode: LanceIndexSegmentBuildMode,
}

/// The first position, from `from` on, whose number stands before it too.
pub open spec fn first_duplicate(ids: Seq<u32>, from: int) -> int
    decreases ids.len() - from,
{
    if from >= ids.len() || from < 0 {
        ids.len() as int
    } else if ids.take(from).contains(ids[from]) {
        from
    } else {
        first_duplicate(ids, from + 1)
    }
}

/// The first position, from `from` on, whose fragment the dataset does not have.
pub open spec fn first_missing(ids: Seq<u32>, fragments: Seq<u64>, from: int) -> int
    decreases ids.len() - from,
{
    if from >= ids.len() || from < 0 {
        ids.len() as int
    } else if !fragments.contains(ids[from] as u64) {
        from
    } else {
        first_missing(ids, fragments, from + 1)
    }
}

/// What the selection of fragments reports.
pub open spec fn fragments_failure(
    ids: Option<Seq<u32>>,
    count: usize,
    fragments: Seq<u64>,
    dataset_version: u64,
) -> Option<error::Report> {
    match ids {
        None => if count == 0 {
            None
        } else {
            Some(
                error::invalid(
                    "fragment_ids is NULL but fragment_count is "@ + text::decimal(count as nat),
                ),
            )
        },
        Some(ids) => if count == 0 {
            Some(error::invalid("fragment_ids is non-NULL but fragment_count is 0"@))
        } else if count > max_fragment_count() {
            Some(
                error::invalid(
                    "fragment_count "@ + text::decimal(count as nat)
                        + " exceeds the maximum addressable u32 slice length"@,
                ),
            )
        } else {
            let duplicate = first_duplicate(ids, 0);
            let missing = first_missing(ids, fragments, 0);
            if duplicate < ids.len() {
                Some(
                    error::invalid(
                        "fragment_ids["@ + text::decimal(duplicate as nat)
                            + "] is duplicate fragment id "@ + text::decimal(
                            ids[duplicate] as nat,
                        ),
                    ),
                )
            } else if missing < ids.len() {
                Some(
                    error::invalid(
                        "fragment_ids["@ + text::decimal(missing as nat) + "]="@ + text::decimal(
                            ids[missing] as nat,
                        ) + " does not exist in dataset version "@ + text::decimal(
                            dataset_version as nat,
                        ),
                    ),
                )
            } else {
                None
            }
        },
    }
}

/// An optional list as a sequence.
pub open spec fn ids_of(ids: Option<Vec<u32>>) -> Option<Seq<u32>> {
    match ids {
        Some(ids) => Some(ids@),
        None => None,
    }
}

/// The first failure among build options.
pub open spec fn options_failure(
    options: LanceIndexSegmentBuildOptions,
    fragments: Seq<u64>,
    dataset_version: u64,
    scalar: bool,
) -> Option<error::Report> {
    let selection = fragments_failure(
        ids_of(options.fragment_ids),
        options.fragment_count,
        fragments,
        dataset_version,
    );
    if selection is Some {
        selection
    } else if options.ivf_centroids_is_null != options.ivf_centroids_schema_is_null {
        Some(
            error::invalid(
                "ivf_centroids and ivf_centroids_schema must both be NULL or both be non-NULL"@,
            ),
        )
    } else if options.pq_codebook_is_null != options.pq_codebook_schema_is_null {
        Some(
            error::invalid(
                "pq_codebook and pq_codebook_schema must both be NULL or both be non-NULL"@,
            ),
        )
    } else if scalar && (!options.ivf_centroids_is_null || !options.pq_codebook_is_null) {
        Some(
            error::invalid(
                "ivf_centroids and pq_codebook are not valid for a scalar index segment"@,
            ),
        )
    } else if mode_failure(options.mode) is Some {
        mode_failure(options.mode)
    } else if scalar && options.mode == 2 {
        Some(error::invalid("mode PRECOMPUTED is not valid for a scalar index segment"@))
    } else {
        None
    }
}

fn find_duplicate(ids: &Vec<u32>) -> (position: usize)
    ensures
        position == first_duplicate(ids@, 0),
        position <= ids@.len(),
{
    let mut unique: HashSet<u32> = HashSet::new();
    let mut i: usize = 0;
    while i < ids.len()
        invariant
            i <= ids@.len(),
            first_duplicate(ids@, 0) == first_duplicate(ids@, i as int),
            forall|id: u32| #[trigger] unique@.contains(id) <==> ids@.take(i as int).contains(id),
        decreases ids.len() - i,
    {
        let id: u32 = ids[i];
        if unique.contains(&id) {
            return i;
        }
        unique.insert(id);
        proof {
            let earlier = ids@.take(i as int);
            let upto = ids@.take(i + 1);
            assert(upto =~= earlier.push(id));
            assert forall|x: u32| #[trigger] unique@.contains(x) <==> upto.contains(x) by {
                if earlier.contains(x) {
                    let k = choose|k: int| 0 <= k < earlier.len() && earlier[k] == x;
                    assert(upto[k] == x);
                }
                if x == id {
                    assert(upto[i as int] == x);
                }
                if upto.contains(x) && x != id {
                    let k = choose|k: int| 0 <= k < upto.len() && upto[k] == x;
                    assert(earlier[k] == x);
                }
            }
        }
        i += 1;
    }
    i
}

/// The numbers of a list, for lookups.
pub fn id_set(fragments: &Vec<u64>) -> (existing: HashSet<u64>)
    ensures
        forall|id: u64| #[trigger] existing@.contains(id) <==> fragments@.contains(id),
{
    let mut existing: HashSet<u64> = HashSet::new();
    let mut i: usize = 0;
    while i < fragments.len()
        invariant
            i <= fragments@.len(),
            forall|id: u64| #[trigger]
                existing@.contains(id) <==> fragments@.take(i as int).contains(id),
        decreases fragments.len() - i,
    {
        let id: u64 = fragments[i];
        existing.insert(id);
        proof {
            let earlier = fragments@.take(i as int);
            let upto = fragments@.take(i + 1);
            assert(upto =~= earlier.push(id));
            assert forall|x: u64| #[trigger] existing@.contains(x) <==> upto.contains(x) by {
                if earlier.contains(x) {
                    let k = choose|k: int| 0 <= k < earlier.len() && earlier[k] == x;
                    assert(upto[k] == x);
                }
                if x == id {
                    assert(upto[i as int] == x);
                }
                if upto.contains(x) && x != id {
                    let k = choose|k: int| 0 <= k < upto.len() && upto[k] == x;
                    assert(earlier[k] == x);
                }
            }
        }
        i += 1;
    }
    assert(fragments@.take(i as int) =~= fragments@);
    existing
}

fn find_missing(ids: &Vec<u32>, fragments: &Vec<u64>) -> (position: usize)
    ensures
        position == first_missing(ids@, fragments@, 0),
        position <= ids@.len(),
{
    let existing: HashSet<u64> = id_set(fragments);
    let mut i: usize = 0;
    while i < ids.len()
        invariant
            i <= ids@.len(),
            first_missing(ids@, fragments@, 0) == first_missing(ids@, fragments@, i as int),
            forall|id: u64| #[trigger] existing@.contains(id) <==> fragments@.contains(id),
        decreases ids.len() - i,
    {
        if !existing.contains(&(ids[i] as u64)) {
            return i;
        }
        i += 1;
    }
    i
}

fn check_fragments(
    ids: &Option<Vec<u32>>,
    count: usize,
    fragments: &Vec<u64>,
    dataset_version: u64,
) -> (result: Result<(), LanceError>)
    ensures
        error::failure(result) == fragments_failure(
            ids_of(*ids),
            count,
            fragments@,
            dataset_version,
        ),
{
    match ids {
        None => {
            if count == 0 {
                return Ok(());
            }
            let mut message: String = "fragment_ids is NULL but fragment_count is ".to_owned();
            text::push_decimal(&mut message, count as u64);
            Err(LanceError::invalid_text(message))
        },
        Some(ids) => {
            if count == 0 {
                return Err(
                    LanceError::invalid("fragment_ids is non-NULL but fragment_count is 0"),
                );
            }
            if count > isize::MAX as usize / 4 {
                let mut message: String = "fragment_count ".to_owned();
                text::push_decimal(&mut message, count as u64);
                message.append(" exceeds the maximum addressable u32 slice length");
                return Err(LanceError::invalid_text(message));
            }
            let duplicate: usize = find_duplicate(ids);
            if duplicate < ids.len() {
                let mut message: String = "fragment_ids[".to_owned();
                text::push_decimal(&mut message, duplicate as u64);
                message.append("] is duplicate fragment id ");
                text::push_decimal(&mut message, ids[duplicate] as u64);
                return Err(LanceError::invalid_text(message));
            }
            let missing: usize = find_missing(ids, fragments);
            if missing < ids.len() {
                let mut message: String = "fragment_ids[".to_owned();
                text::push_decimal(&mut message, missing as u64);
                message.append("]=");
                text::push_decimal(&mut message, ids[missing] as u64);
                message.append(" does not exist in dataset version ");
                text::push_decimal(&mut message, dataset_version);
                return Err(LanceError::invalid_text(message));
            }
            Ok(())
        },
    }
}

/// What accepted options come to: no options mean all fragments, no identifier
/// and the automatic mode.
pub open spec fn options_accepted(
    options: Option<LanceIndexSegmentBuildOptions>,
    parsed: ParsedBuildOptions,
) -> bool {
    match options {
        None => {
            &&& parsed.fragment_ids is None
            &&& parsed.index_uuid is None
            &&& parsed.mode == LanceIndexSegmentBuildMode::Auto
        },
        Some(options) => {
            &&& ids_of(parsed.fragment_ids) == ids_of(options.fragment_ids)
            &&& parsed.index_uuid == options.index_uuid
            &&& parsed.mode.raw() == options.mode
        },
    }
}

/// Checks build options against the fragments of a dataset version. `scalar`
/// says that the segment is of a scalar index.
pub fn parse_options(
    options: Option<&LanceIndexSegmentBuildOptions>,
    fragments: &Vec<u64>,
    dataset_version: u64,
    scalar: bool,
) -> (result: Result<ParsedBuildOptions, LanceError>)
    requires
        options matches Some(options) ==> options.wf(),
    ensures
        match result {
            Ok(parsed) => {
                &&& parsed.fragment_ids matches Some(ids) ==> ids@.len()
                    == options->0.fragment_count
                &&& options matches Some(options) ==> options_failure(
                    *options,
                    fragments@,
                    dataset_version,
                    scalar,
                ) is None
                &&& options_accepted(
                    match options {
                        Some(options) => Some(*options),
                        None => None,
                    },
                    parsed,
                )
            },
            Err(error) => options matches Some(options) && options_failure(
                *options,
                fragments@,
                dataset_version,
                scalar,
            ) == Some(error@),
        },
{
    let options: &LanceIndexSegmentBuildOptions = match options {
        Some(options) => options,
        None => {
            return Ok(
                ParsedBuildOptions {
                    fragment_ids: None,
                    index_uuid: None,
                    mode: LanceIndexSegmentBuildMode::Auto,
                },
            );
        },
    };
    if let Err(error) = check_fragments(
        &options.fragment_ids,
        options.fragment_count,
        fragments,
        dataset_version,
    ) {
        return Err(error);
    }
    if options.ivf_centroids_is_null != options.ivf_centroids_schema_is_null {
        return Err(
            LanceError::invalid(
                "ivf_centroids and ivf_centroids_schema must both be NULL or both be non-NULL",
            ),
        );
    }
    if options.pq_codebook_is_null != options.pq_codebook_schema_is_null {
        return Err(
            LanceError::invalid(
                "pq_codebook and pq_codebook_schema must both be NULL or both be non-NULL",
            ),
        );
    }
    if scalar && (!options.ivf_centroids_is_null || !options.pq_codebook_is_null) {
        return Err(
            LanceError::invalid(
                "ivf_centroids and pq_codebook are not valid for a scalar index segment",
            ),
        );
    }
    let mode: LanceIndexSegmentBuildMode = match LanceIndexSegmentBuildMode::from_c(options.mode) {
        Ok(mode) => mode,
        Err(error) => {
            return Err(error);
        },
    };
    if scalar && mode == LanceIndexSegmentBuildMode::Precomputed {
        return Err(
            LanceError::invalid("mode PRECOMPUTED is not valid for a scalar index segment"),
        );
    }
    let fragment_ids: Option<Vec<u32>> = match &options.fragment_ids {
        Some(ids) => {
            let copy: Vec<u32> = ids.clone();
            assert(copy@ =~= ids@);
            Some(copy)
        },
        None => None,
    };
    Ok(ParsedBuildOptions { fragment_ids, index_uuid: options.index_uuid, mode })
}

/// Accepted fragments are all different and all in the dataset.
pub proof fn law_accepted_fragments_are_a_set_of_the_dataset(
    ids: Seq<u32>,
    count: usize,
    fragments: Seq<u64>,
    dataset_version: u64,
    i: int,
    j: int,
)
    requires
        fragments_failure(Some(ids), count, fragments, dataset_version) is None,
        0 <= i < j < ids.len() || i == j && 0 <= i < ids.len(),
    ensures
        i < j ==> ids[i] != ids[j],
        fragments.contains(ids[i] as u64),
{
    lemma_no_duplicate(ids, 0, j);
    lemma_none_missing(ids, fragments, 0, i);
    if i < j && ids[i] == ids[j] {
        assert(ids.take(j)[i] == ids[j]);
    }
}

proof fn lemma_no_duplicate(ids: Seq<u32>, from: int, at: int)
    requires
        0 <= from <= at < ids.len(),
        first_duplicate(ids, from) >= ids.len(),
    ensures
        !ids.take(at).contains(ids[at]),
    decreases at - from,
{
    if from < at {
        lemma_no_duplicate(ids, from + 1, at);
    }
}

proof fn lemma_none_missing(ids: Seq<u32>, fragments: Seq<u64>, from: int, at: int)
    requires
        0 <= from <= at < ids.len(),
        first_missing(ids, fragments, from) >= ids.len(),
    ensures
        fragments.contains(ids[at] as u64),
    decreases at - from,
{
    if from < at {
        lemma_none_missing(ids, fragments, from + 1, at);
    }
}

/// Each build mode has its own number and name; no other number is a mode.
pub proof fn law_numbers_name_the_modes(mode: LanceIndexSegmentBuildMode, value: i32)
    ensures
        mode == LanceIndexSegmentBuildMode::Auto <==> mode.raw() == 0,
        mode == LanceIndexSegmentBuildMode::LocalTrain <==> mode.raw() == 1,
        mode == LanceIndexSegmentBuildMode::Precomputed <==> mode.raw() == 2,
        mode.name() == match mode {
            LanceIndexSegmentBuildMode::Auto => "Auto"@,
            LanceIndexSegmentBuildMode::LocalTrain => "LocalTrain"@,
            LanceIndexSegmentBuildMode::Precomputed => "Precomputed"@,
        },
        mode_failure(value) is None <==> value == 0 || value == 1 || value == 2,
        value < 0 || value > 2 ==> mode_failure(value) == Some(
            error::invalid(
                "mode must be 0 (AUTO), 1 (LOCAL_TRAIN), or 2 (PRECOMPUTED); got "@
                    + text::signed_decimal(value as int),
            ),
        ),
{
}

/// Vector parameters are accepted if and only if their numbers name a kind of index
/// and a metric; they parse to that kind, that metric and the same numbers.
pub proof fn law_parameters_keep_their_numbers(
    params: LanceVectorIndexSegmentParams,
    parsed: LanceVectorIndexParams,
)
    ensures
        params_failure(params) is None <==> 101 <= params.index_type <= 106 && 0 <= params.metric
            <= 3,
        params.index_type < 101 || params.index_type > 106 ==> params_failure(params) == Some(
            error::invalid(
                "invalid vector index type: "@ + text::signed_decimal(params.index_type as int),
            ),
        ),
        101 <= params.index_type <= 106 && (params.metric < 0 || params.metric > 3)
            ==> params_failure(params) == Some(
            error::invalid("invalid metric: "@ + text::signed_decimal(params.metric as int)),
        ),
        parses_to(params, parsed) <==> {
            &&& params.index_type == match parsed.index_type {
                LanceVectorIndexType::IvfFlat => 101int,
                LanceVectorIndexType::IvfSq => 102,
                LanceVectorIndexType::IvfPq => 103,
                LanceVectorIndexType::IvfHnswSq => 104,
                LanceVectorIndexType::IvfHnswPq => 105,
                LanceVectorIndexType::IvfHnswFlat => 106,
            }
            &&& params.metric == match parsed.metric {
                LanceMetricType::L2 => 0int,
                LanceMetricType::Cosine => 1,
                LanceMetricType::Dot => 2,
                LanceMetricType::Hamming => 3,
            }
            &&& (parsed.num_partitions, parsed.num_sub_vectors, parsed.num_bits) == (
                params.num_partitions,
                params.num_sub_vectors,
                params.num_bits,
            )
            &&& (parsed.max_iterations, parsed.sample_rate) == (
                params.max_iterations,
                params.sample_rate,
            )
            &&& (parsed.hnsw_m, parsed.hnsw_ef_construction) == (
                params.hnsw_m,
                params.hnsw_ef_construction,
            )
        },
{
}

proof fn lemma_first_duplicate(ids: Seq<u32>, from: int)
    requires
        0 <= from <= ids.len(),
    ensures
        from <= first_duplicate(ids, from) <= ids.len(),
        first_duplicate(ids, from) < ids.len() ==> exists|k: int|
            0 <= k < first_duplicate(ids, from) && #[trigger] ids[k] == ids[first_duplicate(
                ids,
                from,
            )],
        forall|at: int, k: int|
            from <= at < first_duplicate(ids, from) && 0 <= k < at ==> ids[k] != ids[at],
    decreases ids.len() - from,
{
    if from < ids.len() {
        let earlier = ids.take(from);
        if earlier.contains(ids[from]) {
            let k = choose|k: int| 0 <= k < earlier.len() && earlier[k] == ids[from];
            assert(ids[k] == ids[from]);
        } else {
            lemma_first_duplicate(ids, from + 1);
            assert forall|k: int| 0 <= k < from implies ids[k] != ids[from] by {
                assert(earlier[k] == ids[k]);
            }
        }
    }
}

proof fn lemma_first_missing(ids: Seq<u32>, fragments: Seq<u64>, from: int)
    requires
        0 <= from <= ids.len(),
    ensures
        from <= first_missing(ids, fragments, from) <= ids.len(),
        first_missing(ids, fragments, from) < ids.len() ==> !fragments.contains(
            ids[first_missing(ids, fragments, from)] as u64,
        ),
        forall|at: int|
            from <= at < first_missing(ids, fragments, from) ==> fragments.contains(
                #[trigger] ids[at] as u64,
            ),
    decreases ids.len() - from,
{
    if from < ids.len() && fragments.contains(ids[from] as u64) {
        lemma_first_missing(ids, fragments, from + 1);
    }
}

/// A selection of fragments is accepted if and only if there is none and its count is
/// zero, or it is not empty, no longer than memory allows, names no fragment twice and
/// only fragments of the dataset.
pub proof fn law_selection_is_accepted_for_its_fragments(
    ids: Seq<u32>,
    count: usize,
    fragments: Seq<u64>,
    dataset_version: u64,
)
    ensures
        fragments_failure(None, count, fragments, dataset_version) is None <==> count == 0,
        fragments_failure(Some(ids), count, fragments, dataset_version) is None <==> {
            &&& 0 < count && 4 * count <= isize::MAX
            &&& forall|i: int, j: int| 0 <= i < j < ids.len() ==> ids[i] != ids[j]
            &&& forall|i: int|
                0 <= i < ids.len() ==> fragments.contains(#[trigger] ids[i] as u64)
        },
{
    lemma_first_duplicate(ids, 0);
    lemma_first_missing(ids, fragments, 0);
    if first_missing(ids, fragments, 0) < ids.len() {
        let at = first_missing(ids, fragments, 0);
        assert(!fragments.contains(ids[at] as u64));
    }
    if first_duplicate(ids, 0) < ids.len() {
        let at = first_duplicate(ids, 0);
        let k = choose|k: int| 0 <= k < at && #[trigger] ids[k] == ids[at];
        assert(ids[k] == ids[at]);
    }
}

/// A rejected selection is reported by the first fragment that is named again, or else
/// by the first that the dataset does not have.
pub proof fn law_rejected_selection_names_the_fragment(
    ids: Seq<u32>,
    count: usize,
    fragments: Seq<u64>,
    dataset_version: u64,
    at: int,
    before: int,
)
    requires
        0 < count && 4 * count <= isize::MAX,
        0 <= at < ids.len(),
    ensures
        (0 <= before < at && ids[before] == ids[at] && forall|i: int, j: int|
            0 <= i < j < at ==> ids[i] != ids[j]) ==> fragments_failure(
            Some(ids),
            count,
            fragments,
            dataset_version,
        ) == Some(
            error::invalid(
                "fragment_ids["@ + text::decimal(at as nat) + "] is duplicate fragment id "@
                    + text::decimal(ids[at] as nat),
            ),
        ),
        ((forall|i: int, j: int| 0 <= i < j < ids.len() ==> ids[i] != ids[j]) && (forall|i: int|
            0 <= i < at ==> fragments.contains(#[trigger] ids[i] as u64)) && !fragments.contains(
            ids[at] as u64,
        )) ==> fragments_failure(Some(ids), count, fragments, dataset_version) == Some(
            error::invalid(
                "fragment_ids["@ + text::decimal(at as nat) + "]="@ + text::decimal(ids[at] as nat)
                    + " does not exist in dataset version "@ + text::decimal(
                    dataset_version as nat,
                ),
            ),
        ),
{
    lemma_first_duplicate(ids, 0);
    lemma_first_missing(ids, fragments, 0);
    let duplicate = first_duplicate(ids, 0);
    let missing = first_missing(ids, fragments, 0);
    if duplicate < ids.len() {
        let k = choose|k: int| 0 <= k < duplicate && #[trigger] ids[k] == ids[duplicate];
        assert(ids[k] == ids[duplicate]);
    }
    if !fragments.contains(ids[at] as u64) && missing < at {
        assert(!fragments.contains(ids[missing] as u64));
    }
}

/// Options are accepted if and only if their selection is, each model comes with its
/// schema, the mode is one, and a scalar index gets no model and is not built from
/// models. Accepted options keep the selection, the identifier and the mode; without
/// options there is no selection, no identifier, and the mode is automatic.
pub proof fn law_options_are_accepted_as_a_whole(
    options: LanceIndexSegmentBuildOptions,
    fragments: Seq<u64>,
    dataset_version: u64,
    scalar: bool,
    parsed: ParsedBuildOptions,
)
    ensures
        options_failure(options, fragments, dataset_version, scalar) is None <==> {
            &&& fragments_failure(
                match options.fragment_ids {
                    Some(ids) => Some(ids@),
                    None => None,
                },
                options.fragment_count,
                fragments,
                dataset_version,
            ) is None
            &&& options.ivf_centroids_is_null == options.ivf_centroids_schema_is_null
            &&& options.pq_codebook_is_null == options.pq_codebook_schema_is_null
            &&& scalar ==> options.ivf_centroids_is_null && options.pq_codebook_is_null
            &&& 0 <= options.mode <= 2
            &&& scalar ==> options.mode < 2
        },
        options_accepted(Some(options), parsed) ==> {
            &&& parsed.fragment_ids is Some <==> options.fragment_ids is Some
            &&& parsed.fragment_ids is Some ==> parsed.fragment_ids->0@ == options.fragment_ids->0@
            &&& parsed.index_uuid == options.index_uuid
            &&& options.mode == match parsed.mode {
                LanceIndexSegmentBuildMode::Auto => 0int,
                LanceIndexSegmentBuildMode::LocalTrain => 1,
                LanceIndexSegmentBuildMode::Precomputed => 2,
            }
        },
        options_accepted(None, parsed) <==> parsed.fragment_ids is None && parsed.index_uuid
            is None && parsed.mode == LanceIndexSegmentBuildMode::Auto,
        options.fragment_ids is None ==> ids_of(options.fragment_ids) is None,
        options.fragment_ids is Some ==> ids_of(options.fragment_ids) == Some(
            options.fragment_ids->0@,
        ),
{
}

/// Options that are rejected say why, after their selection of fragments was accepted.
pub proof fn law_rejected_options_say_why(
    options: LanceIndexSegmentBuildOptions,
    ids: Seq<u32>,
    count: usize,
    fragments: Seq<u64>,
    dataset_version: u64,
    scalar: bool,
)
    ensures
        count > 0 ==> fragments_failure(None, count, fragments, dataset_version) == Some(
            error::invalid(
                "fragment_ids is NULL but fragment_count is "@ + text::decimal(count as nat),
            ),
        ),
        fragments_failure(Some(ids), 0, fragments, dataset_version) == Some(
            error::invalid("fragment_ids is non-NULL but fragment_count is 0"@),
        ),
        4 * count > isize::MAX ==> fragments_failure(Some(ids), count, fragments, dataset_version)
            == Some(
            error::invalid(
                "fragment_count "@ + text::decimal(count as nat)
                    + " exceeds the maximum addressable u32 slice length"@,
            ),
        ),
        options.fragment_ids is None && options.fragment_count == 0 ==> {
            let failed = options_failure(options, fragments, dataset_version, scalar);
            let centroids_match = options.ivf_centroids_is_null
                == options.ivf_centroids_schema_is_null;
            let codebook_matches = options.pq_codebook_is_null
                == options.pq_codebook_schema_is_null;
            let has_model = !options.ivf_centroids_is_null || !options.pq_codebook_is_null;
            &&& !centroids_match ==> failed == Some(
                error::invalid(
                    "ivf_centroids and ivf_centroids_schema must both be NULL or both be non-NULL"@,
                ),
            )
            &&& centroids_match && !codebook_matches ==> failed == Some(
                error::invalid(
                    "pq_codebook and pq_codebook_schema must both be NULL or both be non-NULL"@,
                ),
            )
            &&& centroids_match && codebook_matches && scalar && has_model ==> failed == Some(
                error::invalid(
                    "ivf_centroids and pq_codebook are not valid for a scalar index segment"@,
                ),
            )
            &&& centroids_match && codebook_matches && scalar && !has_model && options.mode == 2
                ==> failed == Some(
                error::invalid("mode PRECOMPUTED is not valid for a scalar index segment"@),
            )
        },
{
}

} // verus!
