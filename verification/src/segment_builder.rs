//! Builders of index segments: which requests they accept, and what a build and a
//! commit hand on.

use std::collections::HashSet;

use vstd::prelude::*;
use vstd::string::StringExecFns;

use crate::error;
use crate::error::{ffi_try, LanceError, LastError};
use crate::helpers;
use crate::helpers::{nonempty_c_string, optional_c_string, CStringArg};
use crate::index::{LanceMetricType, LanceScalarIndexType};
use crate::scan_plan::same_uuid;
use crate::segment_model::ModelProvenance;
use crate::segment_options;
use crate::segment_options::{
    parse_options, LanceIndexSegmentBuildMode, LanceIndexSegmentBuildOptions,
    LanceVectorIndexParams, LanceVectorIndexSegmentParams, ParsedBuildOptions,
};
use crate::text;

verus! {

broadcast use vstd::std_specs::hash::group_hash_axioms;

/// What an index segment builder builds. `M` is a supplied model.
pub enum SegmentKind<M> {
    Scalar { scalar_type: LanceScalarIndexType, params_json: Option<String> },
    Vector { params: LanceVectorIndexParams, centroids: Option<M>, codebook: Option<M> },
}

/// A single-use index segment builder, bound to a snapshot of a dataset. `D` is
/// the snapshot, `M` a supplied model and `P` a progress callback.
pub struct LanceIndexSegmentBuilder<D, M, P> {
    pub dataset: D,
    pub column: String,
    pub index_name: Option<String>,
    pub kind: SegmentKind<M>,
    /// The fragments to index; `None` for all.
    pub fragment_ids: Option<Vec<u32>>,
    pub index_uuid: Option<[u8; 16]>,
    pub progress: Option<P>,
    pub executed: bool,
}

/// A snapshot of a dataset, with what the checks read of it.
pub struct DatasetSnapshot<D> {
    pub dataset: D,
    /// The identifiers of its fragments.
    pub fragments: Vec<u64>,
    pub version: u64,
}

/// What build options that may be absent report.
pub open spec fn chosen_failure<D>(
    options: Option<&LanceIndexSegmentBuildOptions>,
    dataset: DatasetSnapshot<D>,
    scalar: bool,
) -> Option<error::Report> {
    match options {
        None => None,
        Some(options) => segment_options::options_failure(
            *options,
            dataset.fragments@,
            dataset.version,
            scalar,
        ),
    }
}

/// The fragments that build options select.
pub open spec fn chosen_fragments(options: Option<&LanceIndexSegmentBuildOptions>) -> Option<
    Seq<u32>,
> {
    match options {
        None => None,
        Some(options) => segment_options::ids_of(options.fragment_ids),
    }
}

/// The identifier that build options give.
pub open spec fn chosen_uuid(options: Option<&LanceIndexSegmentBuildOptions>) -> Option<[u8; 16]> {
    match options {
        None => None,
        Some(options) => options.index_uuid,
    }
}

/// The mode that build options give.
pub open spec fn chosen_mode(options: Option<&LanceIndexSegmentBuildOptions>) -> int {
    match options {
        None => 0,
        Some(options) => options.mode as int,
    }
}

/// What a number that names no scalar index type reports.
pub open spec fn scalar_type_failure(index_type: i32) -> Option<error::Report> {
    if 1 <= index_type <= 4 {
        None
    } else {
        Some(
            error::invalid(
                "invalid scalar index type: "@ + text::signed_decimal(index_type as int),
            ),
        )
    }
}

/// The first failure of a request for a scalar builder.
pub open spec fn scalar_builder_failure<D>(
    dataset: Option<DatasetSnapshot<D>>,
    column: CStringArg,
    index_name: CStringArg,
    index_type: i32,
    params_json: CStringArg,
    options: Option<&LanceIndexSegmentBuildOptions>,
) -> Option<error::Report> {
    if dataset is None || column is Null {
        Some(error::invalid("dataset and column must not be NULL"@))
    } else if column.nonempty("column must not be NULL or empty"@) is Some {
        column.nonempty("column must not be NULL or empty"@)
    } else if index_name.optional() is Some {
        index_name.optional()
    } else if params_json.optional() is Some {
        params_json.optional()
    } else if scalar_type_failure(index_type) is Some {
        scalar_type_failure(index_type)
    } else {
        chosen_failure(options, dataset->0, true)
    }
}

/// Creates a builder of scalar index segments.
pub fn new_scalar_builder_inner<D, M, P>(
    dataset: Option<DatasetSnapshot<D>>,
    column: &CStringArg,
    index_name: &CStringArg,
    index_type: i32,
    params_json: &CStringArg,
    options: Option<&LanceIndexSegmentBuildOptions>,
) -> (result: Result<LanceIndexSegmentBuilder<D, M, P>, LanceError>)
    requires
        options matches Some(options) ==> options.wf(),
    ensures
        error::failure(result) == scalar_builder_failure(
            dataset,
            *column,
            *index_name,
            index_type,
            *params_json,
            options,
        ),
        result matches Ok(builder) ==> {
            &&& builder.dataset == dataset->0.dataset
            &&& column.text() == Some(builder.column@)
            &&& helpers::text_of(builder.index_name) == index_name.text()
            &&& builder.kind matches SegmentKind::Scalar { scalar_type, params_json: params }
                && scalar_type.raw() == index_type && helpers::text_of(params) == params_json.text()
            &&& segment_options::ids_of(builder.fragment_ids) == chosen_fragments(options)
            &&& builder.index_uuid == chosen_uuid(options)
            &&& builder.progress is None
            &&& !builder.executed
        },
{
    let dataset: DatasetSnapshot<D> = match (dataset, column) {
        (Some(dataset), CStringArg::Malformed) => dataset,
        (Some(dataset), CStringArg::Text(_)) => dataset,
        _ => {
            return Err(LanceError::invalid("dataset and column must not be NULL"));
        },
    };
    let column: String = match nonempty_c_string(column, "column must not be NULL or empty") {
        Ok(column) => column,
        Err(error) => {
            return Err(error);
        },
    };
    let index_name: Option<String> = match optional_c_string(index_name) {
        Ok(name) => name,
        Err(error) => {
            return Err(error);
        },
    };
    let params_json: Option<String> = match optional_c_string(params_json) {
        Ok(params) => params,
        Err(error) => {
            return Err(error);
        },
    };
    let scalar_type: LanceScalarIndexType = match LanceScalarIndexType::from_c(index_type) {
        Some(scalar_type) => scalar_type,
        None => {
            let mut message: String = "invalid scalar index type: ".to_owned();
            text::push_signed(&mut message, index_type as i64);
            return Err(LanceError::invalid_text(message));
        },
    };
    let parsed: ParsedBuildOptions = match parse_options(
        options,
        &dataset.fragments,
        dataset.version,
        true,
    ) {
        Ok(parsed) => parsed,
        Err(error) => {
            return Err(error);
        },
    };
    Ok(
        LanceIndexSegmentBuilder {
            dataset: dataset.dataset,
            column,
            index_name,
            kind: SegmentKind::Scalar { scalar_type, params_json },
            fragment_ids: parsed.fragment_ids,
            index_uuid: parsed.index_uuid,
            progress: None,
            executed: false,
        },
    )
}

/// A request for a vector builder whose plain arguments are accepted and whose
/// models have not been looked at yet.
pub struct VectorDraft<D> {
    pub dataset: DatasetSnapshot<D>,
    pub column: String,
    pub index_name: Option<String>,
    pub params: LanceVectorIndexParams,
    pub fragment_ids: Option<Vec<u32>>,
    pub index_uuid: Option<[u8; 16]>,
    pub mode: LanceIndexSegmentBuildMode,
    /// The options supply centroids, to be imported next.
    pub supplies_centroids: bool,
    /// The options supply a codebook, to be imported after the centroids.
    pub supplies_codebook: bool,
}

/// The first failure among the plain arguments of a request for a vector builder.
pub open spec fn vector_draft_failure<D>(
    dataset: Option<DatasetSnapshot<D>>,
    column: CStringArg,
    index_name: CStringArg,
    params: Option<LanceVectorIndexSegmentParams>,
    options: Option<&LanceIndexSegmentBuildOptions>,
) -> Option<error::Report> {
    if dataset is None || column is Null || params is None {
        Some(error::invalid("dataset, column, and params must not be NULL"@))
    } else if column.nonempty("column must not be NULL or empty"@) is Some {
        column.nonempty("column must not be NULL or empty"@)
    } else if index_name.optional() is Some {
        index_name.optional()
    } else if segment_options::params_failure(params->0) is Some {
        segment_options::params_failure(params->0)
    } else {
        chosen_failure(options, dataset->0, false)
    }
}

/// Checks the plain arguments of a request for a vector builder.
pub fn draft_vector_builder<D>(
    dataset: Option<DatasetSnapshot<D>>,
    column: &CStringArg,
    index_name: &CStringArg,
    params: Option<LanceVectorIndexSegmentParams>,
    options: Option<&LanceIndexSegmentBuildOptions>,
) -> (result: Result<VectorDraft<D>, LanceError>)
    requires
        options matches Some(options) ==> options.wf(),
    ensures
        error::failure(result) == vector_draft_failure(
            dataset,
            *column,
            *index_name,
            params,
            options,
        ),
        result matches Ok(draft) ==> {
            &&& draft.dataset == dataset->0
            &&& column.text() == Some(draft.column@)
            &&& helpers::text_of(draft.index_name) == index_name.text()
            &&& segment_options::parses_to(params->0, draft.params)
            &&& segment_options::ids_of(draft.fragment_ids) == chosen_fragments(options)
            &&& draft.index_uuid == chosen_uuid(options)
            &&& draft.mode.raw() == chosen_mode(options)
            &&& draft.supplies_centroids == (options matches Some(options)
                && !options.ivf_centroids_is_null)
            &&& draft.supplies_codebook == (options matches Some(options)
                && !options.pq_codebook_is_null)
        },
{
    let (dataset, params): (DatasetSnapshot<D>, LanceVectorIndexSegmentParams) = match (
        dataset,
        column,
        params,
    ) {
        (Some(dataset), CStringArg::Malformed, Some(params)) => (dataset, params),
        (Some(dataset), CStringArg::Text(_), Some(params)) => (dataset, params),
        _ => {
            return Err(LanceError::invalid("dataset, column, and params must not be NULL"));
        },
    };
    let column: String = match nonempty_c_string(column, "column must not be NULL or empty") {
        Ok(column) => column,
        Err(error) => {
            return Err(error);
        },
    };
    let index_name: Option<String> = match optional_c_string(index_name) {
        Ok(name) => name,
        Err(error) => {
            return Err(error);
        },
    };
    let params: LanceVectorIndexParams = match params.parse() {
        Ok(params) => params,
        Err(error) => {
            return Err(error);
        },
    };
    let parsed: ParsedBuildOptions = match parse_options(
        options,
        &dataset.fragments,
        dataset.version,
        false,
    ) {
        Ok(parsed) => parsed,
        Err(error) => {
            return Err(error);
        },
    };
    let (supplies_centroids, supplies_codebook): (bool, bool) = match options {
        Some(options) => (!options.ivf_centroids_is_null, !options.pq_codebook_is_null),
        None => (false, false),
    };
    Ok(
        VectorDraft {
            dataset,
            column,
            index_name,
            params,
            fragment_ids: parsed.fragment_ids,
            index_uuid: parsed.index_uuid,
            mode: parsed.mode,
            supplies_centroids,
            supplies_codebook,
        },
    )
}

/// A model that was imported, with what the checks read of it.
pub struct SuppliedModel<M> {
    pub provenance: ModelProvenance,
    /// How many lists it holds.
    pub len: usize,
    /// How long each list is.
    pub value_length: i32,
    /// Its values are 32-bit floating-point numbers.
    pub is_float32: bool,
    /// Its type, for messages.
    pub type_text: String,
    pub model: M,
}

/// How many bits a code has; zero means eight.
pub open spec fn effective_bits(num_bits: u32) -> u32 {
    if num_bits == 0 {
        8
    } else {
        num_bits
    }
}

fn bits_or_default(num_bits: u32) -> (bits: u32)
    ensures
        bits == effective_bits(num_bits),
{
    if num_bits == 0 {
        8
    } else {
        num_bits
    }
}

/// What centroids that were trained for something else report.
pub open spec fn centroid_provenance_failure(
    provenance: ModelProvenance,
    params: LanceVectorIndexParams,
    dim: usize,
) -> Option<error::Report> {
    if provenance.kind@ != "ivf"@ || provenance.metric != params.metric.raw()
        || provenance.dimension != dim {
        Some(
            error::invalid(
                "ivf_centroids provenance must be kind=ivf, metric="@ + text::signed_decimal(
                    params.metric.raw(),
                ) + ", dimension="@ + text::decimal(dim as nat) + "; got kind="@
                    + provenance.kind@ + ", metric="@ + text::signed_decimal(
                    provenance.metric as int,
                ) + ", dimension="@ + text::decimal(provenance.dimension as nat),
            ),
        )
    } else {
        None
    }
}

fn check_centroid_provenance(
    provenance: &ModelProvenance,
    params: &LanceVectorIndexParams,
    dim: usize,
) -> (result: Result<(), LanceError>)
    ensures
        error::failure(result) == centroid_provenance_failure(*provenance, *params, dim),
{
    let metric: i32 = params.metric.to_raw();
    if !text::same_text(provenance.kind.as_str(), "ivf") || provenance.metric != metric
        || provenance.dimension != dim {
        let mut message: String =
            "ivf_centroids provenance must be kind=ivf, metric=".to_owned();
        text::push_signed(&mut message, metric as i64);
        message.append(", dimension=");
        text::push_decimal(&mut message, dim as u64);
        message.append("; got kind=");
        message.append(provenance.kind.as_str());
        message.append(", metric=");
        text::push_signed(&mut message, provenance.metric as i64);
        message.append(", dimension=");
        text::push_decimal(&mut message, provenance.dimension as u64);
        return Err(LanceError::invalid_text(message));
    }
    Ok(())
}

/// What a codebook that was trained for something else, or without the supplied
/// centroids, reports.
pub open spec fn codebook_provenance_failure(
    provenance: ModelProvenance,
    centroids_id: Option<Seq<u8>>,
    params: LanceVectorIndexParams,
    dim: usize,
) -> Option<error::Report> {
    let bits = effective_bits(params.num_bits);
    if provenance.kind@ != "pq"@ || provenance.metric != params.metric.raw()
        || provenance.dimension != dim || provenance.num_sub_vectors != Some(
        params.num_sub_vectors,
    ) || provenance.num_bits != Some(bits) {
        Some(
            error::invalid(
                "pq_codebook provenance does not match metric "@ + text::signed_decimal(
                    params.metric.raw(),
                ) + ", dimension "@ + text::decimal(dim as nat) + ", num_sub_vectors "@
                    + text::decimal(params.num_sub_vectors as nat) + ", num_bits "@
                    + text::decimal(bits as nat),
            ),
        )
    } else if centroids_id != Some(provenance.ivf_id@) {
        Some(error::invalid("pq_codebook was not trained with the supplied ivf_centroids"@))
    } else {
        None
    }
}

fn is_number(number: Option<u32>, expected: u32) -> (same: bool)
    ensures
        same == (number == Some(expected)),
{
    match number {
        Some(number) => number == expected,
        None => false,
    }
}

fn check_codebook_provenance(
    provenance: &ModelProvenance,
    centroids_id: Option<[u8; 16]>,
    params: &LanceVectorIndexParams,
    dim: usize,
) -> (result: Result<(), LanceError>)
    ensures
        error::failure(result) == codebook_provenance_failure(
            *provenance,
            match centroids_id {
                Some(id) => Some(id@),
                None => None,
            },
            *params,
            dim,
        ),
{
    let metric: i32 = params.metric.to_raw();
    let expected_bits: u32 = bits_or_default(params.num_bits);
    if !text::same_text(provenance.kind.as_str(), "pq") || provenance.metric != metric
        || provenance.dimension != dim || !is_number(
        provenance.num_sub_vectors,
        params.num_sub_vectors,
    ) || !is_number(provenance.num_bits, expected_bits) {
        let mut message: String = "pq_codebook provenance does not match metric ".to_owned();
        text::push_signed(&mut message, metric as i64);
        message.append(", dimension ");
        text::push_decimal(&mut message, dim as u64);
        message.append(", num_sub_vectors ");
        text::push_decimal(&mut message, params.num_sub_vectors as u64);
        message.append(", num_bits ");
        text::push_decimal(&mut message, expected_bits as u64);
        return Err(LanceError::invalid_text(message));
    }
    let trained_together: bool = match &centroids_id {
        Some(id) => same_uuid(id, &provenance.ivf_id),
        None => false,
    };
    if !trained_together {
        return Err(
            LanceError::invalid("pq_codebook was not trained with the supplied ivf_centroids"),
        );
    }
    Ok(())
}

/// What centroids of the wrong shape report.
pub open spec fn centroid_shape_failure<M>(
    centroids: SuppliedModel<M>,
    params: LanceVectorIndexParams,
    dim: usize,
) -> Option<error::Report> {
    if centroids.value_length != dim as i32 || !centroids.is_float32 {
        Some(
            error::invalid(
                "ivf_centroids must have type FixedSizeList<Float32>["@ + text::decimal(dim as nat)
                    + "], got "@ + centroids.type_text@,
            ),
        )
    } else if centroids.len != params.num_partitions {
        Some(
            error::invalid(
                "ivf_centroids length "@ + text::decimal(centroids.len as nat)
                    + " does not match num_partitions "@ + text::decimal(
                    params.num_partitions as nat,
                ),
            ),
        )
    } else {
        None
    }
}

fn check_centroid_shape<M>(
    centroids: &SuppliedModel<M>,
    params: &LanceVectorIndexParams,
    dim: usize,
) -> (result: Result<(), LanceError>)
    ensures
        error::failure(result) == centroid_shape_failure(*centroids, *params, dim),
{
    if centroids.value_length != dim as i32 || !centroids.is_float32 {
        let mut message: String =
            "ivf_centroids must have type FixedSizeList<Float32>[".to_owned();
        text::push_decimal(&mut message, dim as u64);
        message.append("], got ");
        message.append(centroids.type_text.as_str());
        return Err(LanceError::invalid_text(message));
    }
    if centroids.len != params.num_partitions as usize {
        let mut message: String = "ivf_centroids length ".to_owned();
        text::push_decimal(&mut message, centroids.len as u64);
        message.append(" does not match num_partitions ");
        text::push_decimal(&mut message, params.num_partitions as u64);
        return Err(LanceError::invalid_text(message));
    }
    Ok(())
}

/// What models that do not go with the index type or the mode report.
pub open spec fn model_use_failure(
    params: LanceVectorIndexParams,
    mode: LanceIndexSegmentBuildMode,
    has_centroids: bool,
    has_codebook: bool,
) -> Option<error::Report> {
    let is_pq = params.index_type.quantizes_products();
    let bits = effective_bits(params.num_bits);
    let has_models = has_centroids || has_codebook;
    if is_pq && bits != 4 && bits != 8 {
        Some(
            error::invalid(
                "num_bits must be 4 or 8 for Lance PQ indexes, got "@ + text::decimal(
                    bits as nat,
                ),
            ),
        )
    } else if !is_pq && has_codebook {
        Some(
            error::invalid(
                "pq_codebook is not valid for vector index type "@ + params.index_type.name(),
            ),
        )
    } else if is_pq && has_centroids != has_codebook {
        Some(
            error::invalid(
                "precomputed PQ segment builds require both ivf_centroids and pq_codebook"@,
            ),
        )
    } else if mode == LanceIndexSegmentBuildMode::LocalTrain && has_models {
        Some(error::invalid("mode LOCAL_TRAIN does not accept precomputed model arrays"@))
    } else if mode == LanceIndexSegmentBuildMode::Precomputed && !has_models {
        Some(error::invalid("mode PRECOMPUTED requires precomputed model arrays"@))
    } else {
        None
    }
}

fn check_model_use(
    params: &LanceVectorIndexParams,
    mode: LanceIndexSegmentBuildMode,
    has_centroids: bool,
    has_codebook: bool,
) -> (result: Result<(), LanceError>)
    ensures
        error::failure(result) == model_use_failure(*params, mode, has_centroids, has_codebook),
{
    let is_pq: bool = params.index_type.is_pq();
    let bits: u32 = bits_or_default(params.num_bits);
    if is_pq && bits != 4 && bits != 8 {
        let mut message: String =
            "num_bits must be 4 or 8 for Lance PQ indexes, got ".to_owned();
        text::push_decimal(&mut message, bits as u64);
        return Err(LanceError::invalid_text(message));
    }
    if !is_pq && has_codebook {
        let mut message: String = "pq_codebook is not valid for vector index type ".to_owned();
        message.append(params.index_type.to_name());
        return Err(LanceError::invalid_text(message));
    }
    if is_pq && has_centroids != has_codebook {
        return Err(
            LanceError::invalid(
                "precomputed PQ segment builds require both ivf_centroids and pq_codebook",
            ),
        );
    }
    let has_models: bool = has_centroids || has_codebook;
    match mode {
        LanceIndexSegmentBuildMode::Auto => Ok(()),
        LanceIndexSegmentBuildMode::LocalTrain => if has_models {
            Err(LanceError::invalid("mode LOCAL_TRAIN does not accept precomputed model arrays"))
        } else {
            Ok(())
        },
        LanceIndexSegmentBuildMode::Precomputed => if has_models {
            Ok(())
        } else {
            Err(LanceError::invalid("mode PRECOMPUTED requires precomputed model arrays"))
        },
    }
}

/// How many codewords a subvector has.
pub open spec fn codewords(bits: u32) -> int {
    if bits == 4 {
        16
    } else {
        256
    }
}

/// What a codebook of the wrong shape reports, of a product-quantized index with
/// codes of four or eight bits.
pub open spec fn codebook_shape_failure<M>(
    codebook: SuppliedModel<M>,
    params: LanceVectorIndexParams,
    dim: usize,
) -> Option<error::Report> {
    let num_sub_vectors = params.num_sub_vectors;
    let per_vector = codewords(effective_bits(params.num_bits));
    let expected_len = num_sub_vectors * per_vector;
    if num_sub_vectors == 0 || dim as int % num_sub_vectors as int != 0 {
        Some(
            error::invalid(
                "dimension "@ + text::decimal(dim as nat) + " must be divisible by num_sub_vectors "@
                    + text::decimal(num_sub_vectors as nat),
            ),
        )
    } else if expected_len > usize::MAX {
        Some(
            error::invalid(
                "num_sub_vectors "@ + text::decimal(num_sub_vectors as nat) + " * codewords "@
                    + text::decimal(per_vector as nat) + " overflows usize"@,
            ),
        )
    } else {
        let list_size = (dim as int / num_sub_vectors as int) as usize;
        if codebook.len != expected_len || codebook.value_length != list_size as i32
            || !codebook.is_float32 {
            Some(
                error::invalid(
                    "pq_codebook must be FixedSizeList<Float32> with length "@ + text::decimal(
                        expected_len as nat,
                    ) + " and list_size "@ + text::decimal(list_size as nat) + ", got length "@
                        + text::decimal(codebook.len as nat) + ", type "@ + codebook.type_text@,
                ),
            )
        } else {
            None
        }
    }
}

fn check_codebook_shape<M>(
    codebook: &SuppliedModel<M>,
    params: &LanceVectorIndexParams,
    dim: usize,
) -> (result: Result<(), LanceError>)
    requires
        effective_bits(params.num_bits) == 4 || effective_bits(params.num_bits) == 8,
    ensures
        error::failure(result) == codebook_shape_failure(*codebook, *params, dim),
{
    let num_sub_vectors: usize = params.num_sub_vectors as usize;
    if num_sub_vectors == 0 || dim % num_sub_vectors != 0 {
        let mut message: String = "dimension ".to_owned();
        text::push_decimal(&mut message, dim as u64);
        message.append(" must be divisible by num_sub_vectors ");
        text::push_decimal(&mut message, num_sub_vectors as u64);
        return Err(LanceError::invalid_text(message));
    }
    let per_vector: usize = if bits_or_default(params.num_bits) == 4 {
        16
    } else {
        256
    };
    let expected_len: usize = match num_sub_vectors.checked_mul(per_vector) {
        Some(len) => len,
        None => {
            let mut message: String = "num_sub_vectors ".to_owned();
            text::push_decimal(&mut message, num_sub_vectors as u64);
            message.append(" * codewords ");
            text::push_decimal(&mut message, per_vector as u64);
            message.append(" overflows usize");
            return Err(LanceError::invalid_text(message));
        },
    };
    let list_size: usize = dim / num_sub_vectors;
    if codebook.len != expected_len || codebook.value_length != list_size as i32
        || !codebook.is_float32 {
        let mut message: String =
            "pq_codebook must be FixedSizeList<Float32> with length ".to_owned();
        text::push_decimal(&mut message, expected_len as u64);
        message.append(" and list_size ");
        text::push_decimal(&mut message, list_size as u64);
        message.append(", got length ");
        text::push_decimal(&mut message, codebook.len as u64);
        message.append(", type ");
        message.append(codebook.type_text.as_str());
        return Err(LanceError::invalid_text(message));
    }
    Ok(())
}

/// The first failure among imported models, given the dimension of the column.
pub open spec fn models_failure<M>(
    params: LanceVectorIndexParams,
    mode: LanceIndexSegmentBuildMode,
    centroids: Option<SuppliedModel<M>>,
    codebook: Option<SuppliedModel<M>>,
    dim: usize,
) -> Option<error::Report> {
    let centroids_id = match centroids {
        Some(centroids) => Some(centroids.provenance.ivf_id@),
        None => None,
    };
    if centroids matches Some(centroids) && centroid_provenance_failure(
        centroids.provenance,
        params,
        dim,
    ) is Some {
        centroid_provenance_failure(centroids->0.provenance, params, dim)
    } else if codebook matches Some(codebook) && codebook_provenance_failure(
        codebook.provenance,
        centroids_id,
        params,
        dim,
    ) is Some {
        codebook_provenance_failure(codebook->0.provenance, centroids_id, params, dim)
    } else if centroids matches Some(centroids) && centroid_shape_failure(
        centroids,
        params,
        dim,
    ) is Some {
        centroid_shape_failure(centroids->0, params, dim)
    } else if model_use_failure(params, mode, centroids is Some, codebook is Some) is Some {
        model_use_failure(params, mode, centroids is Some, codebook is Some)
    } else {
        match codebook {
            Some(codebook) => codebook_shape_failure(codebook, params, dim),
            None => None,
        }
    }
}

/// Checks imported models against the parameters, the mode and the dimension of
/// the column.
pub fn check_models<M>(
    params: &LanceVectorIndexParams,
    mode: LanceIndexSegmentBuildMode,
    centroids: &Option<SuppliedModel<M>>,
    codebook: &Option<SuppliedModel<M>>,
    dim: usize,
) -> (result: Result<(), LanceError>)
    ensures
        error::failure(result) == models_failure(*params, mode, *centroids, *codebook, dim),
{
    let centroids_id: Option<[u8; 16]> = match centroids {
        Some(centroids) => Some(centroids.provenance.ivf_id),
        None => None,
    };
    if let Some(centroids) = centroids {
        if let Err(error) = check_centroid_provenance(&centroids.provenance, params, dim) {
            return Err(error);
        }
    }
    if let Some(codebook) = codebook {
        if let Err(error) = check_codebook_provenance(
            &codebook.provenance,
            centroids_id,
            params,
            dim,
        ) {
            return Err(error);
        }
    }
    if let Some(centroids) = centroids {
        if let Err(error) = check_centroid_shape(centroids, params, dim) {
            return Err(error);
        }
    }
    if let Err(error) = check_model_use(params, mode, centroids.is_some(), codebook.is_some()) {
        return Err(error);
    }
    match codebook {
        Some(codebook) => check_codebook_shape(codebook, params, dim),
        None => Ok(()),
    }
}

/// The fragments of a dataset that a 32-bit number names.
pub open spec fn numbered_fragments(fragments: Seq<u64>) -> Set<u32>
    decreases fragments.len(),
{
    if fragments.len() == 0 {
        Set::empty()
    } else if fragments.last() <= u32::MAX {
        numbered_fragments(fragments.drop_last()).insert(fragments.last() as u32)
    } else {
        numbered_fragments(fragments.drop_last())
    }
}

fn collect_fragments(fragments: &Vec<u64>) -> (set: HashSet<u32>)
    ensures
        set@ == numbered_fragments(fragments@),
{
    let mut set: HashSet<u32> = HashSet::new();
    let mut i: usize = 0;
    assert(fragments@.take(0) =~= Seq::<u64>::empty());
    while i < fragments.len()
        invariant
            i <= fragments@.len(),
            set@ == numbered_fragments(fragments@.take(i as int)),
        decreases fragments.len() - i,
    {
        assert(fragments@.take(i + 1).drop_last() =~= fragments@.take(i as int));
        let fragment: u64 = fragments[i];
        if fragment <= u32::MAX as u64 {
            set.insert(fragment as u32);
        }
        i += 1;
    }
    assert(fragments@.take(i as int) =~= fragments@);
    set
}

fn collect_ids(ids: &Vec<u32>) -> (set: HashSet<u32>)
    ensures
        set@ == ids@.to_set(),
{
    let mut set: HashSet<u32> = HashSet::new();
    let mut i: usize = 0;
    assert(ids@.take(0).to_set() =~= Set::<u32>::empty());
    while i < ids.len()
        invariant
            i <= ids@.len(),
            set@ == ids@.take(i as int).to_set(),
        decreases ids.len() - i,
    {
        set.insert(ids[i]);
        proof {
            let earlier = ids@.take(i as int);
            let upto = ids@.take(i + 1);
            assert(upto =~= earlier.push(ids@[i as int]));
            assert(upto.to_set() =~= earlier.to_set().insert(ids@[i as int])) by {
                assert(upto[i as int] == ids@[i as int]);
                assert forall|x: u32| earlier.contains(x) implies upto.contains(x) by {
                    let k = choose|k: int| 0 <= k < earlier.len() && earlier[k] == x;
                    assert(upto[k] == x);
                }
                assert forall|x: u32| upto.contains(x) && x != ids@[i as int] implies earlier.contains(
                    x,
                ) by {
                    let k = choose|k: int| 0 <= k < upto.len() && upto[k] == x;
                    assert(earlier[k] == x);
                }
            }
        }
        i += 1;
    }
    assert(ids@.take(i as int) =~= ids@);
    set
}

fn same_selection(
    ids: &Vec<u32>,
    selected: &HashSet<u32>,
    fragments: &Vec<u64>,
    all: &HashSet<u32>,
) -> (same: bool)
    requires
        selected@ == ids@.to_set(),
        all@ == numbered_fragments(fragments@),
    ensures
        same == (selected@ == all@),
{
    let mut i: usize = 0;
    while i < ids.len()
        invariant
            i <= ids@.len(),
            selected@ == ids@.to_set(),
            forall|k: int| 0 <= k < i ==> all@.contains(#[trigger] ids@[k]),
        decreases ids.len() - i,
    {
        if !all.contains(&ids[i]) {
            proof {
                assert(ids@.contains(ids@[i as int]));
                assert(selected@.contains(ids@[i as int]));
            }
            return false;
        }
        i += 1;
    }
    let mut j: usize = 0;
    assert(fragments@.take(0) =~= Seq::<u64>::empty());
    while j < fragments.len()
        invariant
            j <= fragments@.len(),
            all@ == numbered_fragments(fragments@),
            numbered_fragments(fragments@.take(j as int)).subset_of(selected@),
        decreases fragments.len() - j,
    {
        assert(fragments@.take(j + 1).drop_last() =~= fragments@.take(j as int));
        let fragment: u64 = fragments[j];
        if fragment <= u32::MAX as u64 {
            if !selected.contains(&(fragment as u32)) {
                proof {
                    lemma_numbered(fragments@, j as int);
                }
                return false;
            }
        }
        j += 1;
    }
    proof {
        assert(fragments@.take(j as int) =~= fragments@);
        assert(selected@ =~= all@);
    }
    true
}

proof fn lemma_numbered(fragments: Seq<u64>, at: int)
    requires
        0 <= at < fragments.len(),
        fragments[at] <= u32::MAX,
    ensures
        numbered_fragments(fragments).contains(fragments[at] as u32),
    decreases fragments.len(),
{
    if at < fragments.len() - 1 {
        lemma_numbered(fragments.drop_last(), at);
    }
}

/// What a codebook for the dot product reports where the segment covers some of
/// the fragments only.
pub open spec fn subset_failure(
    params: LanceVectorIndexParams,
    mode: LanceIndexSegmentBuildMode,
    has_codebook: bool,
    selected: Option<Seq<u32>>,
    fragments: Seq<u64>,
) -> Option<error::Report> {
    if params.index_type.quantizes_products() && params.metric == LanceMetricType::Dot
        && has_codebook && (selected matches Some(ids) && ids.to_set() != numbered_fragments(
        fragments,
    )) {
        Some(
            error::invalid(
                "pq_codebook is supplied for metric=DOT, index_type="@ + params.index_type.name()
                    + ", mode="@ + mode.name() + ", and an effective strict fragment subset ("@
                    + text::decimal(selected->0.to_set().len()) + " of "@ + text::decimal(
                    numbered_fragments(fragments).len(),
                )
                    + " fragments): pinned Lance revision ab6b5bbe reconstructs the supplied codebook with a DOT ProductQuantizer in the distributed build path (make_global_pq), silently breaking the L2 PQ-assignment contract; cover the full dataset in one segment (pass NULL fragment_ids or list every fragment) or wait for upstream Lance DOT support"@,
            ),
        )
    } else {
        None
    }
}

fn check_subset(
    params: &LanceVectorIndexParams,
    mode: LanceIndexSegmentBuildMode,
    has_codebook: bool,
    selected: &Option<Vec<u32>>,
    fragments: &Vec<u64>,
) -> (result: Result<(), LanceError>)
    ensures
        error::failure(result) == subset_failure(
            *params,
            mode,
            has_codebook,
            segment_options::ids_of(*selected),
            fragments@,
        ),
{
    if !params.index_type.is_pq() || params.metric != LanceMetricType::Dot || !has_codebook {
        return Ok(());
    }
    let ids: &Vec<u32> = match selected {
        Some(ids) => ids,
        None => {
            return Ok(());
        },
    };
    let all: HashSet<u32> = collect_fragments(fragments);
    let chosen: HashSet<u32> = collect_ids(ids);
    if !same_selection(ids, &chosen, fragments, &all) {
        let mut message: String =
            "pq_codebook is supplied for metric=DOT, index_type=".to_owned();
        message.append(params.index_type.to_name());
        message.append(", mode=");
        message.append(mode.to_name());
        message.append(", and an effective strict fragment subset (");
        text::push_decimal(&mut message, chosen.len() as u64);
        message.append(" of ");
        text::push_decimal(&mut message, all.len() as u64);
        message.append(
            " fragments): pinned Lance revision ab6b5bbe reconstructs the supplied codebook with a DOT ProductQuantizer in the distributed build path (make_global_pq), silently breaking the L2 PQ-assignment contract; cover the full dataset in one segment (pass NULL fragment_ids or list every fragment) or wait for upstream Lance DOT support",
        );
        return Err(LanceError::invalid_text(message));
    }
    Ok(())
}

/// A selection that passes the checks on fragments and is rejected for a codebook
/// is a strict subset of the fragments, and the message counts its numbers.
pub proof fn law_rejected_selection_is_a_strict_subset(
    params: LanceVectorIndexParams,
    mode: LanceIndexSegmentBuildMode,
    has_codebook: bool,
    ids: Seq<u32>,
    count: usize,
    fragments: Seq<u64>,
    dataset_version: u64,
)
    requires
        segment_options::fragments_failure(Some(ids), count, fragments, dataset_version) is None,
        subset_failure(params, mode, has_codebook, Some(ids), fragments) is Some,
    ensures
        ids.to_set().subset_of(numbered_fragments(fragments)),
        ids.to_set().len() == ids.len(),
        ids.len() < numbered_fragments(fragments).len(),
{
    let selected = ids.to_set();
    let all = numbered_fragments(fragments);
    assert forall|id: u32| selected.contains(id) implies all.contains(id) by {
        let k = choose|k: int| 0 <= k < ids.len() && ids[k] == id;
        segment_options::law_accepted_fragments_are_a_set_of_the_dataset(
            ids,
            count,
            fragments,
            dataset_version,
            k,
            k,
        );
        let at = choose|at: int| 0 <= at < fragments.len() && fragments[at] == id as u64;
        lemma_numbered(fragments, at);
    }
    assert forall|i: int, j: int| 0 <= i < ids.len() && 0 <= j < ids.len() && i != j implies ids[i]
        != ids[j] by {
        if i < j {
            segment_options::law_accepted_fragments_are_a_set_of_the_dataset(
                ids,
                count,
                fragments,
                dataset_version,
                i,
                j,
            );
        } else {
            segment_options::law_accepted_fragments_are_a_set_of_the_dataset(
                ids,
                count,
                fragments,
                dataset_version,
                j,
                i,
            );
        }
    }
    ids.unique_seq_to_set();
    lemma_numbered_finite(fragments);
    vstd::set_lib::lemma_len_subset(selected, all);
    if selected.len() == all.len() {
        vstd::set_lib::lemma_subset_equality(selected, all);
    }
}

proof fn lemma_numbered_finite(fragments: Seq<u64>)
    ensures
        numbered_fragments(fragments).finite(),
    decreases fragments.len(),
{
    if fragments.len() > 0 {
        lemma_numbered_finite(fragments.drop_last());
    }
}

/// Models that pass the checks go together: a codebook comes with the centroids
/// that it was trained with, for a product-quantized index, and holds one list
/// per codeword of each subvector.
pub proof fn law_accepted_codebook_goes_with_its_centroids<M>(
    params: LanceVectorIndexParams,
    mode: LanceIndexSegmentBuildMode,
    centroids: Option<SuppliedModel<M>>,
    codebook: SuppliedModel<M>,
    dim: usize,
)
    requires
        models_failure(params, mode, centroids, Some(codebook), dim) is None,
    ensures
        params.index_type.quantizes_products(),
        mode != LanceIndexSegmentBuildMode::LocalTrain,
        centroids matches Some(centroids) && centroids.provenance.ivf_id@
            == codebook.provenance.ivf_id@ && centroids.len == params.num_partitions,
        codebook.len == params.num_sub_vectors * codewords(effective_bits(params.num_bits)),
        params.num_sub_vectors > 0,
        dim as int % params.num_sub_vectors as int == 0,
{
}

/// A codebook for codes of `bits` bits has two to the power of `bits` lists for each
/// subvector: an accepted one has just as many, and as many are accepted. Each list
/// holds the values of one subvector. Codes have as many bits as the parameters say,
/// and eight where they leave it open.
pub proof fn law_codebook_has_a_list_for_every_code<M>(
    codebook: SuppliedModel<M>,
    params: LanceVectorIndexParams,
    dim: usize,
    bits: nat,
)
    requires
        bits == 4 || bits == 8,
        bits == params.num_bits || bits == 8 && params.num_bits == 0,
    ensures
        codebook_shape_failure(codebook, params, dim) is None <==> {
            &&& params.num_sub_vectors > 0
            &&& dim as int % params.num_sub_vectors as int == 0
            &&& codebook.len == params.num_sub_vectors * vstd::arithmetic::power2::pow2(bits)
            &&& codebook.value_length == ((dim as int / params.num_sub_vectors as int) as usize) as i32
            &&& codebook.is_float32
        },
        codebook_shape_failure(codebook, params, dim) is None && bits == 4 ==> codebook.len == 16
            * params.num_sub_vectors,
        codebook_shape_failure(codebook, params, dim) is None && bits == 8 ==> codebook.len == 256
            * params.num_sub_vectors,
{
    vstd::arithmetic::power2::lemma2_to64();
    assert(params.num_sub_vectors * 16 == 16 * params.num_sub_vectors);
    assert(params.num_sub_vectors * 256 == 256 * params.num_sub_vectors);
}

/// Two codebooks that are accepted for the same parameters, but for codes of four and
/// of eight bits, differ in length by the factor of sixteen.
pub proof fn law_longer_codes_need_longer_codebooks<M>(
    short: SuppliedModel<M>,
    long: SuppliedModel<M>,
    params: LanceVectorIndexParams,
    other: LanceVectorIndexParams,
    dim: usize,
)
    requires
        params.num_bits == 4,
        other.num_bits == 8 || other.num_bits == 0,
        params.num_sub_vectors == other.num_sub_vectors,
        codebook_shape_failure(short, params, dim) is None,
        codebook_shape_failure(long, other, dim) is None,
    ensures
        long.len == 16 * short.len,
{
    law_codebook_has_a_list_for_every_code(short, params, dim, 4);
    law_codebook_has_a_list_for_every_code(long, other, dim, 8);
}

/// Models are accepted if and only if each was trained for this metric and dimension
/// and has the shape that the parameters ask for; a codebook was trained with the
/// centroids beside it; a product-quantized index has codes of four or eight bits and
/// gets both models or none, another index no codebook; and the mode allows them.
pub proof fn law_models_are_accepted_for_what_they_are<M>(
    params: LanceVectorIndexParams,
    mode: LanceIndexSegmentBuildMode,
    centroids: Option<SuppliedModel<M>>,
    codebook: Option<SuppliedModel<M>>,
    dim: usize,
)
    ensures
        models_failure(params, mode, centroids, codebook, dim) is None <==> {
            let bits: u32 = if params.num_bits > 0 {
                params.num_bits
            } else {
                8
            };
            let metric: int = match params.metric {
                LanceMetricType::L2 => 0,
                LanceMetricType::Cosine => 1,
                LanceMetricType::Dot => 2,
                LanceMetricType::Hamming => 3,
            };
            let is_pq = params.index_type is IvfPq || params.index_type is IvfHnswPq;
            &&& centroids is Some ==> {
                let model = centroids->0;
                &&& model.provenance.kind@ == "ivf"@
                &&& model.provenance.metric == metric
                &&& model.provenance.dimension == dim
                &&& model.value_length == dim as i32
                &&& model.is_float32
                &&& model.len == params.num_partitions
            }
            &&& codebook is Some ==> {
                let model = codebook->0;
                &&& model.provenance.kind@ == "pq"@
                &&& model.provenance.metric == metric
                &&& model.provenance.dimension == dim
                &&& model.provenance.num_sub_vectors == Some(params.num_sub_vectors)
                &&& model.provenance.num_bits == Some(bits)
                &&& centroids is Some && centroids->0.provenance.ivf_id@
                    == model.provenance.ivf_id@
                &&& params.num_sub_vectors > 0
                &&& dim as int % params.num_sub_vectors as int == 0
                &&& model.len == params.num_sub_vectors * vstd::arithmetic::power2::pow2(
                    bits as nat,
                )
                &&& model.value_length == ((dim as int / params.num_sub_vectors as int) as usize) as i32
                &&& model.is_float32
                &&& is_pq
            }
            &&& is_pq ==> (bits == 4 || bits == 8) && (centroids is Some <==> codebook is Some)
            &&& mode is LocalTrain ==> centroids is None && codebook is None
            &&& mode is Precomputed ==> centroids is Some || codebook is Some
        },
{
    vstd::arithmetic::power2::lemma2_to64();
    if codebook is Some {
        assert(params.num_sub_vectors * 16 == 16 * params.num_sub_vectors);
        assert(params.num_sub_vectors * 256 == 256 * params.num_sub_vectors);
    }
}

/// A rejected model is reported with its code, and the first rule that it breaks is the
/// one that is reported: its training before its shape, and centroids before a
/// codebook.
pub proof fn law_first_broken_rule_is_reported<M>(
    params: LanceVectorIndexParams,
    mode: LanceIndexSegmentBuildMode,
    centroids: Option<SuppliedModel<M>>,
    codebook: Option<SuppliedModel<M>>,
    dim: usize,
)
    ensures
        models_failure(params, mode, centroids, codebook, dim) matches Some(report) ==> report.0
            == error::LanceErrorCode::InvalidArgument,
        centroids is Some && centroids->0.provenance.kind@ != "ivf"@ ==> models_failure(
            params,
            mode,
            centroids,
            codebook,
            dim,
        ) == centroid_provenance_failure(centroids->0.provenance, params, dim),
        centroids is None && codebook is Some && codebook->0.provenance.kind@ != "pq"@
            ==> models_failure(params, mode, centroids, codebook, dim)
            == codebook_provenance_failure(codebook->0.provenance, None, params, dim),
        centroids is None && codebook is None && mode is Precomputed && !(params.index_type is IvfPq
            || params.index_type is IvfHnswPq) ==> models_failure(
            params,
            mode,
            centroids,
            codebook,
            dim,
        ) == Some(error::invalid("mode PRECOMPUTED requires precomputed model arrays"@)),
{
}

proof fn lemma_numbered_contains(fragments: Seq<u64>, id: u32)
    ensures
        numbered_fragments(fragments).contains(id) <==> fragments.contains(id as u64),
    decreases fragments.len(),
{
    if fragments.len() > 0 {
        let earlier = fragments.drop_last();
        lemma_numbered_contains(earlier, id);
        if earlier.contains(id as u64) {
            let k = choose|k: int| 0 <= k < earlier.len() && earlier[k] == id as u64;
            assert(fragments[k] == id as u64);
        }
        if fragments.last() == id as u64 {
            assert(fragments[fragments.len() - 1] == id as u64);
        }
        if fragments.contains(id as u64) && fragments.last() != id as u64 {
            let k = choose|k: int| 0 <= k < fragments.len() && fragments[k] == id as u64;
            assert(earlier[k] == id as u64);
        }
    }
}

/// A codebook is refused for the fragments if and only if it is one for the dot
/// product of a product-quantized index and the fragments are selected otherwise than
/// all: not just the numbers of the dataset's fragments.
pub proof fn law_dot_codebook_needs_all_fragments(
    params: LanceVectorIndexParams,
    mode: LanceIndexSegmentBuildMode,
    has_codebook: bool,
    selected: Option<Seq<u32>>,
    fragments: Seq<u64>,
)
    ensures
        subset_failure(params, mode, has_codebook, selected, fragments) is Some <==> {
            &&& params.index_type is IvfPq || params.index_type is IvfHnswPq
            &&& params.metric is Dot
            &&& has_codebook
            &&& selected is Some
            &&& exists|id: u32|
                (#[trigger] selected->0.contains(id)) != fragments.contains(id as u64)
        },
        subset_failure(params, mode, has_codebook, selected, fragments) matches Some(report)
            ==> report.0 == error::LanceErrorCode::InvalidArgument,
{
    if selected is Some {
        let ids = selected->0;
        assert forall|id: u32| true implies (numbered_fragments(fragments).contains(id)
            <==> #[trigger] fragments.contains(id as u64)) by {
            lemma_numbered_contains(fragments, id);
        }
        assert forall|id: u32|
            #![trigger ids.contains(id)]
            (ids.contains(id) <==> ids.to_set().contains(id)) && (numbered_fragments(
                fragments,
            ).contains(id) <==> fragments.contains(id as u64)) by {
            lemma_numbered_contains(fragments, id);
        }
        if ids.to_set() == numbered_fragments(fragments) {
            assert forall|id: u32|
                (#[trigger] ids.contains(id)) == fragments.contains(id as u64) by {
                assert(ids.to_set().contains(id) == numbered_fragments(fragments).contains(id));
            }
        }
        if forall|id: u32| (#[trigger] ids.contains(id)) == fragments.contains(id as u64) {
            assert forall|id: u32| ids.to_set().contains(id) == numbered_fragments(
                fragments,
            ).contains(id) by {
                assert(ids.contains(id) == fragments.contains(id as u64));
            }
            assert(ids.to_set() =~= numbered_fragments(fragments));
        }
    }
}

/// A model after the attempt to import it: `None` where the options supply none.
pub open spec fn imported<M>(model: Option<Result<SuppliedModel<M>, LanceError>>) -> Option<
    SuppliedModel<M>,
> {
    match model {
        Some(Ok(model)) => Some(model),
        _ => None,
    }
}

/// The failure of an import.
pub open spec fn import_failure<M>(model: Option<Result<SuppliedModel<M>, LanceError>>) -> Option<
    error::Report,
> {
    match model {
        Some(Err(error)) => Some(error@),
        _ => None,
    }
}

/// The first failure of a drafted vector builder.
pub open spec fn vector_builder_failure<D, M>(
    draft: VectorDraft<D>,
    centroids: Option<Result<SuppliedModel<M>, LanceError>>,
    codebook: Option<Result<SuppliedModel<M>, LanceError>>,
    dimension: Result<usize, LanceError>,
    accepted: Result<(), LanceError>,
) -> Option<error::Report> {
    if import_failure(centroids) is Some {
        import_failure(centroids)
    } else if import_failure(codebook) is Some {
        import_failure(codebook)
    } else {
        match dimension {
            Err(error) => Some(error@),
            Ok(dim) => {
                let mismatch = models_failure(
                    draft.params,
                    draft.mode,
                    imported(centroids),
                    imported(codebook),
                    dim,
                );
                if mismatch is Some {
                    mismatch
                } else if accepted is Err {
                    error::failure(accepted)
                } else {
                    subset_failure(
                        draft.params,
                        draft.mode,
                        imported(codebook) is Some,
                        segment_options::ids_of(draft.fragment_ids),
                        draft.dataset.fragments@,
                    )
                }
            },
        }
    }
}

/// The value that a model is handed on as.
pub open spec fn model_of<M>(model: Option<SuppliedModel<M>>) -> Option<M> {
    match model {
        Some(model) => Some(model.model),
        None => None,
    }
}

fn take_model<M>(model: Option<SuppliedModel<M>>) -> (value: Option<M>)
    ensures
        value == model_of(model),
{
    match model {
        Some(model) => Some(model.model),
        None => None,
    }
}

fn take_import<M>(model: Option<Result<SuppliedModel<M>, LanceError>>) -> (result: Result<
    Option<SuppliedModel<M>>,
    LanceError,
>)
    ensures
        error::failure(result) == import_failure(model),
        result matches Ok(value) ==> value == imported(model),
{
    match model {
        None => Ok(None),
        Some(Ok(model)) => Ok(Some(model)),
        Some(Err(error)) => Err(error),
    }
}

/// Creates a builder of vector index segments out of a draft, whose models were
/// imported as far as it supplies them: the codebook only where the import of the
/// centroids did not fail. `dimension` is that of the column, and `accepted` says whether the index parameters could be built
/// from the parameters and the models; the latter counts only for models that
/// pass the checks.
pub fn new_vector_builder_inner<D, M, P>(
    draft: VectorDraft<D>,
    centroids: Option<Result<SuppliedModel<M>, LanceError>>,
    codebook: Option<Result<SuppliedModel<M>, LanceError>>,
    dimension: Result<usize, LanceError>,
    accepted: Result<(), LanceError>,
) -> (result: Result<LanceIndexSegmentBuilder<D, M, P>, LanceError>)
    requires
        centroids is Some == draft.supplies_centroids,
        import_failure(centroids) is None ==> (codebook is Some == draft.supplies_codebook),
    ensures
        error::failure(result) == vector_builder_failure(
            draft,
            centroids,
            codebook,
            dimension,
            accepted,
        ),
        result matches Ok(builder) ==> {
            &&& builder.dataset == draft.dataset.dataset
            &&& builder.column == draft.column
            &&& builder.index_name == draft.index_name
            &&& builder.kind == (SegmentKind::Vector {
                params: draft.params,
                centroids: model_of(imported(centroids)),
                codebook: model_of(imported(codebook)),
            })
            &&& imported(centroids) is Some == draft.supplies_centroids
            &&& imported(codebook) is Some == draft.supplies_codebook
            &&& builder.fragment_ids == draft.fragment_ids
            &&& builder.index_uuid == draft.index_uuid
            &&& builder.progress is None
            &&& !builder.executed
        },
{
    let centroids: Option<SuppliedModel<M>> = match take_import(centroids) {
        Ok(model) => model,
        Err(error) => {
            return Err(error);
        },
    };
    let codebook: Option<SuppliedModel<M>> = match take_import(codebook) {
        Ok(model) => model,
        Err(error) => {
            return Err(error);
        },
    };
    let dim: usize = match dimension {
        Ok(dim) => dim,
        Err(error) => {
            return Err(error);
        },
    };
    if let Err(error) = check_models(&draft.params, draft.mode, &centroids, &codebook, dim) {
        return Err(error);
    }
    if let Err(error) = accepted {
        return Err(error);
    }
    if let Err(error) = check_subset(
        &draft.params,
        draft.mode,
        codebook.is_some(),
        &draft.fragment_ids,
        &draft.dataset.fragments,
    ) {
        return Err(error);
    }
    Ok(
        LanceIndexSegmentBuilder {
            dataset: draft.dataset.dataset,
            column: draft.column,
            index_name: draft.index_name,
            kind: SegmentKind::Vector {
                params: draft.params,
                centroids: take_model(centroids),
                codebook: take_model(codebook),
            },
            fragment_ids: draft.fragment_ids,
            index_uuid: draft.index_uuid,
            progress: None,
            executed: false,
        },
    )
}

/// What an uncommitted build hands to the index builder of the dataset. `None`
/// leaves the choice to that builder; models stay in the segment builder.
pub struct ExecutionPlan {
    pub column: String,
    pub kind: PlannedKind,
    pub name: Option<String>,
    pub fragments: Option<Vec<u32>>,
    pub index_uuid: Option<[u8; 16]>,
    /// Whether the index is trained.
    pub train: Option<bool>,
    /// The progress callback is handed on, and is retired before the call
    /// returns, whatever the outcome.
    pub reports_progress: bool,
}

/// The kind of index that a build creates, with its plain parameters.
pub enum PlannedKind {
    Scalar { scalar_type: LanceScalarIndexType, params_json: Option<String> },
    Vector { params: LanceVectorIndexParams },
}

/// What the execution of a builder reports before the build. `executed` is `None`
/// for a NULL builder.
pub open spec fn execute_failure(executed: Option<bool>, outputs_are_null: bool) -> Option<
    error::Report,
> {
    match executed {
        None => Some(error::invalid("builder must not be NULL"@)),
        Some(true) => Some(
            error::invalid("index segment builder is single-use and has already been executed"@),
        ),
        Some(false) => if outputs_are_null {
            Some(error::invalid("out_bytes and out_len must not be NULL"@))
        } else {
            None
        },
    }
}

/// Whether a builder was executed; `None` for a NULL builder.
pub open spec fn executed_of<D, M, P>(
    builder: Option<&mut LanceIndexSegmentBuilder<D, M, P>>,
) -> Option<bool> {
    match builder {
        Some(builder) => Some(builder.executed),
        None => None,
    }
}

/// Whether a plan hands on what a builder holds.
pub open spec fn plans<D, M, P>(
    builder: LanceIndexSegmentBuilder<D, M, P>,
    plan: ExecutionPlan,
) -> bool {
    &&& plan.column@ == builder.column@
    &&& helpers::text_of(plan.name) == helpers::text_of(builder.index_name)
    &&& segment_options::ids_of(plan.fragments) == segment_options::ids_of(builder.fragment_ids)
    &&& plan.index_uuid == builder.index_uuid
    &&& plan.reports_progress == (builder.progress is Some)
    &&& match (builder.kind, plan.kind) {
        (
            SegmentKind::Scalar { scalar_type, params_json },
            PlannedKind::Scalar { scalar_type: planned_type, params_json: planned_json },
        ) => planned_type == scalar_type && helpers::text_of(planned_json) == helpers::text_of(
            params_json,
        ) && plan.train is None,
        (
            SegmentKind::Vector { params, .. },
            PlannedKind::Vector { params: planned_params },
        ) => planned_params == params && plan.train == Some(true),
        _ => false,
    }
}

fn copy_text(text: &Option<String>) -> (copy: Option<String>)
    ensures
        helpers::text_of(copy) == helpers::text_of(*text),
{
    match text {
        Some(text) => Some(text.clone()),
        None => None,
    }
}

fn plan_execution<D, M, P>(builder: &LanceIndexSegmentBuilder<D, M, P>) -> (plan: ExecutionPlan)
    ensures
        plans(*builder, plan),
{
    let fragments: Option<Vec<u32>> = match &builder.fragment_ids {
        Some(ids) => {
            let copy: Vec<u32> = ids.clone();
            assert(copy@ =~= ids@);
            Some(copy)
        },
        None => None,
    };
    let (kind, train): (PlannedKind, Option<bool>) = match &builder.kind {
        SegmentKind::Scalar { scalar_type, params_json } => (
            PlannedKind::Scalar { scalar_type: *scalar_type, params_json: copy_text(params_json) },
            None,
        ),
        SegmentKind::Vector { params, .. } => (
            PlannedKind::Vector { params: *params },
            Some(true),
        ),
    };
    ExecutionPlan {
        column: builder.column.clone(),
        kind,
        name: copy_text(&builder.index_name),
        fragments,
        index_uuid: builder.index_uuid,
        train,
        reports_progress: builder.progress.is_some(),
    }
}

/// Starts the one build of a builder. A builder counts as executed from here on,
/// also where the outputs are then rejected.
pub fn execute_uncommitted_inner<D, M, P>(
    builder: Option<&mut LanceIndexSegmentBuilder<D, M, P>>,
    outputs_are_null: bool,
) -> (result: Result<ExecutionPlan, LanceError>)
    ensures
        error::failure(result) == execute_failure(executed_of(builder), outputs_are_null),
        result matches Ok(plan) ==> plans(*builder->0, plan),
        builder matches Some(handle) ==> *final(handle) == (LanceIndexSegmentBuilder {
            executed: true,
            ..*handle
        }),
{
    match builder {
        None => Err(LanceError::invalid("builder must not be NULL")),
        Some(builder) => {
            if builder.executed {
                return Err(
                    LanceError::invalid(
                        "index segment builder is single-use and has already been executed",
                    ),
                );
            }
            builder.executed = true;
            if outputs_are_null {
                return Err(LanceError::invalid("out_bytes and out_len must not be NULL"));
            }
            Ok(plan_execution(builder))
        },
    }
}

/// The encoded metadata of a segment that was built.
pub struct EncodedMetadata<A> {
    /// How many bytes it has.
    pub len: usize,
    /// The memory that holds it; `None` where none was found.
    pub allocation: Option<A>,
}

/// What the end of a build reports.
pub open spec fn finish_failure<A>(
    outcome: Result<EncodedMetadata<A>, LanceError>,
) -> Option<error::Report> {
    match outcome {
        Err(error) => Some(error@),
        Ok(encoded) => if encoded.allocation is None {
            Some(
                error::internal(
                    "failed to allocate "@ + text::decimal(encoded.len as nat)
                        + " metadata bytes"@,
                ),
            )
        } else {
            None
        },
    }
}

/// Ends a build. The outputs are written on success alone.
pub fn finish_uncommitted<A>(
    outcome: Result<EncodedMetadata<A>, LanceError>,
    out_bytes: &mut Option<A>,
    out_len: &mut usize,
) -> (result: Result<(), LanceError>)
    ensures
        error::failure(result) == finish_failure(outcome),
        result is Ok ==> *final(out_bytes) == outcome->Ok_0.allocation && *final(out_len)
            == outcome->Ok_0.len,
        result is Err ==> *final(out_bytes) == *old(out_bytes) && *final(out_len) == *old(out_len),
{
    match outcome {
        Err(error) => Err(error),
        Ok(encoded) => {
            if encoded.allocation.is_none() {
                let mut message: String = "failed to allocate ".to_owned();
                text::push_decimal(&mut message, encoded.len as u64);
                message.append(" metadata bytes");
                return Err(LanceError::internal(message));
            }
            *out_bytes = encoded.allocation;
            *out_len = encoded.len;
            Ok(())
        },
    }
}

/// What an execution of a builder reports, given the outcome of the build.
pub open spec fn execution_failure<A>(
    executed: Option<bool>,
    outputs_are_null: bool,
    outcome: Result<EncodedMetadata<A>, LanceError>,
) -> Option<error::Report> {
    if execute_failure(executed, outputs_are_null) is Some {
        execute_failure(executed, outputs_are_null)
    } else {
        finish_failure(outcome)
    }
}

/// Executes a builder, given what the build returned, which counts only where it
/// was started. Whatever fails, the outputs stay unwritten, and the builder was
/// used up all the same.
pub fn lance_index_segment_builder_execute_uncommitted<D, M, P, A>(
    last: &mut LastError,
    builder: Option<&mut LanceIndexSegmentBuilder<D, M, P>>,
    out_bytes: Option<&mut Option<A>>,
    out_len: Option<&mut usize>,
    outcome: Result<EncodedMetadata<A>, LanceError>,
) -> (status: i32)
    ensures
        ({
            let failed = execution_failure(
                executed_of(builder),
                out_bytes is None || out_len is None,
                outcome,
            );
            &&& error::reports(status, final(last)@, failed)
            &&& builder matches Some(handle) ==> *final(handle) == (LanceIndexSegmentBuilder {
                executed: true,
                ..*handle
            })
            &&& out_bytes matches Some(slot) ==> *final(slot) == if failed is None {
                outcome->Ok_0.allocation
            } else {
                *slot
            }
            &&& out_len matches Some(slot) ==> *final(slot) == if failed is None {
                outcome->Ok_0.len
            } else {
                *slot
            }
        }),
{
    match execute_uncommitted_inner(builder, out_bytes.is_none() || out_len.is_none()) {
        Err(error) => ffi_try(last, Err(error)),
        Ok(_) => match (out_bytes, out_len) {
            (Some(bytes), Some(len)) => ffi_try(last, finish_uncommitted(outcome, bytes, len)),
            _ => -1,
        },
    }
}

/// What the installation of a progress callback reports.
pub open spec fn set_progress_failure(
    executed: Option<bool>,
    callback_is_null: bool,
) -> Option<error::Report> {
    if executed is None {
        Some(error::invalid("builder must not be NULL"@))
    } else if callback_is_null {
        Some(error::invalid("progress callback must not be NULL"@))
    } else if executed == Some(true) {
        Some(error::invalid("progress callback must be set before the builder is executed"@))
    } else {
        None
    }
}

/// Installs or replaces the progress callback of a builder.
pub fn set_progress_callback_inner<D, M, P>(
    builder: Option<&mut LanceIndexSegmentBuilder<D, M, P>>,
    callback: Option<P>,
) -> (result: Result<(), LanceError>)
    ensures
        error::failure(result) == set_progress_failure(executed_of(builder), callback is None),
        builder matches Some(handle) ==> *final(handle) == if result is Ok {
            LanceIndexSegmentBuilder { progress: callback, ..*handle }
        } else {
            *handle
        },
{
    match builder {
        None => Err(LanceError::invalid("builder must not be NULL")),
        Some(builder) => {
            let callback: P = match callback {
                Some(callback) => callback,
                None => {
                    return Err(LanceError::invalid("progress callback must not be NULL"));
                },
            };
            if builder.executed {
                return Err(
                    LanceError::invalid(
                        "progress callback must be set before the builder is executed",
                    ),
                );
            }
            builder.progress = Some(callback);
            Ok(())
        },
    }
}

/// An executed builder refuses every further build, whatever that build would
/// return, and every progress callback.
pub proof fn law_builder_is_single_use<A>(
    outputs_are_null: bool,
    callback_is_null: bool,
    outcome: Result<EncodedMetadata<A>, LanceError>,
)
    ensures
        execution_failure(Some(true), outputs_are_null, outcome) == Some(
            error::invalid("index segment builder is single-use and has already been executed"@),
        ),
        execute_failure(Some(true), outputs_are_null) == Some(
            error::invalid("index segment builder is single-use and has already been executed"@),
        ),
        set_progress_failure(Some(true), callback_is_null) is Some,
{
}

/// One encoded segment of a commit.
pub struct CommitSegment<S> {
    /// The pointer to its bytes is NULL.
    pub is_null: bool,
    /// That pointer, for messages.
    pub pointer: String,
    /// How many bytes it has.
    pub len: usize,
    /// What the bytes decode to, or the text of the failure; it counts only for
    /// bytes that can be read.
    pub decoded: Result<S, String>,
}

/// The longest list of pointers that memory allows, on a machine whose pointers
/// have `width` bytes.
pub open spec fn max_pointers(width: usize) -> int {
    isize::MAX as int / width as int
}

/// What one segment of a commit reports.
pub open spec fn segment_failure<S>(segment: CommitSegment<S>, position: int) -> Option<
    error::Report,
> {
    let place = text::decimal(position as nat);
    if segment.is_null || segment.len == 0 {
        Some(
            error::invalid(
                "segment_metadata_bytes["@ + place
                    + "] must be non-NULL and segment_metadata_lens["@ + place
                    + "] must be > 0; bytes="@ + segment.pointer@ + ", len="@ + text::decimal(
                    segment.len as nat,
                ),
            ),
        )
    } else if segment.len > isize::MAX {
        Some(
            error::invalid(
                "segment_metadata_lens["@ + place + "]="@ + text::decimal(segment.len as nat)
                    + " exceeds the maximum addressable byte slice length"@,
            ),
        )
    } else {
        match segment.decoded {
            Ok(_) => None,
            Err(reason) => Some(
                error::invalid("segment_metadata_bytes["@ + place + "]: "@ + reason@),
            ),
        }
    }
}

/// What the first bad segment, from `from` on, reports.
pub open spec fn segments_failure<S>(segments: Seq<CommitSegment<S>>, from: int) -> Option<
    error::Report,
>
    decreases segments.len() - from,
{
    if from >= segments.len() || from < 0 {
        None
    } else if segment_failure(segments[from], from) is Some {
        segment_failure(segments[from], from)
    } else {
        segments_failure(segments, from + 1)
    }
}

fn check_segment<S>(segment: CommitSegment<S>, position: usize) -> (result: Result<S, LanceError>)
    ensures
        error::failure(result) == segment_failure(segment, position as int),
        result matches Ok(metadata) ==> segment.decoded == Ok::<S, String>(metadata),
{
    if segment.is_null || segment.len == 0 {
        let mut message: String = "segment_metadata_bytes[".to_owned();
        text::push_decimal(&mut message, position as u64);
        message.append("] must be non-NULL and segment_metadata_lens[");
        text::push_decimal(&mut message, position as u64);
        message.append("] must be > 0; bytes=");
        message.append(segment.pointer.as_str());
        message.append(", len=");
        text::push_decimal(&mut message, segment.len as u64);
        return Err(LanceError::invalid_text(message));
    }
    if segment.len > isize::MAX as usize {
        let mut message: String = "segment_metadata_lens[".to_owned();
        text::push_decimal(&mut message, position as u64);
        message.append("]=");
        text::push_decimal(&mut message, segment.len as u64);
        message.append(" exceeds the maximum addressable byte slice length");
        return Err(LanceError::invalid_text(message));
    }
    match segment.decoded {
        Ok(metadata) => Ok(metadata),
        Err(reason) => {
            let mut message: String = "segment_metadata_bytes[".to_owned();
            text::push_decimal(&mut message, position as u64);
            message.append("]: ");
            message.append(reason.as_str());
            Err(LanceError::invalid_text(message))
        },
    }
}

/// Arguments of a commit of index segments.
pub struct CommitRequest<S> {
    pub dataset_is_null: bool,
    pub index_name: CStringArg,
    pub column: CStringArg,
    pub segment_count: usize,
    /// The list of pointers or the list of lengths is NULL.
    pub arrays_are_null: bool,
    /// How many bytes a pointer has.
    pub pointer_width: usize,
    /// The segments, where the lists can be read; else none.
    pub segments: Vec<CommitSegment<S>>,
}

impl<S> CommitRequest<S> {
    /// The segments are as many as the count says, where the lists can be read.
    pub open spec fn wf(self) -> bool {
        &&& self.pointer_width > 0
        &&& self.segment_count <= max_pointers(self.pointer_width) && !self.arrays_are_null
            ==> self.segments@.len() == self.segment_count
    }
}

/// The first failure of a commit.
pub open spec fn commit_failure<S>(request: CommitRequest<S>) -> Option<error::Report> {
    if request.dataset_is_null || request.index_name is Null || request.column is Null {
        Some(error::invalid("dataset, index_name, and column must not be NULL"@))
    } else if request.index_name.nonempty("index_name must not be NULL or empty"@) is Some {
        request.index_name.nonempty("index_name must not be NULL or empty"@)
    } else if request.column.nonempty("column must not be NULL or empty"@) is Some {
        request.column.nonempty("column must not be NULL or empty"@)
    } else if request.segment_count == 0 {
        Some(
            error::invalid(
                "segment_count must be > 0; at least one index segment is required to commit an index"@,
            ),
        )
    } else if request.arrays_are_null {
        Some(
            error::invalid(
                "segment_metadata_bytes and segment_metadata_lens must not be NULL when segment_count is "@
                    + text::decimal(request.segment_count as nat),
            ),
        )
    } else if request.segment_count > max_pointers(request.pointer_width) {
        Some(
            error::invalid(
                "segment_count "@ + text::decimal(request.segment_count as nat)
                    + " exceeds the maximum addressable pointer slice length"@,
            ),
        )
    } else {
        segments_failure(request.segments@, 0)
    }
}

/// An accepted commit: all segments as one logical index.
pub struct CommitPlan<S> {
    pub index_name: String,
    pub column: String,
    pub segments: Vec<S>,
}

/// Checks a commit of index segments and plans it.
pub fn commit_index_segments_inner<S>(request: CommitRequest<S>) -> (result: Result<
    CommitPlan<S>,
    LanceError,
>)
    requires
        request.wf(),
    ensures
        error::failure(result) == commit_failure(request),
        result matches Ok(plan) ==> {
            &&& request.index_name.text() == Some(plan.index_name@)
            &&& request.column.text() == Some(plan.column@)
            &&& plan.segments@.len() == request.segment_count
            &&& forall|i: int|
                0 <= i < request.segment_count ==> request.segments@[i].decoded == Ok::<
                    S,
                    String,
                >(#[trigger] plan.segments@[i])
        },
{
    let names_are_null: bool = match (&request.index_name, &request.column) {
        (CStringArg::Null, _) => true,
        (_, CStringArg::Null) => true,
        _ => false,
    };
    if request.dataset_is_null || names_are_null {
        return Err(LanceError::invalid("dataset, index_name, and column must not be NULL"));
    }
    let index_name: String = match nonempty_c_string(
        &request.index_name,
        "index_name must not be NULL or empty",
    ) {
        Ok(name) => name,
        Err(error) => {
            return Err(error);
        },
    };
    let column: String = match nonempty_c_string(
        &request.column,
        "column must not be NULL or empty",
    ) {
        Ok(column) => column,
        Err(error) => {
            return Err(error);
        },
    };
    if request.segment_count == 0 {
        return Err(
            LanceError::invalid(
                "segment_count must be > 0; at least one index segment is required to commit an index",
            ),
        );
    }
    if request.arrays_are_null {
        let mut message: String =
            "segment_metadata_bytes and segment_metadata_lens must not be NULL when segment_count is ".to_owned();
        text::push_decimal(&mut message, request.segment_count as u64);
        return Err(LanceError::invalid_text(message));
    }
    if request.segment_count > isize::MAX as usize / request.pointer_width {
        let mut message: String = "segment_count ".to_owned();
        text::push_decimal(&mut message, request.segment_count as u64);
        message.append(" exceeds the maximum addressable pointer slice length");
        return Err(LanceError::invalid_text(message));
    }
    let ghost given: Seq<CommitSegment<S>> = request.segments@;
    let mut segments: Vec<S> = Vec::new();
    let mut position: usize = 0;
    for segment in it: request.segments
        invariant
            it.seq() == given,
            given.len() == request.segment_count,
            commit_failure(request) == segments_failure(given, 0),
            position == it.index(),
            segments@.len() == position,
            segments_failure(given, 0) == segments_failure(given, position as int),
            forall|i: int|
                0 <= i < position ==> given[i].decoded == Ok::<S, String>(
                    #[trigger] segments@[i],
                ),
    {
        match check_segment(segment, position) {
            Ok(metadata) => {
                segments.push(metadata);
            },
            Err(error) => {
                return Err(error);
            },
        }
        position += 1;
    }
    Ok(CommitPlan { index_name, column, segments })
}

/// Without options a builder covers every fragment, has no identifier and chooses its
/// mode itself; with options it has theirs.
pub proof fn law_options_choose_the_build<D>(
    options: &LanceIndexSegmentBuildOptions,
    dataset: DatasetSnapshot<D>,
    scalar: bool,
)
    ensures
        chosen_failure(None, dataset, scalar) is None,
        chosen_fragments(None) is None,
        chosen_uuid(None) is None,
        chosen_mode(None) == 0,
        chosen_failure(Some(options), dataset, scalar) == segment_options::options_failure(
            *options,
            dataset.fragments@,
            dataset.version,
            scalar,
        ),
        options.fragment_ids is None ==> chosen_fragments(Some(options)) is None,
        options.fragment_ids is Some ==> chosen_fragments(Some(options)) == Some(
            options.fragment_ids->0@,
        ),
        chosen_uuid(Some(options)) == options.index_uuid,
        chosen_mode(Some(options)) == options.mode,
{
}

/// A scalar builder is created if and only if it has a dataset and the name of a
/// column, its other texts are texts or missing, its number names a kind of scalar
/// index, and its options are accepted for a scalar index.
pub proof fn law_scalar_builder_is_created_for_its_arguments<D>(
    dataset: Option<DatasetSnapshot<D>>,
    column: CStringArg,
    index_name: CStringArg,
    index_type: i32,
    params_json: CStringArg,
    options: Option<&LanceIndexSegmentBuildOptions>,
)
    ensures
        scalar_builder_failure(dataset, column, index_name, index_type, params_json, options)
            is None <==> {
            &&& dataset is Some
            &&& column is Text && column->Text_0@.len() > 0
            &&& !(index_name is Malformed)
            &&& !(params_json is Malformed)
            &&& 1 <= index_type <= 4
            &&& options is Some ==> segment_options::options_failure(
                *options->0,
                dataset->0.fragments@,
                dataset->0.version,
                true,
            ) is None
        },
        index_type < 1 || index_type > 4 ==> scalar_type_failure(index_type) == Some(
            error::invalid(
                "invalid scalar index type: "@ + text::signed_decimal(index_type as int),
            ),
        ),
        dataset is None || column is Null ==> scalar_builder_failure(
            dataset,
            column,
            index_name,
            index_type,
            params_json,
            options,
        ) == Some(error::invalid("dataset and column must not be NULL"@)),
{
}

/// A vector builder is drafted if and only if it has a dataset, the name of a column
/// and parameters, its other text is a text or missing, its parameters are accepted,
/// and its options are accepted for a vector index.
pub proof fn law_vector_builder_is_drafted_for_its_arguments<D>(
    dataset: Option<DatasetSnapshot<D>>,
    column: CStringArg,
    index_name: CStringArg,
    params: Option<LanceVectorIndexSegmentParams>,
    options: Option<&LanceIndexSegmentBuildOptions>,
)
    ensures
        vector_draft_failure(dataset, column, index_name, params, options) is None <==> {
            &&& dataset is Some
            &&& column is Text && column->Text_0@.len() > 0
            &&& !(index_name is Malformed)
            &&& params is Some && 101 <= params->0.index_type <= 106 && 0 <= params->0.metric <= 3
            &&& options is Some ==> segment_options::options_failure(
                *options->0,
                dataset->0.fragments@,
                dataset->0.version,
                false,
            ) is None
        },
        dataset is None || column is Null || params is None ==> vector_draft_failure(
            dataset,
            column,
            index_name,
            params,
            options,
        ) == Some(error::invalid("dataset, column, and params must not be NULL"@)),
{
}

/// A drafted vector builder is created if and only if its models could be imported, the
/// column has a dimension, the models are accepted for it, the index parameters could
/// be built, and the models may serve the selected fragments. An import that failed is
/// reported as it failed, the centroids first.
pub proof fn law_vector_builder_is_created_for_its_models<D, M>(
    draft: VectorDraft<D>,
    centroids: Option<Result<SuppliedModel<M>, LanceError>>,
    codebook: Option<Result<SuppliedModel<M>, LanceError>>,
    dimension: Result<usize, LanceError>,
    accepted: Result<(), LanceError>,
)
    ensures
        vector_builder_failure(draft, centroids, codebook, dimension, accepted) is None <==> {
            &&& centroids is Some ==> centroids->0 is Ok
            &&& codebook is Some ==> codebook->0 is Ok
            &&& dimension is Ok
            &&& accepted is Ok
            &&& models_failure(
                draft.params,
                draft.mode,
                if centroids is Some {
                    Some(centroids->0->Ok_0)
                } else {
                    None
                },
                if codebook is Some {
                    Some(codebook->0->Ok_0)
                } else {
                    None
                },
                dimension->Ok_0,
            ) is None
            &&& subset_failure(
                draft.params,
                draft.mode,
                codebook is Some,
                if draft.fragment_ids is Some {
                    Some(draft.fragment_ids->0@)
                } else {
                    None
                },
                draft.dataset.fragments@,
            ) is None
        },
        centroids is Some && centroids->0 is Err ==> vector_builder_failure(
            draft,
            centroids,
            codebook,
            dimension,
            accepted,
        ) == Some(centroids->0->Err_0@),
        !(centroids is Some && centroids->0 is Err) && codebook is Some && codebook->0 is Err
            ==> vector_builder_failure(draft, centroids, codebook, dimension, accepted) == Some(
            codebook->0->Err_0@,
        ),
        !(centroids is Some && centroids->0 is Err) && !(codebook is Some && codebook->0 is Err)
            && dimension is Err ==> vector_builder_failure(
            draft,
            centroids,
            codebook,
            dimension,
            accepted,
        ) == Some(dimension->Err_0@),
{
}

/// A model that was imported is handed on; without an import, or with one that failed,
/// there is none.
pub proof fn law_imported_models_are_handed_on<M>(
    model: Option<Result<SuppliedModel<M>, LanceError>>,
)
    ensures
        model is None ==> imported(model) is None && import_failure(model) is None,
        model is Some && model->0 is Ok ==> imported(model) == Some(model->0->Ok_0)
            && import_failure(model) is None && model_of(imported(model)) == Some(
            model->0->Ok_0.model,
        ),
        model is Some && model->0 is Err ==> imported(model) is None && import_failure(model)
            == Some(model->0->Err_0@),
        imported(model) is None ==> model_of(imported(model)) is None,
{
}

/// A plan hands on all that a builder holds: the column, the name, the fragments, the
/// identifier, whether progress is reported, and the kind with its parameters. Just a
/// vector index is trained.
pub proof fn law_plan_hands_on_the_builder<D, M, P>(
    builder: LanceIndexSegmentBuilder<D, M, P>,
    plan: ExecutionPlan,
)
    requires
        plans(builder, plan),
    ensures
        plan.column@ == builder.column@,
        plan.name is Some <==> builder.index_name is Some,
        plan.name is Some ==> plan.name->0@ == builder.index_name->0@,
        plan.fragments is Some <==> builder.fragment_ids is Some,
        plan.fragments is Some ==> plan.fragments->0@ == builder.fragment_ids->0@,
        plan.index_uuid == builder.index_uuid,
        plan.reports_progress <==> builder.progress is Some,
        builder.kind is Scalar <==> plan.kind is Scalar,
        builder.kind is Scalar ==> {
            &&& plan.kind->scalar_type == builder.kind->scalar_type
            &&& plan.kind->params_json is Some <==> builder.kind->params_json is Some
            &&& plan.kind->params_json is Some ==> plan.kind->params_json->0@
                == builder.kind->params_json->0@
            &&& plan.train is None
        },
        builder.kind is Vector ==> plan.kind->params == builder.kind->params && plan.train == Some(
            true,
        ),
{
}

/// A builder starts its build if and only if it is there, was not executed before, and
/// has where to write to. The call succeeds if and only if it was started, the build
/// did not fail, and memory was found for what it returned.
pub proof fn law_build_runs_once<A>(
    executed: Option<bool>,
    outputs_are_null: bool,
    callback_is_null: bool,
    outcome: Result<EncodedMetadata<A>, LanceError>,
)
    ensures
        execute_failure(executed, outputs_are_null) is None <==> executed == Some(false)
            && !outputs_are_null,
        executed is None ==> execute_failure(executed, outputs_are_null) == Some(
            error::invalid("builder must not be NULL"@),
        ),
        executed == Some(false) && outputs_are_null ==> execute_failure(executed, outputs_are_null)
            == Some(error::invalid("out_bytes and out_len must not be NULL"@)),
        finish_failure(outcome) is None <==> outcome is Ok && outcome->Ok_0.allocation is Some,
        outcome is Err ==> finish_failure(outcome) == Some(outcome->Err_0@),
        outcome is Ok && outcome->Ok_0.allocation is None ==> finish_failure(outcome) == Some(
            error::internal(
                "failed to allocate "@ + text::decimal(outcome->Ok_0.len as nat)
                    + " metadata bytes"@,
            ),
        ),
        execution_failure(executed, outputs_are_null, outcome) is None <==> executed == Some(false)
            && !outputs_are_null && outcome is Ok && outcome->Ok_0.allocation is Some,
        executed == Some(false) && !outputs_are_null && outcome is Err ==> execution_failure(
            executed,
            outputs_are_null,
            outcome,
        ) == Some(outcome->Err_0@),
        set_progress_failure(executed, callback_is_null) is None <==> executed == Some(false)
            && !callback_is_null,
        executed is None ==> set_progress_failure(executed, callback_is_null) == Some(
            error::invalid("builder must not be NULL"@),
        ),
        executed is Some && callback_is_null ==> set_progress_failure(executed, callback_is_null)
            == Some(error::invalid("progress callback must not be NULL"@)),
{
}

/// A builder is known to be executed by itself; without one nothing is known.
pub proof fn law_executed_is_the_builders_own<D, M, P>(
    builder: Option<&mut LanceIndexSegmentBuilder<D, M, P>>,
)
    ensures
        builder is None ==> executed_of(builder) is None,
        builder is Some ==> executed_of(builder) == Some(builder->0.executed),
{
}

proof fn lemma_segments_failure<S>(segments: Seq<CommitSegment<S>>, from: int)
    requires
        0 <= from <= segments.len(),
    ensures
        segments_failure(segments, from) is None <==> forall|i: int|
            from <= i < segments.len() ==> segment_failure(#[trigger] segments[i], i) is None,
    decreases segments.len() - from,
{
    if from < segments.len() {
        lemma_segments_failure(segments, from + 1);
        if segment_failure(segments[from], from) is None && segments_failure(segments, from + 1)
            is None {
            assert forall|i: int| from <= i < segments.len() implies segment_failure(
                #[trigger] segments[i],
                i,
            ) is None by {
                if i > from {
                    assert(segment_failure(segments[i], i) is None);
                }
            }
        }
    }
}

/// A commit is accepted if and only if it has a dataset, the names of an index and of a
/// column, and at least one segment, its lists can be read, and every segment of them
/// is there, is not empty, can be addressed and decodes.
pub proof fn law_commit_is_accepted_for_its_segments<S>(request: CommitRequest<S>)
    requires
        request.wf(),
    ensures
        commit_failure(request) is None <==> {
            &&& !request.dataset_is_null
            &&& request.index_name is Text && request.index_name->Text_0@.len() > 0
            &&& request.column is Text && request.column->Text_0@.len() > 0
            &&& request.segment_count > 0
            &&& !request.arrays_are_null
            &&& request.segment_count * request.pointer_width <= isize::MAX
            &&& forall|i: int|
                0 <= i < request.segments@.len() ==> {
                    let segment = #[trigger] request.segments@[i];
                    !segment.is_null && 0 < segment.len <= isize::MAX && segment.decoded is Ok
                }
        },
        commit_failure(request) matches Some(report) ==> report.0
            == error::LanceErrorCode::InvalidArgument,
{
    let count = request.segment_count as int;
    let width = request.pointer_width as int;
    let most = isize::MAX as int / width;
    vstd::arithmetic::div_mod::lemma_fundamental_div_mod(isize::MAX as int, width);
    vstd::arithmetic::div_mod::lemma_mod_bound(isize::MAX as int, width);
    if count <= most {
        assert(count * width <= most * width) by (nonlinear_arith)
            requires
                count <= most,
                width > 0,
        ;
    } else {
        assert((most + 1) * width <= count * width) by (nonlinear_arith)
            requires
                most + 1 <= count,
                width > 0,
        ;
        assert((most + 1) * width == most * width + width) by (nonlinear_arith);
    }
    assert(width * most == most * width) by (nonlinear_arith);
    lemma_segments_failure(request.segments@, 0);
    lemma_segments_code(request.segments@, 0);
    assert forall|i: int| 0 <= i < request.segments@.len() implies (segment_failure(
        #[trigger] request.segments@[i],
        i,
    ) is None <==> !request.segments@[i].is_null && 0 < request.segments@[i].len <= isize::MAX
        && request.segments@[i].decoded is Ok) by {}
}

proof fn lemma_segments_code<S>(segments: Seq<CommitSegment<S>>, from: int)
    ensures
        segments_failure(segments, from) matches Some(report) ==> report.0
            == error::LanceErrorCode::InvalidArgument,
    decreases segments.len() - from,
{
    if 0 <= from < segments.len() {
        lemma_segments_code(segments, from + 1);
    }
}

/// A bad segment of a commit is reported with its place, and the first one is the one
/// that is reported.
pub proof fn law_first_bad_segment_is_reported<S>(segments: Seq<CommitSegment<S>>, at: int)
    requires
        0 <= at < segments.len(),
        forall|i: int|
            0 <= i < at ==> {
                let segment = #[trigger] segments[i];
                !segment.is_null && 0 < segment.len <= isize::MAX && segment.decoded is Ok
            },
    ensures
        segments[at].is_null || segments[at].len == 0 ==> segments_failure(segments, 0) == Some(
            error::invalid(
                "segment_metadata_bytes["@ + text::decimal(at as nat)
                    + "] must be non-NULL and segment_metadata_lens["@ + text::decimal(at as nat)
                    + "] must be > 0; bytes="@ + segments[at].pointer@ + ", len="@
                    + text::decimal(segments[at].len as nat),
            ),
        ),
        !segments[at].is_null && segments[at].len > isize::MAX ==> segments_failure(segments, 0)
            == Some(
            error::invalid(
                "segment_metadata_lens["@ + text::decimal(at as nat) + "]="@ + text::decimal(
                    segments[at].len as nat,
                ) + " exceeds the maximum addressable byte slice length"@,
            ),
        ),
        !segments[at].is_null && 0 < segments[at].len <= isize::MAX && segments[at].decoded is Err
            ==> segments_failure(segments, 0) == Some(
            error::invalid(
                "segment_metadata_bytes["@ + text::decimal(at as nat) + "]: "@
                    + segments[at].decoded->Err_0@,
            ),
        ),
{
    lemma_segments_skip(segments, 0, at);
}

proof fn lemma_segments_skip<S>(segments: Seq<CommitSegment<S>>, from: int, at: int)
    requires
        0 <= from <= at < segments.len(),
        forall|i: int|
            from <= i < at ==> {
                let segment = #[trigger] segments[i];
                !segment.is_null && 0 < segment.len <= isize::MAX && segment.decoded is Ok
            },
    ensures
        segments_failure(segments, from) == segments_failure(segments, at),
    decreases at - from,
{
    if from < at {
        assert(segment_failure(segments[from], from) is None);
        lemma_segments_skip(segments, from + 1, at);
    }
}

/// A rejected model says what it was expected to be and what it is.
pub proof fn law_rejected_models_say_why<M>(
    params: LanceVectorIndexParams,
    mode: LanceIndexSegmentBuildMode,
    model: SuppliedModel<M>,
    id: Option<Seq<u8>>,
    dim: usize,
    has_centroids: bool,
    has_codebook: bool,
)
    ensures
        centroid_provenance_failure(model.provenance, params, dim) matches Some(report)
            ==> report == error::invalid(
            "ivf_centroids provenance must be kind=ivf, metric="@ + text::signed_decimal(
                params.metric.raw(),
            ) + ", dimension="@ + text::decimal(dim as nat) + "; got kind="@
                + model.provenance.kind@ + ", metric="@ + text::signed_decimal(
                model.provenance.metric as int,
            ) + ", dimension="@ + text::decimal(model.provenance.dimension as nat),
        ),
        model.provenance.kind@ != "pq"@ && params.num_bits > 0 ==> codebook_provenance_failure(
            model.provenance,
            id,
            params,
            dim,
        ) == Some(
            error::invalid(
                "pq_codebook provenance does not match metric "@ + text::signed_decimal(
                    params.metric.raw(),
                ) + ", dimension "@ + text::decimal(dim as nat) + ", num_sub_vectors "@
                    + text::decimal(params.num_sub_vectors as nat) + ", num_bits "@
                    + text::decimal(params.num_bits as nat),
            ),
        ),
        model.provenance.kind@ == "pq"@ && model.provenance.metric == params.metric.raw()
            && model.provenance.dimension == dim && model.provenance.num_sub_vectors == Some(
            params.num_sub_vectors,
        ) && params.num_bits > 0 && model.provenance.num_bits == Some(params.num_bits) && id != Some(
            model.provenance.ivf_id@,
        ) ==> codebook_provenance_failure(model.provenance, id, params, dim) == Some(
            error::invalid("pq_codebook was not trained with the supplied ivf_centroids"@),
        ),
        model.value_length != dim as i32 || !model.is_float32 ==> centroid_shape_failure(
            model,
            params,
            dim,
        ) == Some(
            error::invalid(
                "ivf_centroids must have type FixedSizeList<Float32>["@ + text::decimal(dim as nat)
                    + "], got "@ + model.type_text@,
            ),
        ),
        model.value_length == dim as i32 && model.is_float32 && model.len != params.num_partitions
            ==> centroid_shape_failure(model, params, dim) == Some(
            error::invalid(
                "ivf_centroids length "@ + text::decimal(model.len as nat)
                    + " does not match num_partitions "@ + text::decimal(
                    params.num_partitions as nat,
                ),
            ),
        ),
        !(params.index_type is IvfPq || params.index_type is IvfHnswPq) && has_codebook
            ==> model_use_failure(params, mode, has_centroids, has_codebook) == Some(
            error::invalid(
                "pq_codebook is not valid for vector index type "@ + params.index_type.name(),
            ),
        ),
        (params.index_type is IvfPq || params.index_type is IvfHnswPq) && params.num_bits > 0
            && params.num_bits != 4 && params.num_bits != 8 ==> model_use_failure(
            params,
            mode,
            has_centroids,
            has_codebook,
        ) == Some(
            error::invalid(
                "num_bits must be 4 or 8 for Lance PQ indexes, got "@ + text::decimal(
                    params.num_bits as nat,
                ),
            ),
        ),
        (params.index_type is IvfPq || params.index_type is IvfHnswPq) && (params.num_bits == 0
            || params.num_bits == 4 || params.num_bits == 8) && has_centroids != has_codebook
            ==> model_use_failure(params, mode, has_centroids, has_codebook) == Some(
            error::invalid(
                "precomputed PQ segment builds require both ivf_centroids and pq_codebook"@,
            ),
        ),
        !(params.index_type is IvfPq || params.index_type is IvfHnswPq) && !has_codebook
            && has_centroids && mode is LocalTrain ==> model_use_failure(
            params,
            mode,
            has_centroids,
            has_codebook,
        ) == Some(error::invalid("mode LOCAL_TRAIN does not accept precomputed model arrays"@)),
{
}

/// A codebook of the wrong shape says which shape it must have and which it has.
pub proof fn law_rejected_codebook_says_why<M>(
    codebook: SuppliedModel<M>,
    params: LanceVectorIndexParams,
    dim: usize,
    bits: nat,
)
    requires
        bits == 4 || bits == 8,
        bits == params.num_bits || bits == 8 && params.num_bits == 0,
        codebook_shape_failure(codebook, params, dim) is Some,
    ensures
        ({
            let parts = params.num_sub_vectors;
            let expected = parts * vstd::arithmetic::power2::pow2(bits);
            let report = codebook_shape_failure(codebook, params, dim)->0;
            &&& parts == 0 || dim as int % parts as int != 0 ==> report == error::invalid(
                "dimension "@ + text::decimal(dim as nat) + " must be divisible by num_sub_vectors "@
                    + text::decimal(parts as nat),
            )
            &&& parts > 0 && dim as int % parts as int == 0 && expected > usize::MAX ==> report
                == error::invalid(
                "num_sub_vectors "@ + text::decimal(parts as nat) + " * codewords "@
                    + text::decimal(vstd::arithmetic::power2::pow2(bits)) + " overflows usize"@,
            )
            &&& parts > 0 && dim as int % parts as int == 0 && expected <= usize::MAX ==> report
                == error::invalid(
                "pq_codebook must be FixedSizeList<Float32> with length "@ + text::decimal(
                    expected as nat,
                ) + " and list_size "@ + text::decimal(
                    ((dim as int / parts as int) as usize) as nat,
                ) + ", got length "@ + text::decimal(codebook.len as nat) + ", type "@
                    + codebook.type_text@,
            )
        }),
{
    vstd::arithmetic::power2::lemma2_to64();
    assert(params.num_sub_vectors * 16 == 16 * params.num_sub_vectors);
    assert(params.num_sub_vectors * 256 == 256 * params.num_sub_vectors);
}

/// A codebook that is refused for the fragments names the kind of index and the mode,
/// and counts the selected fragments and all.
pub proof fn law_refused_selection_is_counted(
    params: LanceVectorIndexParams,
    mode: LanceIndexSegmentBuildMode,
    ids: Seq<u32>,
    fragments: Seq<u64>,
)
    requires
        subset_failure(params, mode, true, Some(ids), fragments) is Some,
    ensures
        text::has_prefix(
            (subset_failure(params, mode, true, Some(ids), fragments)->0).1,
            "pq_codebook is supplied for metric=DOT, index_type="@ + params.index_type.name()
                + ", mode="@ + mode.name() + ", and an effective strict fragment subset ("@
                + text::decimal(ids.to_set().len()) + " of "@ + text::decimal(
                numbered_fragments(fragments).len(),
            ),
        ),
        (subset_failure(params, mode, true, Some(ids), fragments)->0).2
            == error::Wording::InvalidInput,
{
    let shown = (subset_failure(params, mode, true, Some(ids), fragments)->0).1;
    let head = "pq_codebook is supplied for metric=DOT, index_type="@ + params.index_type.name()
        + ", mode="@ + mode.name() + ", and an effective strict fragment subset ("@
        + text::decimal(ids.to_set().len()) + " of "@ + text::decimal(
        numbered_fragments(fragments).len(),
    );
    assert(shown.take(head.len() as int) =~= head);
}

/// A rejected builder or commit says what is missing.
pub proof fn law_rejected_requests_say_what_is_missing<D, S>(
    dataset: DatasetSnapshot<D>,
    column: CStringArg,
    name: CStringArg,
    params: LanceVectorIndexSegmentParams,
    options: Option<&LanceIndexSegmentBuildOptions>,
    index_type: i32,
    request: CommitRequest<S>,
)
    ensures
        column is Text && column->Text_0@.len() == 0 ==> scalar_builder_failure(
            Some(dataset),
            column,
            name,
            index_type,
            name,
            options,
        ) == Some(error::invalid("column must not be NULL or empty"@)),
        column is Text && column->Text_0@.len() == 0 ==> vector_draft_failure(
            Some(dataset),
            column,
            name,
            Some(params),
            options,
        ) == Some(error::invalid("column must not be NULL or empty"@)),
        set_progress_failure(Some(true), false) == Some(
            error::invalid("progress callback must be set before the builder is executed"@),
        ),
        request.dataset_is_null || request.index_name is Null || request.column is Null
            ==> commit_failure(request) == Some(
            error::invalid("dataset, index_name, and column must not be NULL"@),
        ),
        !request.dataset_is_null && request.index_name is Text && request.column is Text ==> {
            let has_index_name = request.index_name->Text_0@.len() > 0;
            let has_column = request.column->Text_0@.len() > 0;
            &&& !has_index_name ==> commit_failure(request) == Some(
                error::invalid("index_name must not be NULL or empty"@),
            )
            &&& has_index_name && !has_column ==> commit_failure(request) == Some(
                error::invalid("column must not be NULL or empty"@),
            )
            &&& has_index_name && has_column && request.segment_count == 0 ==> commit_failure(
                request,
            ) == Some(
                error::invalid(
                    "segment_count must be > 0; at least one index segment is required to commit an index"@,
                ),
            )
            &&& has_index_name && has_column && request.segment_count > 0
                && request.arrays_are_null ==> commit_failure(request) == Some(
                error::invalid(
                    "segment_metadata_bytes and segment_metadata_lens must not be NULL when segment_count is "@
                        + text::decimal(request.segment_count as nat),
                ),
            )
            &&& has_index_name && has_column && request.segment_count > 0
                && !request.arrays_are_null && request.segment_count > max_pointers(
                request.pointer_width,
            ) ==> commit_failure(request) == Some(
                error::invalid(
                    "segment_count "@ + text::decimal(request.segment_count as nat)
                        + " exceeds the maximum addressable pointer slice length"@,
                ),
            )
        },
{
}

} // verus!
