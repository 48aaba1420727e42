//! Index segments: build options, models, builders, metadata and progress.

use std::collections::HashMap;

use lance_c::error::{LanceError, LanceErrorCode, LastError};
use lance_c::helpers::CStringArg;
use lance_c::index::{LanceMetricType, LanceScalarIndexType, LanceVectorIndexType};
use lance_c::progress::{
    progress_c_string, stage_complete, stage_progress, stage_start, IndexBuildProgressEvent,
    ProgressCallbackGate,
};
use lance_c::segment_array::{
    borrow_model_array, check_model_values, fixed_size_list_model, ArrayHeader, ModelArray,
    ModelType,
};
use lance_c::segment_builder::{
    commit_index_segments_inner, draft_vector_builder, execute_uncommitted_inner,
    finish_uncommitted, lance_index_segment_builder_execute_uncommitted, new_scalar_builder_inner,
    new_vector_builder_inner, set_progress_callback_inner, CommitRequest, CommitSegment,
    DatasetSnapshot, EncodedMetadata, LanceIndexSegmentBuilder, PlannedKind, SegmentKind, SuppliedModel,
};
use lance_c::segment_metadata::{
    decode_segment_metadata, lance_index_segment_metadata_dataset_version,
    lance_index_segment_metadata_field_count, lance_index_segment_metadata_field_ids,
    lance_index_segment_metadata_fragment_count, lance_index_segment_metadata_fragment_ids,
    lance_index_segment_metadata_index_details_type_url, lance_index_segment_metadata_index_type,
    lance_index_segment_metadata_index_version, lance_index_segment_metadata_name,
    lance_index_segment_metadata_uuid, parse_metadata_inner, Compression, ConvertedMetadata,
    IndexMetadataProto, LanceIndexSegmentMetadata, ParseRequest, VectorDetails,
    MAX_TIMESTAMP_MILLIS,
};
use lance_c::segment_model::{
    inspect_schema, model_provenance, provenance_with_id, validate_model_schema, ModelProvenance,
    SchemaFault, SchemaImport, SchemaNode,
};
use lance_c::segment_options::{
    parse_options, LanceIndexSegmentBuildMode, LanceIndexSegmentBuildOptions,
    LanceVectorIndexSegmentParams,
};

fn text(value: &str) -> CStringArg {
    CStringArg::Text(value.to_owned())
}

fn options() -> LanceIndexSegmentBuildOptions {
    LanceIndexSegmentBuildOptions {
        fragment_ids: None,
        fragment_count: 0,
        index_uuid: None,
        ivf_centroids_is_null: true,
        ivf_centroids_schema_is_null: true,
        pq_codebook_is_null: true,
        pq_codebook_schema_is_null: true,
        mode: 0,
    }
}

fn params(index_type: i32, metric: i32) -> LanceVectorIndexSegmentParams {
    LanceVectorIndexSegmentParams {
        index_type,
        metric,
        num_partitions: 2,
        num_sub_vectors: 2,
        num_bits: 8,
        max_iterations: 0,
        hnsw_m: 0,
        hnsw_ef_construction: 0,
        sample_rate: 0,
    }
}

fn snapshot() -> Option<DatasetSnapshot<&'static str>> {
    Some(DatasetSnapshot { dataset: "dataset", fragments: vec![0, 1, 2], version: 9 })
}

fn message<T>(result: Result<T, LanceError>) -> String {
    result.err().unwrap().message
}

#[test]
fn detached_clone_cannot_enter_callback_after_retire() {
    let mut gate = ProgressCallbackGate::default();
    gate.retire();
    let call = stage_progress("tokenize_docs", 1);
    assert_eq!(call.stage, "tokenize_docs");
    let mut entered_after_retire = false;
    if gate.enter() {
        entered_after_retire = true;
    }
    assert!(!entered_after_retire, "detached clone entered the callback after retirement");
}

#[test]
fn retire_drains_in_flight_invocation() {
    let mut gate = ProgressCallbackGate::default();
    assert!(gate.enter());
    gate.retire();
    assert!(!gate.is_drained(), "retire returned while a callback invocation was in flight");
    gate.exit();
    assert!(gate.is_drained());
    assert!(!gate.enter());
    assert!(gate.is_drained());
}

#[test]
fn an_exit_undoes_one_entry() {
    for in_flight in [0, 3, usize::MAX] {
        let mut gate = ProgressCallbackGate { retired: false, in_flight };
        assert!(gate.enter());
        assert_ne!(gate.in_flight, in_flight);
        gate.exit();
        assert_eq!(gate, ProgressCallbackGate { retired: false, in_flight });
        gate.retire();
        assert!(!gate.enter());
        assert_eq!(gate, ProgressCallbackGate { retired: true, in_flight });
    }
}

#[test]
fn progress_calls_carry_their_stage() {
    let call = stage_start("shuffle", Some(10), "rows");
    assert_eq!(call.event, IndexBuildProgressEvent::StageStart);
    assert_eq!((call.stage.as_str(), call.total, call.unit.as_str()), ("shuffle", 10, "rows"));
    assert_eq!(stage_start("s", None, "").total, 0);
    let call = stage_progress("shuffle", 3);
    assert_eq!((call.event, call.completed), (IndexBuildProgressEvent::StageProgress, 3));
    assert_eq!(stage_complete("shuffle").event, IndexBuildProgressEvent::StageComplete);
    assert_eq!(progress_c_string("a\0b\0"), "ab");
    assert_eq!(progress_c_string("plain"), "plain");
}

#[test]
fn progress_events_have_numbers() {
    assert_eq!(IndexBuildProgressEvent::StageStart.to_raw(), 0);
    assert_eq!(IndexBuildProgressEvent::StageProgress.to_raw(), 1);
    assert_eq!(IndexBuildProgressEvent::StageComplete.to_raw(), 2);
}

#[test]
fn fragment_selections_are_checked() {
    let parse = |options: &LanceIndexSegmentBuildOptions| {
        parse_options(Some(options), &vec![0, 1, 2], 9, false)
    };
    let select = |ids: Option<Vec<u32>>, count: usize| LanceIndexSegmentBuildOptions {
        fragment_ids: ids,
        fragment_count: count,
        ..options()
    };
    let parsed = parse(&select(Some(vec![2, 0]), 2)).ok().unwrap();
    assert_eq!(parsed.fragment_ids, Some(vec![2, 0]));
    assert_eq!(parsed.mode, LanceIndexSegmentBuildMode::Auto);
    assert_eq!(
        message(parse(&select(None, 2))),
        "fragment_ids is NULL but fragment_count is 2"
    );
    assert_eq!(
        message(parse(&select(Some(vec![]), 0))),
        "fragment_ids is non-NULL but fragment_count is 0"
    );
    assert_eq!(
        message(parse(&select(Some(vec![]), usize::MAX))),
        format!("fragment_count {} exceeds the maximum addressable u32 slice length", usize::MAX)
    );
    assert_eq!(
        message(parse(&select(Some(vec![1, 7, 1]), 3))),
        "fragment_ids[2] is duplicate fragment id 1"
    );
    assert_eq!(
        message(parse(&select(Some(vec![1, 7]), 2))),
        "fragment_ids[1]=7 does not exist in dataset version 9"
    );
    assert!(parse_options(None, &vec![], 9, true).ok().unwrap().fragment_ids.is_none());
}

#[test]
fn model_arguments_come_in_pairs() {
    let parse = |options: &LanceIndexSegmentBuildOptions, scalar: bool| {
        message(parse_options(Some(options), &vec![0], 1, scalar))
    };
    let lonely = LanceIndexSegmentBuildOptions { ivf_centroids_is_null: false, ..options() };
    assert_eq!(
        parse(&lonely, false),
        "ivf_centroids and ivf_centroids_schema must both be NULL or both be non-NULL"
    );
    let lonely = LanceIndexSegmentBuildOptions { pq_codebook_schema_is_null: false, ..options() };
    assert_eq!(
        parse(&lonely, false),
        "pq_codebook and pq_codebook_schema must both be NULL or both be non-NULL"
    );
    let both = LanceIndexSegmentBuildOptions {
        ivf_centroids_is_null: false,
        ivf_centroids_schema_is_null: false,
        ..options()
    };
    assert_eq!(
        parse(&both, true),
        "ivf_centroids and pq_codebook are not valid for a scalar index segment"
    );
    let mode = |mode: i32| LanceIndexSegmentBuildOptions { mode, ..options() };
    assert_eq!(
        parse(&mode(3), false),
        "mode must be 0 (AUTO), 1 (LOCAL_TRAIN), or 2 (PRECOMPUTED); got 3"
    );
    assert_eq!(
        parse(&mode(2), true),
        "mode PRECOMPUTED is not valid for a scalar index segment"
    );
    assert!(parse_options(Some(&mode(2)), &vec![0], 1, false).is_ok());
}

#[test]
fn kinds_have_numbers() {
    for raw in 101..=106 {
        assert_eq!(LanceVectorIndexType::from_c(raw).unwrap().to_raw(), raw);
    }
    assert!(LanceVectorIndexType::from_c(100).is_none());
    assert!(LanceVectorIndexType::from_c(107).is_none());
    for raw in 0..=3 {
        assert_eq!(LanceMetricType::from_raw(raw).unwrap().to_raw(), raw);
    }
    assert!(LanceMetricType::from_raw(4).is_none());
    assert_eq!(LanceScalarIndexType::from_c(4), Some(LanceScalarIndexType::Inverted));
    assert!(LanceScalarIndexType::from_c(0).is_none());
    assert_eq!(message(params(7, 0).parse()), "invalid vector index type: 7");
    assert_eq!(message(params(101, -1).parse()), "invalid metric: -1");
}

fn node(children: Vec<usize>, dictionary: usize) -> SchemaNode {
    SchemaNode {
        released: false,
        format_is_null: false,
        format_is_utf8: true,
        name_is_utf8: true,
        n_children: children.len() as i64,
        children_is_null: children.is_empty(),
        children,
        dictionary,
    }
}

#[test]
fn schemas_are_walked_before_they_are_imported() {
    let walk = |graph: Vec<(usize, SchemaNode)>| {
        let graph: HashMap<usize, SchemaNode> = graph.into_iter().collect();
        validate_model_schema(&graph, 1, "ivf_centroids", &SchemaImport::Field)
    };
    assert!(walk(vec![(1, node(vec![2], 0)), (2, node(vec![], 0))]).is_ok());
    assert_eq!(
        message(validate_model_schema(
            &HashMap::new(),
            0,
            "ivf_centroids",
            &SchemaImport::Field
        )),
        "ivf_centroids_schema must not be NULL"
    );
    assert_eq!(
        message(walk(vec![(1, node(vec![1], 0))])),
        "ivf_centroids_schema.children[0] contains a schema pointer cycle"
    );
    assert_eq!(
        message(walk(vec![(1, node(vec![], 2)), (2, SchemaNode { released: true, ..node(vec![], 0) })])),
        "ivf_centroids_schema.dictionary is uninitialized or already released"
    );
    let mut deep = Vec::new();
    for address in 1..100 {
        deep.push((address, node(vec![address + 1], 0)));
    }
    deep.push((100, node(vec![], 0)));
    assert!(message(walk(deep)).ends_with(" nesting depth exceeds the supported maximum of 64"));
}

#[test]
fn schema_faults_are_found_in_order() {
    let plain = node(vec![], 0);
    assert_eq!(inspect_schema(&plain), Ok(0));
    let fault = |node: SchemaNode| inspect_schema(&node).unwrap_err();
    assert_eq!(fault(SchemaNode { format_is_null: true, ..node(vec![], 0) }), SchemaFault::Released);
    assert_eq!(
        fault(SchemaNode { format_is_utf8: false, ..node(vec![], 0) }),
        SchemaFault::FormatNotUtf8
    );
    assert_eq!(
        fault(SchemaNode { name_is_utf8: false, ..node(vec![], 0) }),
        SchemaFault::NameNotUtf8
    );
    assert_eq!(
        fault(SchemaNode { n_children: -4, ..node(vec![], 0) }),
        SchemaFault::NegativeChildren(-4)
    );
    assert_eq!(
        fault(SchemaNode { n_children: i64::MAX, ..node(vec![], 0) }),
        SchemaFault::TooManyChildren(i64::MAX as usize)
    );
    assert_eq!(
        fault(SchemaNode { n_children: 2, ..node(vec![], 0) }),
        SchemaFault::ChildrenNull(2)
    );
}

#[test]
fn arrow_has_the_last_word_on_a_schema() {
    let graph: HashMap<usize, SchemaNode> = [(1, node(vec![], 0))].into_iter().collect();
    let import = SchemaImport::InvalidType("no".to_owned());
    assert_eq!(
        message(validate_model_schema(&graph, 1, "pq_codebook", &import)),
        "pq_codebook_schema is not a valid Arrow type: no"
    );
    let import = SchemaImport::InvalidField("no".to_owned());
    assert_eq!(
        message(validate_model_schema(&graph, 1, "pq_codebook", &import)),
        "pq_codebook_schema is not a valid Arrow field: no"
    );
}

const IVF_ID: &str = "01020304-0506-0708-090a-0b0c0d0e0f10";

fn model_metadata() -> Vec<(String, String)> {
    [
        ("lance:index_model:kind", "pq"),
        ("lance:index_model:metric", "2"),
        ("lance:index_model:dimension", "16"),
        ("lance:index_model:ivf_id", IVF_ID),
        ("lance:index_model:num_sub_vectors", "4"),
    ]
    .into_iter()
    .map(|(key, value)| (key.to_owned(), value.to_owned()))
    .collect()
}

fn with(key: &str, value: &str) -> Vec<(String, String)> {
    let mut metadata = model_metadata();
    metadata.retain(|(known, _)| known != key);
    metadata.push((key.to_owned(), value.to_owned()));
    metadata
}

#[test]
fn provenance_is_read_from_metadata() {
    let provenance = model_provenance(&model_metadata(), "pq_codebook").ok().unwrap();
    assert_eq!(provenance.kind, "pq");
    assert_eq!((provenance.metric, provenance.dimension), (2, 16));
    assert_eq!(provenance.ivf_id, [1, 2, 3, 4, 5, 6, 7, 8, 9, 10, 11, 12, 13, 14, 15, 16]);
    assert_eq!((provenance.num_sub_vectors, provenance.num_bits), (Some(4), None));
}

#[test]
fn identifiers_are_parsed_by_the_uuid_crate() {
    let braced = with("lance:index_model:ivf_id", "{01020304-0506-0708-090A-0B0C0D0E0F10}");
    let provenance = model_provenance(&braced, "m").ok().unwrap();
    assert_eq!(provenance.ivf_id[15], 16);
    let bad = with("lance:index_model:ivf_id", "not a uuid");
    let text = message(model_provenance(&bad, "m"));
    assert!(text.starts_with("m_schema metadata 'lance:index_model:ivf_id' is invalid: "));
    let text = message(provenance_with_id(&model_metadata(), "m", Err("because".to_owned())));
    assert_eq!(text, "m_schema metadata 'lance:index_model:ivf_id' is invalid: because");
}

#[test]
fn provenance_reports_what_is_missing_or_wrong() {
    let mut metadata = model_metadata();
    metadata.retain(|(key, _)| key != "lance:index_model:kind");
    assert_eq!(
        message(model_provenance(&metadata, "m")),
        "m_schema metadata is missing required key 'lance:index_model:kind'"
    );
    assert_eq!(
        message(model_provenance(&with("lance:index_model:metric", "x"), "m")),
        "m_schema metadata 'lance:index_model:metric' is invalid: invalid digit found in string"
    );
    assert_eq!(
        message(model_provenance(&with("lance:index_model:dimension", ""), "m")),
        "m_schema metadata 'lance:index_model:dimension' is invalid: cannot parse integer from empty string"
    );
    assert_eq!(
        message(model_provenance(&with("lance:index_model:num_bits", "4294967296"), "m")),
        "m_schema metadata 'lance:index_model:num_bits' value '4294967296' is invalid: number too large to fit in target type"
    );
}

fn list_header() -> ArrayHeader {
    ArrayHeader {
        released: false,
        length: 2,
        null_count: 0,
        offset: 0,
        n_buffers: 1,
        n_children: 1,
        buffers_is_null: false,
        validity_is_null: true,
        values_is_null: true,
        children_is_null: false,
        dictionary_is_null: true,
    }
}

fn values_header() -> ArrayHeader {
    ArrayHeader {
        length: 8,
        n_buffers: 2,
        n_children: 0,
        values_is_null: false,
        children_is_null: true,
        ..list_header()
    }
}

fn model_type(list_size: i32) -> Result<ModelType, LanceError> {
    Ok(ModelType::FixedSizeList { list_size, child_is_float32: true, text: "list".to_owned() })
}

#[test]
fn model_arrays_are_checked_before_they_are_read() {
    let borrow = |array: ArrayHeader, child: ArrayHeader, list_size: i32| {
        borrow_model_array("ivf_centroids", &Some(array), &Some(child), model_type(list_size))
    };
    assert!(borrow(list_header(), values_header(), 4).is_ok());
    assert_eq!(
        message(borrow(list_header(), values_header(), 5)),
        "ivf_centroids.children[0] does not cover the parent range: child offset=0, length=8, required elements=10"
    );
    assert_eq!(
        message(borrow(list_header(), values_header(), 0)),
        "ivf_centroids_schema must describe FixedSizeList<Float32> with positive list_size, got list"
    );
    assert_eq!(
        message(borrow(ArrayHeader { released: true, ..list_header() }, values_header(), 4)),
        "ivf_centroids is uninitialized or already released"
    );
    assert_eq!(
        message(borrow(ArrayHeader { length: -1, ..list_header() }, values_header(), 4)),
        "ivf_centroids length and offset must be non-negative; length=-1, offset=0"
    );
    assert_eq!(
        message(borrow(ArrayHeader { null_count: 3, ..list_header() }, values_header(), 4)),
        "ivf_centroids.null_count 3 is invalid for length 2"
    );
    assert_eq!(
        message(borrow(list_header(), ArrayHeader { values_is_null: true, ..values_header() }, 4)),
        "ivf_centroids.children[0] has length 8 but a NULL values buffer"
    );
    assert_eq!(
        message(borrow(ArrayHeader { length: i64::MAX, ..list_header() }, values_header(), 4)),
        "ivf_centroids (offset + length) * list_size overflows usize"
    );
    assert_eq!(
        message(borrow_model_array("m", &None, &None, model_type(4))),
        "m must not be NULL"
    );
    let other = Ok(ModelType::Other { text: "Int32".to_owned() });
    assert_eq!(
        message(borrow_model_array("m", &Some(list_header()), &None, other)),
        "m_schema must describe FixedSizeList, got Int32"
    );
}

#[test]
fn imported_models_have_no_nulls() {
    let model = |value_length: i32, offset: usize, len: usize| ModelArray {
        is_list: true,
        type_text: "list".to_owned(),
        null_count: 0,
        value_length,
        offset,
        len,
    };
    assert_eq!(fixed_size_list_model("m", &model(4, 1, 2)).ok().unwrap(), (4, 8));
    assert_eq!(
        message(fixed_size_list_model("m", &model(-1, 0, 2))),
        "m has invalid negative list_size -1"
    );
    assert_eq!(
        message(fixed_size_list_model("m", &model(2, usize::MAX, 2))),
        format!("m offset {} * list_size 2 overflows usize", usize::MAX)
    );
    let nulls = ModelArray { null_count: 1, ..model(4, 0, 2) };
    assert_eq!(
        message(fixed_size_list_model("m", &nulls)),
        "m must not contain NULL lists; null_count is 1"
    );
    assert!(check_model_values("m", 0).is_ok());
    assert_eq!(
        message(check_model_values("m", 2)),
        "m values must not contain NULLs; null_count is 2"
    );
}

type Builder = LanceIndexSegmentBuilder<&'static str, u8, &'static str>;

fn scalar_builder() -> Builder {
    let options = LanceIndexSegmentBuildOptions {
        fragment_ids: Some(vec![1]),
        fragment_count: 1,
        index_uuid: Some([7; 16]),
        ..options()
    };
    new_scalar_builder_inner(
        snapshot(),
        &text("id"),
        &text("id_idx"),
        1,
        &CStringArg::Null,
        Some(&options),
    )
    .ok()
    .unwrap()
}

#[test]
fn scalar_builders_keep_their_request() {
    let builder = scalar_builder();
    assert_eq!((builder.dataset, builder.column.as_str()), ("dataset", "id"));
    assert_eq!(builder.index_name.as_deref(), Some("id_idx"));
    assert!(matches!(
        builder.kind,
        SegmentKind::Scalar { scalar_type: LanceScalarIndexType::BTree, params_json: None }
    ));
    assert_eq!(builder.fragment_ids, Some(vec![1]));
    assert_eq!(builder.index_uuid, Some([7; 16]));

    let reject = |column: &CStringArg, index_type: i32| {
        let result: Result<Builder, LanceError> = new_scalar_builder_inner(
            snapshot(),
            column,
            &CStringArg::Null,
            index_type,
            &CStringArg::Null,
            None,
        );
        message(result)
    };
    assert_eq!(reject(&CStringArg::Null, 1), "dataset and column must not be NULL");
    assert_eq!(reject(&text(""), 1), "column must not be NULL or empty");
    assert_eq!(reject(&text("id"), 9), "invalid scalar index type: 9");
}

#[test]
fn builders_are_single_use() {
    let mut builder = scalar_builder();
    assert!(set_progress_callback_inner(Some(&mut builder), Some("progress")).is_ok());
    assert_eq!(
        message(set_progress_callback_inner(Some(&mut builder), None)),
        "progress callback must not be NULL"
    );
    let plan = execute_uncommitted_inner(Some(&mut builder), false).ok().unwrap();
    assert_eq!(plan.column, "id");
    assert!(matches!(plan.kind, PlannedKind::Scalar { .. }));
    assert_eq!(plan.fragments, Some(vec![1]));
    assert!(plan.reports_progress);
    assert_eq!(
        message(execute_uncommitted_inner(Some(&mut builder), false)),
        "index segment builder is single-use and has already been executed"
    );
    assert_eq!(
        message(set_progress_callback_inner(Some(&mut builder), Some("late"))),
        "progress callback must be set before the builder is executed"
    );
    assert_eq!(
        message(execute_uncommitted_inner::<&str, u8, &str>(None, false)),
        "builder must not be NULL"
    );
}

#[test]
fn rejected_outputs_use_up_the_builder() {
    let mut builder = scalar_builder();
    assert_eq!(
        message(execute_uncommitted_inner(Some(&mut builder), true)),
        "out_bytes and out_len must not be NULL"
    );
    assert_eq!(
        message(execute_uncommitted_inner(Some(&mut builder), false)),
        "index segment builder is single-use and has already been executed"
    );
}

#[test]
fn segment_bytes_need_memory() {
    let (mut bytes, mut len) = (Some("before"), 9);
    let failed = finish_uncommitted(
        Ok(EncodedMetadata { len: 5, allocation: None }),
        &mut bytes,
        &mut len,
    );
    let error = failed.err().unwrap();
    assert_eq!(error.code, LanceErrorCode::Internal);
    assert_eq!(error.message, "failed to allocate 5 metadata bytes");
    assert_eq!(
        message(finish_uncommitted(Err(LanceError::invalid("io")), &mut bytes, &mut len)),
        "io"
    );
    assert_eq!((bytes, len), (Some("before"), 9));
    let encoded = EncodedMetadata { len: 5, allocation: Some("after") };
    assert!(finish_uncommitted(Ok(encoded), &mut bytes, &mut len).is_ok());
    assert_eq!((bytes, len), (Some("after"), 5));
}

#[test]
fn failed_executions_leave_their_outputs_unwritten() {
    let mut last = LastError::new();
    let mut builder = scalar_builder();
    let (mut bytes, mut len) = (Some(1), 9);
    let encoded = || Ok(EncodedMetadata { len: 3, allocation: Some(2) });
    let status = lance_index_segment_builder_execute_uncommitted(
        &mut last,
        Some(&mut builder),
        Some(&mut bytes),
        None,
        encoded(),
    );
    assert_eq!(status, -1);
    assert_eq!(bytes, Some(1));
    let status = lance_index_segment_builder_execute_uncommitted(
        &mut last,
        Some(&mut builder),
        Some(&mut bytes),
        Some(&mut len),
        encoded(),
    );
    assert_eq!(status, -1);
    assert_eq!((bytes, len), (Some(1), 9));
    assert!(builder.executed);

    let mut builder = scalar_builder();
    let status = lance_index_segment_builder_execute_uncommitted(
        &mut last,
        Some(&mut builder),
        Some(&mut bytes),
        Some(&mut len),
        encoded(),
    );
    assert_eq!(status, 0);
    assert_eq!((bytes, len), (Some(2), 3));
    assert_eq!(last.code(), LanceErrorCode::Success);
}

fn model(kind: &str, metric: i32, len: usize, value_length: i32) -> SuppliedModel<u8> {
    SuppliedModel {
        provenance: ModelProvenance {
            kind: kind.to_owned(),
            metric,
            dimension: 4,
            ivf_id: [1; 16],
            num_sub_vectors: Some(2),
            num_bits: Some(8),
        },
        len,
        value_length,
        is_float32: true,
        type_text: "list".to_owned(),
        model: 1,
    }
}

fn build_vector(
    index_type: i32,
    metric: i32,
    options: &LanceIndexSegmentBuildOptions,
    centroids: Option<SuppliedModel<u8>>,
    codebook: Option<SuppliedModel<u8>>,
) -> Result<Builder, LanceError> {
    let options = LanceIndexSegmentBuildOptions {
        ivf_centroids_is_null: centroids.is_none(),
        ivf_centroids_schema_is_null: centroids.is_none(),
        pq_codebook_is_null: codebook.is_none(),
        pq_codebook_schema_is_null: codebook.is_none(),
        fragment_ids: options.fragment_ids.clone(),
        ..*options
    };
    let draft = draft_vector_builder(
        snapshot(),
        &text("v"),
        &CStringArg::Null,
        Some(params(index_type, metric)),
        Some(&options),
    )?;
    new_vector_builder_inner(
        draft,
        centroids.map(|model| Ok(model)),
        codebook.map(|model| Ok(model)),
        Ok(4),
        Ok(()),
    )
}

#[test]
fn vector_builders_accept_models_that_go_together() {
    let centroids = || Some(model("ivf", 0, 2, 4));
    let codebook = || Some(model("pq", 0, 512, 2));
    assert!(build_vector(103, 0, &options(), centroids(), codebook()).is_ok());
    assert!(build_vector(103, 0, &options(), None, None).is_ok());
    assert!(build_vector(101, 0, &options(), centroids(), None).is_ok());
    assert_eq!(
        message(build_vector(103, 0, &options(), centroids(), None)),
        "precomputed PQ segment builds require both ivf_centroids and pq_codebook"
    );
    assert_eq!(
        message(build_vector(101, 0, &options(), centroids(), codebook())),
        "pq_codebook is not valid for vector index type IvfFlat"
    );
    assert_eq!(
        message(build_vector(101, 1, &options(), centroids(), None)),
        "ivf_centroids provenance must be kind=ivf, metric=1, dimension=4; got kind=ivf, metric=0, dimension=4"
    );
    let mut foreign = model("pq", 0, 512, 2);
    foreign.provenance.ivf_id = [2; 16];
    assert_eq!(
        message(build_vector(103, 0, &options(), centroids(), Some(foreign))),
        "pq_codebook was not trained with the supplied ivf_centroids"
    );
    assert_eq!(
        message(build_vector(101, 0, &options(), Some(model("ivf", 0, 3, 4)), None)),
        "ivf_centroids length 3 does not match num_partitions 2"
    );
    assert_eq!(
        message(build_vector(103, 0, &options(), centroids(), Some(model("pq", 0, 511, 2)))),
        "pq_codebook must be FixedSizeList<Float32> with length 512 and list_size 2, got length 511, type list"
    );
    let train = LanceIndexSegmentBuildOptions { mode: 1, ..options() };
    assert_eq!(
        message(build_vector(101, 0, &train, centroids(), None)),
        "mode LOCAL_TRAIN does not accept precomputed model arrays"
    );
    let precomputed = LanceIndexSegmentBuildOptions { mode: 2, ..options() };
    assert_eq!(
        message(build_vector(101, 0, &precomputed, None, None)),
        "mode PRECOMPUTED requires precomputed model arrays"
    );
}

#[test]
fn dot_codebooks_need_the_whole_dataset() {
    let select = |ids: Vec<u32>| LanceIndexSegmentBuildOptions {
        fragment_count: ids.len(),
        fragment_ids: Some(ids),
        ..options()
    };
    let build = |options: &LanceIndexSegmentBuildOptions| {
        build_vector(103, 2, options, Some(model("ivf", 2, 2, 4)), Some(model("pq", 2, 512, 2)))
    };
    assert!(build(&options()).is_ok());
    assert!(build(&select(vec![2, 1, 0])).is_ok());
    let rejected = build(&select(vec![0, 2])).err().unwrap();
    assert!(rejected.message.starts_with(
        "pq_codebook is supplied for metric=DOT, index_type=IvfPq, mode=Auto, and an effective strict fragment subset (2 of 3 fragments)"
    ));
}

fn commit_request(segments: Vec<CommitSegment<u8>>) -> CommitRequest<u8> {
    CommitRequest {
        dataset_is_null: false,
        index_name: text("idx"),
        column: text("v"),
        segment_count: segments.len(),
        arrays_are_null: false,
        pointer_width: 8,
        segments,
    }
}

fn segment(decoded: Result<u8, String>, len: usize) -> CommitSegment<u8> {
    CommitSegment { is_null: false, pointer: "0x10".to_owned(), len, decoded }
}

#[test]
fn commits_need_decodable_segments() {
    let plan = commit_index_segments_inner(commit_request(vec![segment(Ok(4), 1)])).ok().unwrap();
    assert_eq!((plan.index_name.as_str(), plan.column.as_str()), ("idx", "v"));
    assert_eq!(plan.segments, vec![4]);
    assert_eq!(
        message(commit_index_segments_inner(commit_request(vec![]))),
        "segment_count must be > 0; at least one index segment is required to commit an index"
    );
    assert_eq!(
        message(commit_index_segments_inner(commit_request(vec![
            segment(Ok(4), 1),
            segment(Ok(5), 0)
        ]))),
        "segment_metadata_bytes[1] must be non-NULL and segment_metadata_lens[1] must be > 0; bytes=0x10, len=0"
    );
    assert_eq!(
        message(commit_index_segments_inner(commit_request(vec![segment(
            Err("bad".to_owned()),
            1
        )]))),
        "segment_metadata_bytes[0]: bad"
    );
    let nulls = CommitRequest {
        arrays_are_null: true,
        segment_count: 1,
        ..commit_request(vec![])
    };
    assert_eq!(
        message(commit_index_segments_inner(nulls)),
        "segment_metadata_bytes and segment_metadata_lens must not be NULL when segment_count is 1"
    );
    let unnamed = CommitRequest { index_name: text(""), ..commit_request(vec![segment(Ok(4), 1)]) };
    assert_eq!(
        message(commit_index_segments_inner(unnamed)),
        "index_name must not be NULL or empty"
    );
}

fn proto(created_at: Option<u64>, version: Option<i32>, fields: Vec<i32>) -> Result<IndexMetadataProto, String> {
    Ok(IndexMetadataProto { created_at, index_version: version, fields })
}

#[test]
fn metadata_timestamps_have_a_date() {
    let last = MAX_TIMESTAMP_MILLIS as u64;
    assert!(decode_segment_metadata(&proto(Some(0), None, vec![])).is_ok());
    assert!(decode_segment_metadata(&proto(Some(last), None, vec![])).is_ok());
    assert_eq!(
        message(decode_segment_metadata(&proto(Some(last + 1), None, vec![]))),
        format!("IndexMetadata created_at {} is outside chrono's supported range", last + 1)
    );
    assert_eq!(
        message(decode_segment_metadata(&proto(Some(u64::MAX), None, vec![]))),
        format!("IndexMetadata created_at {} exceeds i64::MAX milliseconds", u64::MAX)
    );
}

#[test]
fn metadata_numbers_are_not_negative() {
    assert_eq!(
        message(decode_segment_metadata(&proto(None, Some(-2), vec![]))),
        "IndexMetadata index_version must be >= 0, got -2"
    );
    assert_eq!(
        message(decode_segment_metadata(&proto(None, Some(2), vec![0, 3, -5]))),
        "IndexMetadata fields[2] must be >= 0, got -5"
    );
    assert_eq!(
        message(decode_segment_metadata(&Err("eof".to_owned()))),
        "invalid IndexMetadata protobuf: eof"
    );
}

fn converted(type_url: Option<&str>) -> ConvertedMetadata {
    ConvertedMetadata {
        uuid: [3; 16],
        name: "idx".to_owned(),
        dataset_version: 8,
        index_version: 1,
        fields: vec![5, 6],
        type_url: type_url.map(|url| url.to_owned()),
        fragment_ids: vec![0, 2, 4],
    }
}

fn request() -> ParseRequest {
    ParseRequest {
        bytes_is_null: false,
        bytes_pointer: "0x1".to_owned(),
        len: 4,
        out_is_null: false,
        out_pointer: "0x2".to_owned(),
    }
}

fn parsed(type_url: Option<&str>) -> LanceIndexSegmentMetadata {
    parse_metadata_inner(&request(), Ok(converted(type_url))).ok().unwrap()
}

#[test]
fn metadata_is_parsed_once_its_arguments_are_there() {
    let empty = ParseRequest { len: 0, ..request() };
    assert_eq!(
        message(parse_metadata_inner(&empty, Ok(converted(None)))),
        "bytes must be non-NULL, len must be > 0, and out_metadata must be non-NULL; bytes=0x1, len=0, out_metadata=0x2"
    );
    let named = ConvertedMetadata { name: "a\0b".to_owned(), ..converted(None) };
    assert_eq!(
        message(parse_metadata_inner(&request(), Ok(named))),
        "index metadata name contains an embedded NUL byte"
    );
    assert_eq!(
        message(parse_metadata_inner(&request(), Ok(converted(Some("a\0"))))),
        "index details type_url contains an embedded NUL byte"
    );
}

#[test]
fn metadata_is_read_field_by_field() {
    let mut last = LastError::new();
    let metadata = parsed(Some("/lance.table.BTreeIndexDetails"));
    let mut uuid = [0; 16];
    let status = lance_index_segment_metadata_uuid(&mut last, Some(&metadata), Some(&mut uuid));
    assert_eq!((status, uuid), (0, [3; 16]));
    assert_eq!(lance_index_segment_metadata_name(&mut last, Some(&metadata)), Some("idx"));
    assert_eq!(lance_index_segment_metadata_dataset_version(&mut last, Some(&metadata)), 8);
    assert_eq!(lance_index_segment_metadata_index_version(&mut last, Some(&metadata)), 1);
    assert_eq!(lance_index_segment_metadata_field_count(&mut last, Some(&metadata)), 2);
    assert_eq!(lance_index_segment_metadata_fragment_count(&mut last, Some(&metadata)), 3);
    assert_eq!(
        lance_index_segment_metadata_index_details_type_url(&mut last, Some(&metadata)),
        Some("/lance.table.BTreeIndexDetails")
    );
    assert_eq!(last.code(), LanceErrorCode::Success);
    assert_eq!(lance_index_segment_metadata_name(&mut last, None), None);
    assert!(last.message().starts_with("Invalid user input: metadata is NULL, "));
}

#[test]
fn metadata_lists_are_copied_into_room_enough() {
    let mut last = LastError::new();
    let metadata = parsed(None);
    let mut count = 0;
    let mut fields = vec![0; 4];
    let status = lance_index_segment_metadata_field_ids(
        &mut last,
        Some(&metadata),
        Some(&mut fields),
        4,
        Some(&mut count),
    );
    assert_eq!((status, count), (0, 2));
    assert_eq!(fields, vec![5, 6, 0, 0]);

    let mut fragments = vec![9; 2];
    let status = lance_index_segment_metadata_fragment_ids(
        &mut last,
        Some(&metadata),
        Some(&mut fragments),
        2,
        Some(&mut count),
    );
    assert_eq!((status, count), (-1, 2));
    assert!(last.message().starts_with("Invalid user input: capacity 2 is smaller than fragment_count 3, "));
    assert_eq!(fragments, vec![9, 9]);
    let status = lance_index_segment_metadata_fragment_ids(
        &mut last,
        Some(&metadata),
        None,
        3,
        Some(&mut count),
    );
    assert_eq!(status, -1);
    assert!(last.message().starts_with("Invalid user input: out_fragment_ids is NULL but fragment_count is 3, "));
}

#[test]
fn type_urls_name_index_types() {
    let mut last = LastError::new();
    let none = || Err("not read".to_owned());
    for (url, raw) in [
        ("x.BTreeIndexDetails", 1),
        ("x.BitmapIndexDetails", 2),
        ("x.LabelListIndexDetails", 3),
        ("x.InvertedIndexDetails", 4),
    ] {
        let metadata = parsed(Some(url));
        assert_eq!(
            lance_index_segment_metadata_index_type(&mut last, Some(&metadata), none()),
            raw
        );
    }
    let vector = parsed(Some("x.VectorIndexDetails"));
    for (hnsw, compression, raw) in [
        (false, None, 101),
        (false, Some(Compression::Flat), 101),
        (false, Some(Compression::Sq), 102),
        (false, Some(Compression::Pq), 103),
        (true, Some(Compression::Sq), 104),
        (true, Some(Compression::Pq), 105),
        (true, None, 106),
    ] {
        let details = Ok(VectorDetails { hnsw, compression });
        let got = lance_index_segment_metadata_index_type(&mut last, Some(&vector), details);
        assert_eq!(got, raw);
    }
    let rabit = Ok(VectorDetails { hnsw: false, compression: Some(Compression::Rq) });
    assert_eq!(lance_index_segment_metadata_index_type(&mut last, Some(&vector), rabit), -1);
    assert_eq!(last.code(), LanceErrorCode::NotSupported);
    assert_eq!(lance_index_segment_metadata_index_type(&mut last, Some(&vector), none()), -1);
    assert!(last.message().starts_with("Invalid user input: invalid VectorIndexDetails protobuf: not read, "));
    let unknown = parsed(Some("x.Other"));
    assert_eq!(lance_index_segment_metadata_index_type(&mut last, Some(&unknown), none()), -1);
    assert!(last.message().starts_with("Not supported: unsupported index_details type_url 'x.Other', "));
    let bare = parsed(None);
    assert_eq!(lance_index_segment_metadata_index_type(&mut last, Some(&bare), none()), -1);
    assert!(last
        .message()
        .starts_with("Invalid user input: index metadata does not contain index_details, "));
    assert!(lance_index_segment_metadata_index_details_type_url(&mut last, Some(&bare)).is_none());
    assert_eq!(last.code(), LanceErrorCode::IndexError);
    assert!(last
        .message()
        .starts_with("Lance index not found: index metadata does not contain index_details, "));
}
