//! Plans of scans: the order of their steps, filters, fragments and statistics.

use lance_c::error::LanceErrorCode;
use lance_c::index::LanceMetricType;
use lance_c::scan_plan::{
    apply_filter, apply_fragment_filter, build_scanner, check_replaced, replace_match_query_exec,
    same_uuid, scan_statistics, select_fts_segments, Conjunct, ExecutionSummary, FilterPlan,
    LanceScanMetricKind, PlanNode, ScanRejection, ScanStep,
};
use lance_c::scanner::{FtsContext, FtsQuery, LanceDataType, LanceScanner, NearestQuery};

fn nearest() -> Option<NearestQuery> {
    Some(NearestQuery {
        column: "v".to_owned(),
        element_type: LanceDataType::Float32,
        query: vec![0; 8],
        k: 1,
    })
}

#[test]
fn a_plain_scan_applies_its_filter_alone() {
    let mut scanner = LanceScanner::new();
    assert_eq!(build_scanner(&mut scanner), vec![ScanStep::Filter]);
    assert!(scanner.scan_started);
}

#[test]
fn steps_come_in_a_fixed_order() {
    let mut scanner = LanceScanner::new();
    scanner.columns = Some(vec!["id".to_owned()]);
    scanner.limit = Some(3);
    scanner.batch_size = Some(10);
    scanner.with_row_id = true;
    scanner.fragment_ids = Some(vec![1]);
    scanner.prefilter = true;
    scanner.nearest = nearest();
    scanner.nprobes = Some(1);
    scanner.refine_factor = Some(2);
    scanner.ef = Some(3);
    scanner.metric_override = Some(LanceMetricType::Dot);
    scanner.use_index = Some(true);
    scanner.index_segments = Some(vec![[1; 16]]);
    scanner.statistics_callback = Some(1);
    assert_eq!(
        build_scanner(&mut scanner),
        vec![
            ScanStep::Project,
            ScanStep::Filter,
            ScanStep::Limit { limit: Some(3), offset: None },
            ScanStep::BatchSize(10),
            ScanStep::WithRowId,
            ScanStep::Fragments,
            ScanStep::Prefilter,
            ScanStep::Nearest,
            ScanStep::Nprobes(1),
            ScanStep::Refine(2),
            ScanStep::Ef(3),
            ScanStep::DistanceMetric(LanceMetricType::Dot),
            ScanStep::UseIndex(true),
            ScanStep::IndexSegments,
            ScanStep::StatisticsCallback,
        ]
    );
}

#[test]
fn query_options_are_nothing_without_a_query() {
    let mut scanner = LanceScanner::new();
    scanner.nprobes = Some(1);
    scanner.use_index = Some(false);
    scanner.fts_query =
        Some(FtsQuery { query: "q".to_owned(), columns: None, max_fuzzy_distance: None });
    assert_eq!(build_scanner(&mut scanner), vec![ScanStep::Filter, ScanStep::FullTextSearch]);
}

#[test]
fn contexts_are_validated_before_they_search() {
    let mut scanner = LanceScanner::new();
    scanner.fts_context = Some(FtsContext { segments: vec![[1; 16]], dataset_version: 1 });
    assert_eq!(
        build_scanner(&mut scanner),
        vec![
            ScanStep::Filter,
            ScanStep::ValidateContext,
            ScanStep::SelectFtsSegments,
            ScanStep::ContextSearch,
            ScanStep::FastSearch,
        ]
    );
}

#[test]
fn broken_rules_end_the_build() {
    let mut scanner = LanceScanner::new();
    scanner.index_segments = Some(vec![[1; 16]]);
    scanner.fts_index_segments = Some(vec![[1; 16]]);
    assert_eq!(
        build_scanner(&mut scanner).pop(),
        Some(ScanStep::Reject(ScanRejection::IndexSegmentsWithoutNearest))
    );
    scanner.index_segments = None;
    assert_eq!(
        build_scanner(&mut scanner).pop(),
        Some(ScanStep::Reject(ScanRejection::FtsSegmentsWithoutContext))
    );
    scanner.fts_context = Some(FtsContext { segments: vec![[1; 16]], dataset_version: 1 });
    scanner.fragment_ids = Some(vec![0]);
    assert_eq!(
        build_scanner(&mut scanner).pop(),
        Some(ScanStep::Reject(ScanRejection::FragmentsWithContext))
    );
    assert_eq!(
        ScanRejection::IndexSegmentsWithoutNearest.to_error().message,
        "index_segments requires nearest() to be configured"
    );
    assert_eq!(
        ScanRejection::FtsSegmentsWithoutContext.to_error().message,
        "fts_index_segments requires an FTS query context"
    );
    assert_eq!(
        ScanRejection::FragmentsWithContext.to_error().message,
        "fragment_ids cannot be combined with an FTS query context; split the query by FTS index segment UUID instead"
    );
}

#[test]
fn filters_are_joined() {
    let mut scanner = LanceScanner::new();
    assert!(matches!(apply_filter(&scanner), FilterPlan::Nothing));
    scanner.filter = Some("a = 1".to_owned());
    assert!(matches!(apply_filter(&scanner), FilterPlan::Sql));
    scanner.substrait_filter = Some(vec![1]);
    assert!(matches!(apply_filter(&scanner), FilterPlan::Substrait));
    scanner.additional_sql_filters = vec!["b = 2".to_owned(), "c = 3".to_owned()];
    let FilterPlan::Conjunction(list) = apply_filter(&scanner) else {
        panic!("several filters form a conjunction");
    };
    assert_eq!(
        list,
        vec![Conjunct::Substrait, Conjunct::Additional(0), Conjunct::Additional(1)]
    );
    scanner.substrait_filter = None;
    scanner.filter = None;
    let FilterPlan::Conjunction(list) = apply_filter(&scanner) else {
        panic!("additional filters form a conjunction");
    };
    assert_eq!(list, vec![Conjunct::Additional(0), Conjunct::Additional(1)]);
}

#[test]
fn fragments_are_selected_in_the_order_of_the_dataset() {
    assert_eq!(apply_fragment_filter(&vec![4, 5, 6, 7], &vec![7, 5, 99, 5]), vec![1, 3]);
    assert!(apply_fragment_filter(&vec![4, 5], &vec![]).is_empty());
}

#[test]
fn context_segments_are_selected_in_the_order_of_the_request() {
    let segments = vec![[1; 16], [2; 16], [3; 16]];
    assert_eq!(select_fts_segments(&segments, 5, None).ok().unwrap(), vec![0, 1, 2]);
    let selected = vec![[3; 16], [1; 16]];
    assert_eq!(select_fts_segments(&segments, 5, Some(&selected)).ok().unwrap(), vec![2, 0]);
    let unknown = vec![[1; 16], [0xab; 16]];
    let error = select_fts_segments(&segments, 5, Some(&unknown)).err().unwrap();
    assert!(
        error.message.contains("abababab-abab-abab-abab-abababababab"),
        "got: {}",
        error.message
    );
    assert!(same_uuid(&[1; 16], &[1; 16]));
    assert!(!same_uuid(&[1; 16], &[2; 16]));
}

fn plan_node(id: usize, is_match_query: bool, children: Vec<PlanNode>) -> PlanNode {
    PlanNode { id, is_match_query, replaced: false, children }
}

#[test]
fn match_queries_are_replaced_wherever_they_stand() {
    let plan = plan_node(
        0,
        false,
        vec![plan_node(1, true, vec![plan_node(2, false, vec![])]), plan_node(3, true, vec![])],
    );
    let (replaced, count) = replace_match_query_exec(&plan);
    assert_eq!(count, 2);
    assert!(!replaced.replaced);
    assert!(replaced.children[0].replaced);
    assert!(replaced.children[1].replaced);
    assert!(check_replaced(1).is_ok());
    let error = check_replaced(2).err().unwrap();
    assert_eq!(error.code, LanceErrorCode::Internal);
    assert_eq!(
        error.message,
        "expected exactly one MatchQueryExec in prepared FTS plan, replaced 2"
    );
    assert!(check_replaced(0).is_err());
}

#[test]
fn statistics_list_counters_before_times() {
    let counts = ExecutionSummary {
        iops: 1,
        requests: 2,
        bytes_read: 3,
        indices_loaded: 4,
        parts_loaded: 5,
        index_comparisons: 6,
        all_counts: vec![("rows".to_owned(), 7)],
        all_times: vec![("elapsed".to_owned(), 8)],
    };
    let statistics = scan_statistics(&counts, true);
    assert_eq!((statistics.iops, statistics.requests, statistics.bytes_read), (1, 2, 3));
    assert_eq!(
        (
            statistics.indices_loaded,
            statistics.index_partitions_loaded,
            statistics.index_comparisons
        ),
        (4, 5, 6)
    );
    assert_eq!(statistics.metrics.len(), 2);
    assert_eq!(statistics.metrics[0].name, "rows");
    assert_eq!(statistics.metrics[0].kind, LanceScanMetricKind::Count);
    assert_eq!(statistics.metrics[1].name, "elapsed");
    assert_eq!(statistics.metrics[1].kind, LanceScanMetricKind::TimeNanoseconds);
    assert_eq!(statistics.metrics[1].value, 8);
    assert!(scan_statistics(&counts, false).metrics.is_empty());
}
