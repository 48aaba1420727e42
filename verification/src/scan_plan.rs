//! From a scanner's configuration to the steps that build its scan.
//!
//! `build_scanner` gives the steps in the order in which they must be taken.
//! The caller takes them one by one; the first step that fails ends the build,
//! so a rejection that stands later in the list is reached only when everything
//! before it succeeded.

use std::collections::HashSet;

use vstd::prelude::*;
use vstd::string::StringExecFns;

use crate::error;
use crate::error::LanceError;
use crate::index::LanceMetricType;
use crate::scanner;
use crate::scanner::{LanceScanner, ScannerModel};
use crate::segment_options::id_set;
use crate::text;

verus! {

/// Why a configuration cannot be scanned.
#[derive(Clone, Copy, Debug, PartialEq, Eq, Structural)]
pub enum ScanRejection {
    /// Index segments are selected without a vector query.
    IndexSegmentsWithoutNearest,
    /// Full-text segments are selected without a query context.
    FtsSegmentsWithoutContext,
    /// Fragments are selected together with a query context.
    FragmentsWithContext,
}

impl ScanRejection {
    /// The text of this rejection.
    pub open spec fn text(self) -> Seq<char> {
        match self {
            ScanRejection::IndexSegmentsWithoutNearest =>
                "index_segments requires nearest() to be configured"@,
            ScanRejection::FtsSegmentsWithoutContext =>
                "fts_index_segments requires an FTS query context"@,
            ScanRejection::FragmentsWithContext =>
                "fragment_ids cannot be combined with an FTS query context; split the query by FTS index segment UUID instead"@,
        }
    }

    /// The failure that a rejection reports.
    pub fn to_error(self) -> (error: LanceError)
        ensures
            error@ == error::invalid(self.text()),
    {
        match self {
            ScanRejection::IndexSegmentsWithoutNearest => LanceError::invalid(
                "index_segments requires nearest() to be configured",
            ),
            ScanRejection::FtsSegmentsWithoutContext => LanceError::invalid(
                "fts_index_segments requires an FTS query context",
            ),
            ScanRejection::FragmentsWithContext => LanceError::invalid(
                "fragment_ids cannot be combined with an FTS query context; split the query by FTS index segment UUID instead",
            ),
        }
    }
}

/// One step of building a scan. Steps without data take it from the scanner.
#[derive(Clone, Copy, Debug, PartialEq, Eq, Structural)]
pub enum ScanStep {
    /// Project the columns.
    Project,
    /// Apply the filter, if there is one.
    Filter,
    /// Set limit and offset.
    Limit { limit: Option<i64>, offset: Option<i64> },
    /// Set the batch size.
    BatchSize(usize),
    /// Return row ids.
    WithRowId,
    /// Restrict the scan to the selected fragments.
    Fragments,
    /// End the build with a failure.
    Reject(ScanRejection),
    /// Filter before the search.
    Prefilter,
    /// Install the vector query.
    Nearest,
    /// Set the partitions to probe.
    Nprobes(u32),
    /// Set the refine factor.
    Refine(u32),
    /// Set the breadth of a graph search.
    Ef(u32),
    /// Set the distance metric.
    DistanceMetric(LanceMetricType),
    /// Say whether an index is used.
    UseIndex(bool),
    /// Restrict the vector query to index segments.
    IndexSegments,
    /// Install the full-text query.
    FullTextSearch,
    /// Check that the context belongs to the dataset.
    ValidateContext,
    /// Choose the context's segments.
    SelectFtsSegments,
    /// Install the context's query.
    ContextSearch,
    /// Search committed segments alone.
    FastSearch,
    /// Register the statistics callback.
    StatisticsCallback,
}

/// A step that is taken under a condition.
pub open spec fn when(condition: bool, step: ScanStep) -> Seq<ScanStep> {
    if condition {
        seq![step]
    } else {
        Seq::empty()
    }
}

/// The steps that every scan starts with.
pub open spec fn opening_steps(scanner: ScannerModel) -> Seq<ScanStep> {
    when(scanner.columns is Some, ScanStep::Project) + seq![ScanStep::Filter] + when(
        scanner.limit is Some || scanner.offset is Some,
        ScanStep::Limit { limit: scanner.limit, offset: scanner.offset },
    ) + when(scanner.batch_size is Some, ScanStep::BatchSize(scanner.batch_size->0)) + when(
        scanner.with_row_id,
        ScanStep::WithRowId,
    ) + when(scanner.fragment_ids is Some, ScanStep::Fragments)
}

/// The first rule that the configuration breaks.
pub open spec fn rejection(scanner: ScannerModel) -> Option<ScanRejection> {
    if scanner.index_segments is Some && scanner.nearest is None {
        Some(ScanRejection::IndexSegmentsWithoutNearest)
    } else if scanner.fts_index_segments is Some && scanner.fts_context is None {
        Some(ScanRejection::FtsSegmentsWithoutContext)
    } else if scanner.fts_context is Some && scanner.fragment_ids is Some {
        Some(ScanRejection::FragmentsWithContext)
    } else {
        None
    }
}

/// A vector query and how far it looks.
pub open spec fn query_steps(scanner: ScannerModel) -> Seq<ScanStep> {
    seq![ScanStep::Nearest] + when(
        scanner.nprobes is Some,
        ScanStep::Nprobes(scanner.nprobes->0),
    ) + when(scanner.refine_factor is Some, ScanStep::Refine(scanner.refine_factor->0)) + when(
        scanner.ef is Some,
        ScanStep::Ef(scanner.ef->0),
    )
}

/// What a vector query searches in.
pub open spec fn query_index_steps(scanner: ScannerModel) -> Seq<ScanStep> {
    when(
        scanner.metric_override is Some,
        ScanStep::DistanceMetric(scanner.metric_override->0),
    ) + when(scanner.use_index is Some, ScanStep::UseIndex(scanner.use_index->0)) + when(
        scanner.index_segments is Some,
        ScanStep::IndexSegments,
    )
}

/// The steps of a vector query.
#[verifier::opaque]
pub open spec fn nearest_steps(scanner: ScannerModel) -> Seq<ScanStep> {
    if scanner.nearest is None {
        Seq::empty()
    } else {
        query_steps(scanner) + query_index_steps(scanner)
    }
}

/// The steps of a search with an attached context.
pub open spec fn context_steps(scanner: ScannerModel) -> Seq<ScanStep> {
    if scanner.fts_context is None {
        Seq::empty()
    } else {
        seq![
            ScanStep::ValidateContext,
            ScanStep::SelectFtsSegments,
            ScanStep::ContextSearch,
            ScanStep::FastSearch,
        ]
    }
}

/// The steps of a search, after the rules are checked. The prefilter comes
/// before the vector query, which looks at it when it is installed.
pub open spec fn search_steps(scanner: ScannerModel) -> Seq<ScanStep> {
    when(scanner.prefilter, ScanStep::Prefilter) + nearest_steps(scanner) + when(
        scanner.fts_query is Some,
        ScanStep::FullTextSearch,
    ) + context_steps(scanner) + when(
        scanner.statistics_callback is Some,
        ScanStep::StatisticsCallback,
    )
}

/// All steps of a scan.
pub open spec fn scan_steps(scanner: ScannerModel) -> Seq<ScanStep> {
    match rejection(scanner) {
        Some(rejection) => opening_steps(scanner) + seq![ScanStep::Reject(rejection)],
        None => opening_steps(scanner) + search_steps(scanner),
    }
}

fn push_query_steps(steps: &mut Vec<ScanStep>, scanner: &LanceScanner)
    ensures
        final(steps)@ == old(steps)@ + query_steps(scanner@),
{
    let ghost before = steps@;
    steps.push(ScanStep::Nearest);
    if let Some(value) = scanner.nprobes {
        steps.push(ScanStep::Nprobes(value));
    }
    if let Some(value) = scanner.refine_factor {
        steps.push(ScanStep::Refine(value));
    }
    if let Some(value) = scanner.ef {
        steps.push(ScanStep::Ef(value));
    }
    assert(steps@ =~= before + query_steps(scanner@));
}

fn push_query_index_steps(steps: &mut Vec<ScanStep>, scanner: &LanceScanner)
    ensures
        final(steps)@ == old(steps)@ + query_index_steps(scanner@),
{
    let ghost before = steps@;
    if let Some(metric) = scanner.metric_override {
        steps.push(ScanStep::DistanceMetric(metric));
    }
    if let Some(use_index) = scanner.use_index {
        steps.push(ScanStep::UseIndex(use_index));
    }
    if scanner.index_segments.is_some() {
        steps.push(ScanStep::IndexSegments);
    }
    assert(steps@ =~= before + query_index_steps(scanner@));
}

fn push_nearest_steps(steps: &mut Vec<ScanStep>, scanner: &LanceScanner)
    ensures
        final(steps)@ == old(steps)@ + nearest_steps(scanner@),
{
    reveal(nearest_steps);
    let ghost before = steps@;
    if scanner.nearest.is_none() {
        assert(steps@ =~= before + nearest_steps(scanner@));
        return;
    }
    push_query_steps(steps, scanner);
    push_query_index_steps(steps, scanner);
    let ghost first = query_steps(scanner@);
    let ghost second = query_index_steps(scanner@);
    assert(before + first + second =~= before + (first + second));
}

fn push_opening_steps(steps: &mut Vec<ScanStep>, scanner: &LanceScanner)
    ensures
        final(steps)@ == old(steps)@ + opening_steps(scanner@),
{
    let ghost before = steps@;
    if scanner.columns.is_some() {
        steps.push(ScanStep::Project);
    }
    steps.push(ScanStep::Filter);
    if scanner.limit.is_some() || scanner.offset.is_some() {
        steps.push(ScanStep::Limit { limit: scanner.limit, offset: scanner.offset });
    }
    if let Some(batch_size) = scanner.batch_size {
        steps.push(ScanStep::BatchSize(batch_size));
    }
    if scanner.with_row_id {
        steps.push(ScanStep::WithRowId);
    }
    if scanner.fragment_ids.is_some() {
        steps.push(ScanStep::Fragments);
    }
    assert(steps@ =~= before + opening_steps(scanner@));
}

fn push_when(steps: &mut Vec<ScanStep>, wanted: bool, step: ScanStep)
    ensures
        final(steps)@ == old(steps)@ + when(wanted, step),
{
    let ghost before = steps@;
    if wanted {
        steps.push(step);
    }
    assert(steps@ =~= before + when(wanted, step));
}

fn push_context_steps(steps: &mut Vec<ScanStep>, scanner: &LanceScanner)
    ensures
        final(steps)@ == old(steps)@ + context_steps(scanner@),
{
    let ghost before = steps@;
    if scanner.fts_context.is_some() {
        steps.push(ScanStep::ValidateContext);
        steps.push(ScanStep::SelectFtsSegments);
        steps.push(ScanStep::ContextSearch);
        steps.push(ScanStep::FastSearch);
    }
    assert(steps@ =~= before + context_steps(scanner@));
}

proof fn lemma_five_joined(
    before: Seq<ScanStep>,
    first: Seq<ScanStep>,
    second: Seq<ScanStep>,
    third: Seq<ScanStep>,
    fourth: Seq<ScanStep>,
    fifth: Seq<ScanStep>,
)
    ensures
        before + first + second + third + fourth + fifth == before + (first + second + third
            + fourth + fifth),
{
    assert(before + first + second + third + fourth + fifth =~= before + (first + second + third
        + fourth + fifth));
}

fn push_search_steps(steps: &mut Vec<ScanStep>, scanner: &LanceScanner)
    ensures
        final(steps)@ == old(steps)@ + search_steps(scanner@),
{
    proof {
        lemma_five_joined(
            steps@,
            when(scanner@.prefilter, ScanStep::Prefilter),
            nearest_steps(scanner@),
            when(scanner@.fts_query is Some, ScanStep::FullTextSearch),
            context_steps(scanner@),
            when(scanner@.statistics_callback is Some, ScanStep::StatisticsCallback),
        );
    }
    push_when(steps, scanner.prefilter, ScanStep::Prefilter);
    push_nearest_steps(steps, scanner);
    push_when(steps, scanner.fts_query.is_some(), ScanStep::FullTextSearch);
    push_context_steps(steps, scanner);
    push_when(steps, scanner.statistics_callback.is_some(), ScanStep::StatisticsCallback);
}

/// The first rule that the configuration breaks.
fn find_rejection(scanner: &LanceScanner) -> (found: Option<ScanRejection>)
    ensures
        found == rejection(scanner@),
{
    if scanner.index_segments.is_some() && scanner.nearest.is_none() {
        Some(ScanRejection::IndexSegmentsWithoutNearest)
    } else if scanner.fts_index_segments.is_some() && scanner.fts_context.is_none() {
        Some(ScanRejection::FtsSegmentsWithoutContext)
    } else if scanner.fts_context.is_some() && scanner.fragment_ids.is_some() {
        Some(ScanRejection::FragmentsWithContext)
    } else {
        None
    }
}

/// Starts a scan: notes that it has started and gives its steps.
pub fn build_scanner(scanner: &mut LanceScanner) -> (steps: Vec<ScanStep>)
    ensures
        final(scanner)@ == (ScannerModel { scan_started: true, ..old(scanner)@ }),
        steps@ == scan_steps(old(scanner)@),
{
    let mut steps: Vec<ScanStep> = Vec::new();
    push_opening_steps(&mut steps, scanner);
    proof {
        lemma_nothing_before(opening_steps(scanner@));
    }
    match find_rejection(scanner) {
        Some(rejection) => {
            steps.push(ScanStep::Reject(rejection));
            proof {
                lemma_push_is_append(opening_steps(scanner@), ScanStep::Reject(rejection));
            }
        },
        None => {
            push_search_steps(&mut steps, scanner);
        },
    }
    scanner.scan_started = true;
    steps
}

proof fn lemma_nothing_before(steps: Seq<ScanStep>)
    ensures
        Seq::<ScanStep>::empty() + steps == steps,
{
    assert(Seq::<ScanStep>::empty() + steps =~= steps);
}

proof fn lemma_push_is_append(steps: Seq<ScanStep>, step: ScanStep)
    ensures
        steps.push(step) == steps + seq![step],
{
    assert(steps.push(step) =~= steps + seq![step]);
}

/// Whether no step ends the build, sets the prefilter or installs the query.
spec fn plain(steps: Seq<ScanStep>) -> bool {
    forall|i: int|
        0 <= i < steps.len() ==> !(#[trigger] steps[i] is Reject) && steps[i] != ScanStep::Prefilter
            && steps[i] != ScanStep::Nearest
}

proof fn lemma_plain_joined(a: Seq<ScanStep>, b: Seq<ScanStep>)
    requires
        plain(a),
        plain(b),
    ensures
        plain(a + b),
{
    assert forall|i: int| 0 <= i < (a + b).len() implies !(#[trigger] (a + b)[i] is Reject) && (a
        + b)[i] != ScanStep::Prefilter && (a + b)[i] != ScanStep::Nearest by {
        if i < a.len() {
            assert((a + b)[i] == a[i]);
        } else {
            assert((a + b)[i] == b[i - a.len()]);
        }
    }
}

proof fn lemma_opening_plain(scanner: ScannerModel)
    ensures
        plain(opening_steps(scanner)),
{
    let s1 = when(scanner.columns is Some, ScanStep::Project);
    let s2 = s1 + seq![ScanStep::Filter];
    let limit = when(
        scanner.limit is Some || scanner.offset is Some,
        ScanStep::Limit { limit: scanner.limit, offset: scanner.offset },
    );
    let batch = when(scanner.batch_size is Some, ScanStep::BatchSize(scanner.batch_size->0));
    let row_id = when(scanner.with_row_id, ScanStep::WithRowId);
    let fragments = when(scanner.fragment_ids is Some, ScanStep::Fragments);
    lemma_plain_joined(s1, seq![ScanStep::Filter]);
    lemma_plain_joined(s2, limit);
    lemma_plain_joined(s2 + limit, batch);
    lemma_plain_joined(s2 + limit + batch, row_id);
    lemma_plain_joined(s2 + limit + batch + row_id, fragments);
}

proof fn lemma_query_then_plain(scanner: ScannerModel)
    ensures
        query_steps(scanner).len() > 0,
        query_steps(scanner)[0] == ScanStep::Nearest,
        plain(query_steps(scanner).skip(1)),
{
    let head = seq![ScanStep::Nearest];
    let s1 = when(scanner.nprobes is Some, ScanStep::Nprobes(scanner.nprobes->0));
    let refine = when(scanner.refine_factor is Some, ScanStep::Refine(scanner.refine_factor->0));
    let ef = when(scanner.ef is Some, ScanStep::Ef(scanner.ef->0));
    lemma_plain_joined(s1, refine);
    lemma_plain_joined(s1 + refine, ef);
    assert(query_steps(scanner) =~= head + (s1 + refine + ef));
    assert(query_steps(scanner).skip(1) =~= s1 + refine + ef);
}

proof fn lemma_query_index_plain(scanner: ScannerModel)
    ensures
        plain(query_index_steps(scanner)),
{
    let s1 = when(
        scanner.metric_override is Some,
        ScanStep::DistanceMetric(scanner.metric_override->0),
    );
    let use_index = when(scanner.use_index is Some, ScanStep::UseIndex(scanner.use_index->0));
    let segments = when(scanner.index_segments is Some, ScanStep::IndexSegments);
    lemma_plain_joined(s1, use_index);
    lemma_plain_joined(s1 + use_index, segments);
}

/// The steps of a vector query are the query, then plain steps.
proof fn lemma_nearest_then_plain(scanner: ScannerModel)
    requires
        scanner.nearest is Some,
    ensures
        nearest_steps(scanner).len() > 0,
        nearest_steps(scanner)[0] == ScanStep::Nearest,
        plain(nearest_steps(scanner).skip(1)),
{
    reveal(nearest_steps);
    lemma_query_then_plain(scanner);
    lemma_query_index_plain(scanner);
    let query = query_steps(scanner);
    let index = query_index_steps(scanner);
    lemma_plain_joined(query.skip(1), index);
    assert((query + index).skip(1) =~= query.skip(1) + index);
}

/// A scan without a broken rule is: plain steps, perhaps the prefilter, perhaps
/// the query, and plain steps.
proof fn lemma_search_shape(scanner: ScannerModel, i: int)
    requires
        rejection(scanner) is None,
        0 <= i < scan_steps(scanner).len(),
    ensures
        ({
            let start = opening_steps(scanner).len() as int;
            let query = start + when(scanner.prefilter, ScanStep::Prefilter).len();
            let step = scan_steps(scanner)[i];
            &&& !(step is Reject)
            &&& step == ScanStep::Prefilter ==> i == start && scanner.prefilter
            &&& step == ScanStep::Nearest ==> i == query
        }),
{
    lemma_opening_plain(scanner);
    let opening = opening_steps(scanner);
    let first = when(scanner.prefilter, ScanStep::Prefilter);
    let second = nearest_steps(scanner);
    let third = when(scanner.fts_query is Some, ScanStep::FullTextSearch);
    let fourth = context_steps(scanner);
    let fifth = when(scanner.statistics_callback is Some, ScanStep::StatisticsCallback);
    lemma_plain_joined(third, fourth);
    lemma_plain_joined(third + fourth, fifth);
    let rest = third + fourth + fifth;
    assert(search_steps(scanner) =~= first + second + rest);
    let all = opening + (first + second + rest);
    assert(scan_steps(scanner) =~= all);
    if scanner.nearest is Some {
        lemma_nearest_then_plain(scanner);
    } else {
        reveal(nearest_steps);
    }
    let j = i - opening.len();
    if j < 0 {
        assert(all[i] == opening[i]);
    } else if j < first.len() {
        assert(all[i] == first[j]);
    } else if j < first.len() + second.len() {
        let k = j - first.len();
        assert(all[i] == second[k]);
        if k > 0 {
            assert(second[k] == second.skip(1)[k - 1]);
        }
    } else {
        assert(all[i] == rest[j - first.len() - second.len()]);
    }
}

/// A scan that breaks no rule takes no step that ends its build, and one that
/// breaks a rule ends with the first that it breaks.
pub proof fn law_scan_is_rejected_by_its_first_broken_rule(scanner: ScannerModel, i: int)
    requires
        0 <= i < scan_steps(scanner).len(),
    ensures
        scan_steps(scanner)[i] is Reject ==> i == scan_steps(scanner).len() - 1 && rejection(
            scanner,
        ) == Some(scan_steps(scanner)[i]->Reject_0),
        rejection(scanner) matches Some(rule) ==> scan_steps(scanner).last() == ScanStep::Reject(
            rule,
        ),
{
    if rejection(scanner) is None {
        lemma_search_shape(scanner, i);
    } else {
        lemma_opening_plain(scanner);
        let opening = opening_steps(scanner);
        if i < opening.len() {
            assert(scan_steps(scanner)[i] == opening[i]);
        }
    }
}

/// The prefilter is set before the vector query is installed.
pub proof fn law_prefilter_precedes_the_query(scanner: ScannerModel, i: int, j: int)
    requires
        0 <= i < scan_steps(scanner).len(),
        0 <= j < scan_steps(scanner).len(),
        scan_steps(scanner)[i] == ScanStep::Prefilter,
        scan_steps(scanner)[j] == ScanStep::Nearest,
    ensures
        i < j,
{
    if rejection(scanner) is None {
        lemma_search_shape(scanner, i);
        lemma_search_shape(scanner, j);
    } else {
        lemma_opening_plain(scanner);
        let opening = opening_steps(scanner);
        if i < opening.len() {
            assert(scan_steps(scanner)[i] == opening[i]);
        }
    }
}

proof fn lemma_joined_contains(a: Seq<ScanStep>, b: Seq<ScanStep>, step: ScanStep)
    ensures
        (a + b).contains(step) <==> a.contains(step) || b.contains(step),
{
    if a.contains(step) {
        let i = choose|i: int| 0 <= i < a.len() && a[i] == step;
        assert((a + b)[i] == step);
    }
    if b.contains(step) {
        let i = choose|i: int| 0 <= i < b.len() && b[i] == step;
        assert((a + b)[a.len() + i] == step);
    }
    if (a + b).contains(step) {
        let i = choose|i: int| 0 <= i < (a + b).len() && (a + b)[i] == step;
        if i < a.len() {
            assert(a[i] == step);
        } else {
            assert(b[i - a.len()] == step);
        }
    }
}

proof fn lemma_when_contains(condition: bool, own: ScanStep, step: ScanStep)
    ensures
        condition && step == own <==> when(condition, own).contains(step),
{
    if condition {
        assert(seq![own][0] == own);
    }
}

proof fn lemma_opening_contains(scanner: ScannerModel, step: ScanStep)
    ensures
        opening_steps(scanner).contains(step) <==> (match step {
            ScanStep::Project => scanner.columns is Some,
            ScanStep::Filter => true,
            ScanStep::Limit { limit, offset } => limit == scanner.limit && offset == scanner.offset
                && (limit is Some || offset is Some),
            ScanStep::BatchSize(size) => scanner.batch_size == Some(size),
            ScanStep::WithRowId => scanner.with_row_id,
            ScanStep::Fragments => scanner.fragment_ids is Some,
            _ => false,
        }),
{
    let project = when(scanner.columns is Some, ScanStep::Project);
    let filter = seq![ScanStep::Filter];
    let own = ScanStep::Limit { limit: scanner.limit, offset: scanner.offset };
    let limit = when(scanner.limit is Some || scanner.offset is Some, own);
    let batch = when(scanner.batch_size is Some, ScanStep::BatchSize(scanner.batch_size->0));
    let row_id = when(scanner.with_row_id, ScanStep::WithRowId);
    let fragments = when(scanner.fragment_ids is Some, ScanStep::Fragments);
    assert(filter[0] == ScanStep::Filter);
    lemma_when_contains(scanner.columns is Some, ScanStep::Project, step);
    lemma_when_contains(scanner.limit is Some || scanner.offset is Some, own, step);
    lemma_when_contains(
        scanner.batch_size is Some,
        ScanStep::BatchSize(scanner.batch_size->0),
        step,
    );
    lemma_when_contains(scanner.with_row_id, ScanStep::WithRowId, step);
    lemma_when_contains(scanner.fragment_ids is Some, ScanStep::Fragments, step);
    lemma_joined_contains(project, filter, step);
    lemma_joined_contains(project + filter, limit, step);
    lemma_joined_contains(project + filter + limit, batch, step);
    lemma_joined_contains(project + filter + limit + batch, row_id, step);
    lemma_joined_contains(project + filter + limit + batch + row_id, fragments, step);
}

proof fn lemma_nearest_contains(scanner: ScannerModel, step: ScanStep)
    ensures
        nearest_steps(scanner).contains(step) <==> scanner.nearest is Some && (match step {
            ScanStep::Nearest => true,
            ScanStep::Nprobes(value) => scanner.nprobes == Some(value),
            ScanStep::Refine(value) => scanner.refine_factor == Some(value),
            ScanStep::Ef(value) => scanner.ef == Some(value),
            ScanStep::DistanceMetric(metric) => scanner.metric_override == Some(metric),
            ScanStep::UseIndex(value) => scanner.use_index == Some(value),
            ScanStep::IndexSegments => scanner.index_segments is Some,
            _ => false,
        }),
{
    reveal(nearest_steps);
    let head = seq![ScanStep::Nearest];
    assert(head[0] == ScanStep::Nearest);
    let probes = when(scanner.nprobes is Some, ScanStep::Nprobes(scanner.nprobes->0));
    let refine = when(scanner.refine_factor is Some, ScanStep::Refine(scanner.refine_factor->0));
    let ef = when(scanner.ef is Some, ScanStep::Ef(scanner.ef->0));
    let own = ScanStep::DistanceMetric(scanner.metric_override->0);
    let metric = when(scanner.metric_override is Some, own);
    let use_index = when(scanner.use_index is Some, ScanStep::UseIndex(scanner.use_index->0));
    let segments = when(scanner.index_segments is Some, ScanStep::IndexSegments);
    lemma_when_contains(scanner.nprobes is Some, ScanStep::Nprobes(scanner.nprobes->0), step);
    lemma_when_contains(
        scanner.refine_factor is Some,
        ScanStep::Refine(scanner.refine_factor->0),
        step,
    );
    lemma_when_contains(scanner.ef is Some, ScanStep::Ef(scanner.ef->0), step);
    lemma_when_contains(scanner.metric_override is Some, own, step);
    lemma_when_contains(scanner.use_index is Some, ScanStep::UseIndex(scanner.use_index->0), step);
    lemma_when_contains(scanner.index_segments is Some, ScanStep::IndexSegments, step);
    lemma_joined_contains(head, probes, step);
    lemma_joined_contains(head + probes, refine, step);
    lemma_joined_contains(head + probes + refine, ef, step);
    lemma_joined_contains(metric, use_index, step);
    lemma_joined_contains(metric + use_index, segments, step);
    lemma_joined_contains(query_steps(scanner), query_index_steps(scanner), step);
}

proof fn lemma_context_contains(scanner: ScannerModel, step: ScanStep)
    ensures
        context_steps(scanner).contains(step) <==> scanner.fts_context is Some && (step
            == ScanStep::ValidateContext || step == ScanStep::SelectFtsSegments || step
            == ScanStep::ContextSearch || step == ScanStep::FastSearch),
{
    if scanner.fts_context is Some {
        let steps = context_steps(scanner);
        assert(steps[0] == ScanStep::ValidateContext);
        assert(steps[1] == ScanStep::SelectFtsSegments);
        assert(steps[2] == ScanStep::ContextSearch);
        assert(steps[3] == ScanStep::FastSearch);
    }
}

/// Each option of a scan that breaks no rule takes its own step with its own value,
/// whatever the other options are, and no step is taken that no option asks for.
/// The options of a vector query count only where there is one.
pub proof fn law_every_option_takes_its_own_step(scanner: ScannerModel, step: ScanStep)
    requires
        scanner.index_segments is Some ==> scanner.nearest is Some,
        scanner.fts_index_segments is Some ==> scanner.fts_context is Some,
        scanner.fragment_ids is Some ==> scanner.fts_context is None,
    ensures
        scan_steps(scanner).contains(step) <==> (match step {
            ScanStep::Project => scanner.columns is Some,
            ScanStep::Filter => true,
            ScanStep::Limit { limit, offset } => limit == scanner.limit && offset == scanner.offset
                && (limit is Some || offset is Some),
            ScanStep::BatchSize(size) => scanner.batch_size == Some(size),
            ScanStep::WithRowId => scanner.with_row_id,
            ScanStep::Fragments => scanner.fragment_ids is Some,
            ScanStep::Reject(_) => false,
            ScanStep::Prefilter => scanner.prefilter,
            ScanStep::Nearest => scanner.nearest is Some,
            ScanStep::Nprobes(value) => scanner.nearest is Some && scanner.nprobes == Some(value),
            ScanStep::Refine(value) => scanner.nearest is Some && scanner.refine_factor == Some(
                value,
            ),
            ScanStep::Ef(value) => scanner.nearest is Some && scanner.ef == Some(value),
            ScanStep::DistanceMetric(metric) => scanner.nearest is Some && scanner.metric_override
                == Some(metric),
            ScanStep::UseIndex(value) => scanner.nearest is Some && scanner.use_index == Some(value),
            ScanStep::IndexSegments => scanner.index_segments is Some,
            ScanStep::FullTextSearch => scanner.fts_query is Some,
            ScanStep::ValidateContext => scanner.fts_context is Some,
            ScanStep::SelectFtsSegments => scanner.fts_context is Some,
            ScanStep::ContextSearch => scanner.fts_context is Some,
            ScanStep::FastSearch => scanner.fts_context is Some,
            ScanStep::StatisticsCallback => scanner.statistics_callback is Some,
        }),
{
    let first = when(scanner.prefilter, ScanStep::Prefilter);
    let second = nearest_steps(scanner);
    let third = when(scanner.fts_query is Some, ScanStep::FullTextSearch);
    let fourth = context_steps(scanner);
    let fifth = when(scanner.statistics_callback is Some, ScanStep::StatisticsCallback);
    lemma_opening_contains(scanner, step);
    lemma_nearest_contains(scanner, step);
    lemma_context_contains(scanner, step);
    lemma_when_contains(scanner.prefilter, ScanStep::Prefilter, step);
    lemma_when_contains(scanner.fts_query is Some, ScanStep::FullTextSearch, step);
    lemma_when_contains(
        scanner.statistics_callback is Some,
        ScanStep::StatisticsCallback,
        step,
    );
    lemma_joined_contains(first, second, step);
    lemma_joined_contains(first + second, third, step);
    lemma_joined_contains(first + second + third, fourth, step);
    lemma_joined_contains(first + second + third + fourth, fifth, step);
    lemma_joined_contains(opening_steps(scanner), search_steps(scanner), step);
}

/// A scan that breaks a rule is rejected, and for the first that it breaks: index
/// segments without a vector query, full-text segments without a query context,
/// fragments with one. It takes the steps before the search all the same, and no
/// step of the search.
pub proof fn law_scan_that_breaks_a_rule_is_rejected(scanner: ScannerModel, step: ScanStep)
    requires
        (scanner.index_segments is Some && scanner.nearest is None) || (
        scanner.fts_index_segments is Some && scanner.fts_context is None) || (
        scanner.fragment_ids is Some && scanner.fts_context is Some),
    ensures
        scan_steps(scanner).len() > 0,
        scan_steps(scanner).last() == ScanStep::Reject(
            if scanner.index_segments is Some && scanner.nearest is None {
                ScanRejection::IndexSegmentsWithoutNearest
            } else if scanner.fts_index_segments is Some && scanner.fts_context is None {
                ScanRejection::FtsSegmentsWithoutContext
            } else {
                ScanRejection::FragmentsWithContext
            },
        ),
        scan_steps(scanner).contains(step) <==> (match step {
            ScanStep::Project => scanner.columns is Some,
            ScanStep::Filter => true,
            ScanStep::Limit { limit, offset } => limit == scanner.limit && offset == scanner.offset
                && (limit is Some || offset is Some),
            ScanStep::BatchSize(size) => scanner.batch_size == Some(size),
            ScanStep::WithRowId => scanner.with_row_id,
            ScanStep::Fragments => scanner.fragment_ids is Some,
            _ => step == scan_steps(scanner).last(),
        }),
{
    let reject = seq![ScanStep::Reject(rejection(scanner)->0)];
    assert(reject[0] == ScanStep::Reject(rejection(scanner)->0));
    lemma_opening_contains(scanner, step);
    lemma_joined_contains(opening_steps(scanner), reject, step);
}

/// The place of a step in the order of a build.
pub open spec fn rank(step: ScanStep) -> int {
    match step {
        ScanStep::Project => 0,
        ScanStep::Filter => 1,
        ScanStep::Limit { .. } => 2,
        ScanStep::BatchSize(_) => 3,
        ScanStep::WithRowId => 4,
        ScanStep::Fragments => 5,
        ScanStep::Reject(_) => 6,
        ScanStep::Prefilter => 7,
        ScanStep::Nearest => 8,
        ScanStep::Nprobes(_) => 9,
        ScanStep::Refine(_) => 10,
        ScanStep::Ef(_) => 11,
        ScanStep::DistanceMetric(_) => 12,
        ScanStep::UseIndex(_) => 13,
        ScanStep::IndexSegments => 14,
        ScanStep::FullTextSearch => 15,
        ScanStep::ValidateContext => 16,
        ScanStep::SelectFtsSegments => 17,
        ScanStep::ContextSearch => 18,
        ScanStep::FastSearch => 19,
        ScanStep::StatisticsCallback => 20,
    }
}

/// Whether steps stand in order, each at a place from `low` up to `high`.
spec fn ordered(steps: Seq<ScanStep>, low: int, high: int) -> bool {
    &&& forall|i: int| 0 <= i < steps.len() ==> low <= rank(#[trigger] steps[i]) < high
    &&& forall|i: int, j: int|
        0 <= i < j < steps.len() ==> rank(#[trigger] steps[i]) < rank(#[trigger] steps[j])
}

proof fn lemma_ordered_joined(a: Seq<ScanStep>, b: Seq<ScanStep>, low: int, middle: int, high: int)
    requires
        ordered(a, low, middle),
        ordered(b, middle, high),
        low <= middle <= high,
    ensures
        ordered(a + b, low, high),
{
    let both = a + b;
    assert forall|i: int| 0 <= i < both.len() implies low <= rank(#[trigger] both[i]) < high by {
        if i < a.len() {
            assert(both[i] == a[i]);
        } else {
            assert(both[i] == b[i - a.len()]);
        }
    }
    assert forall|i: int, j: int| 0 <= i < j < both.len() implies rank(#[trigger] both[i]) < rank(
        #[trigger] both[j],
    ) by {
        if j < a.len() {
            assert(both[i] == a[i] && both[j] == a[j]);
        } else if i < a.len() {
            assert(both[i] == a[i] && both[j] == b[j - a.len()]);
        } else {
            assert(both[i] == b[i - a.len()] && both[j] == b[j - a.len()]);
        }
    }
}

proof fn lemma_opening_ordered(scanner: ScannerModel)
    ensures
        ordered(opening_steps(scanner), 0, 6),
{
    let project = when(scanner.columns is Some, ScanStep::Project);
    let filter = seq![ScanStep::Filter];
    let limit = when(
        scanner.limit is Some || scanner.offset is Some,
        ScanStep::Limit { limit: scanner.limit, offset: scanner.offset },
    );
    let batch = when(scanner.batch_size is Some, ScanStep::BatchSize(scanner.batch_size->0));
    let row_id = when(scanner.with_row_id, ScanStep::WithRowId);
    let fragments = when(scanner.fragment_ids is Some, ScanStep::Fragments);
    lemma_ordered_joined(project, filter, 0, 1, 2);
    lemma_ordered_joined(project + filter, limit, 0, 2, 3);
    lemma_ordered_joined(project + filter + limit, batch, 0, 3, 4);
    lemma_ordered_joined(project + filter + limit + batch, row_id, 0, 4, 5);
    lemma_ordered_joined(project + filter + limit + batch + row_id, fragments, 0, 5, 6);
}

proof fn lemma_nearest_ordered(scanner: ScannerModel)
    ensures
        ordered(nearest_steps(scanner), 8, 15),
{
    reveal(nearest_steps);
    let head = seq![ScanStep::Nearest];
    let probes = when(scanner.nprobes is Some, ScanStep::Nprobes(scanner.nprobes->0));
    let refine = when(scanner.refine_factor is Some, ScanStep::Refine(scanner.refine_factor->0));
    let ef = when(scanner.ef is Some, ScanStep::Ef(scanner.ef->0));
    let metric = when(
        scanner.metric_override is Some,
        ScanStep::DistanceMetric(scanner.metric_override->0),
    );
    let use_index = when(scanner.use_index is Some, ScanStep::UseIndex(scanner.use_index->0));
    let segments = when(scanner.index_segments is Some, ScanStep::IndexSegments);
    lemma_ordered_joined(head, probes, 8, 9, 10);
    lemma_ordered_joined(head + probes, refine, 8, 10, 11);
    lemma_ordered_joined(head + probes + refine, ef, 8, 11, 12);
    lemma_ordered_joined(metric, use_index, 12, 13, 14);
    lemma_ordered_joined(metric + use_index, segments, 12, 14, 15);
    lemma_ordered_joined(query_steps(scanner), query_index_steps(scanner), 8, 12, 15);
}

/// The steps of every scan stand in the order of a build, so that none is taken
/// twice: in particular the filter and the fragments come before the rules are
/// checked, and the prefilter before the vector query.
pub proof fn law_steps_are_taken_in_order(scanner: ScannerModel, i: int, j: int)
    requires
        0 <= i < j < scan_steps(scanner).len(),
    ensures
        rank(scan_steps(scanner)[i]) < rank(scan_steps(scanner)[j]),
{
    lemma_opening_ordered(scanner);
    lemma_nearest_ordered(scanner);
    let opening = opening_steps(scanner);
    if rejection(scanner) is Some {
        let reject = seq![ScanStep::Reject(rejection(scanner)->0)];
        lemma_ordered_joined(opening, reject, 0, 6, 7);
    } else {
        let first = when(scanner.prefilter, ScanStep::Prefilter);
        let second = nearest_steps(scanner);
        let third = when(scanner.fts_query is Some, ScanStep::FullTextSearch);
        let fourth = context_steps(scanner);
        let fifth = when(scanner.statistics_callback is Some, ScanStep::StatisticsCallback);
        lemma_ordered_joined(first, second, 7, 8, 15);
        lemma_ordered_joined(first + second, third, 7, 15, 16);
        lemma_ordered_joined(first + second + third, fourth, 7, 16, 20);
        lemma_ordered_joined(first + second + third + fourth, fifth, 7, 20, 21);
        lemma_ordered_joined(opening, search_steps(scanner), 0, 7, 21);
    }
}

/// A part of a combined filter.
#[derive(Clone, Copy, Debug, PartialEq, Eq, Structural)]
pub enum Conjunct {
    /// The Substrait filter.
    Substrait,
    /// The SQL filter that the scanner was made with.
    Sql,
    /// One of the additional SQL filters.
    Additional(usize),
}

/// How the filter of a scan is applied.
pub enum FilterPlan {
    /// There is no filter.
    Nothing,
    /// The Substrait filter alone.
    Substrait,
    /// The SQL filter alone.
    Sql,
    /// Several filters, each of which a row must meet, in this order.
    Conjunction(Vec<Conjunct>),
}

/// The primary filter: the Substrait filter, or else the SQL filter.
pub open spec fn primary_filter(scanner: ScannerModel) -> Seq<Conjunct> {
    if scanner.substrait_filter is Some {
        seq![Conjunct::Substrait]
    } else if scanner.filter is Some {
        seq![Conjunct::Sql]
    } else {
        Seq::empty()
    }
}

/// Every filter that a row must meet, in order.
pub open spec fn conjuncts(scanner: ScannerModel) -> Seq<Conjunct> {
    primary_filter(scanner) + Seq::new(
        scanner.additional_sql_filters.len(),
        |i: int| Conjunct::Additional(i as usize),
    )
}

/// A row must meet the Substrait filter where there is one, the SQL filter where
/// there is one and no Substrait filter, and every additional filter: each once, the
/// primary filter first and the additional ones in their order. So an additional
/// filter never takes away the primary filter that applied without it.
pub proof fn law_every_filter_applies(scanner: ScannerModel, conjunct: Conjunct)
    requires
        scanner.additional_sql_filters.len() <= usize::MAX,
    ensures
        ({
            let all = conjuncts(scanner);
            let primary = primary_filter(scanner);
            let is_primary = (conjunct == Conjunct::Substrait && scanner.substrait_filter is Some)
                || (conjunct == Conjunct::Sql && scanner.filter is Some
                && scanner.substrait_filter is None);
            let added = scanner.additional_sql_filters.len();
            &&& primary.contains(conjunct) <==> is_primary
            &&& all.contains(conjunct) <==> is_primary || (conjunct matches Conjunct::Additional(
                i,
            ) && i < added)
            &&& primary.len() == if scanner.substrait_filter is Some || scanner.filter is Some {
                1int
            } else {
                0int
            }
            &&& all.len() == primary.len() + added
            &&& forall|i: int| 0 <= i < primary.len() ==> all[i] == primary[i]
            &&& forall|i: int|
                0 <= i < added ==> #[trigger] all[primary.len() + i] == Conjunct::Additional(
                    i as usize,
                )
        }),
{
    let all = conjuncts(scanner);
    let primary = primary_filter(scanner);
    if primary.len() > 0 {
        assert(all[0] == primary[0]);
        assert(primary.contains(primary[0]));
    }
    if let Conjunct::Additional(i) = conjunct {
        if i < scanner.additional_sql_filters.len() {
            assert(all[primary.len() + i] == conjunct);
        }
    }
    if all.contains(conjunct) {
        let k = choose|k: int| 0 <= k < all.len() && all[k] == conjunct;
        if k >= primary.len() {
            assert(all[k] == Conjunct::Additional((k - primary.len()) as usize));
        }
    }
}

/// Plans the filter of a scan.
pub fn apply_filter(scanner: &LanceScanner) -> (plan: FilterPlan)
    ensures
        scanner@.additional_sql_filters.len() == 0 ==> match plan {
            FilterPlan::Nothing => primary_filter(scanner@) == Seq::<Conjunct>::empty(),
            FilterPlan::Substrait => primary_filter(scanner@) == seq![Conjunct::Substrait],
            FilterPlan::Sql => primary_filter(scanner@) == seq![Conjunct::Sql],
            FilterPlan::Conjunction(_) => false,
        },
        scanner@.additional_sql_filters.len() > 0 ==> (plan matches FilterPlan::Conjunction(list)
            && list@ == conjuncts(scanner@)),
{
    let count: usize = scanner.additional_sql_filters.len();
    if count == 0 {
        if scanner.substrait_filter.is_some() {
            return FilterPlan::Substrait;
        } else if scanner.filter.is_some() {
            return FilterPlan::Sql;
        }
        return FilterPlan::Nothing;
    }
    let mut list: Vec<Conjunct> = Vec::new();
    if scanner.substrait_filter.is_some() {
        list.push(Conjunct::Substrait);
    } else if scanner.filter.is_some() {
        list.push(Conjunct::Sql);
    }
    let ghost primary = list@;
    let mut i: usize = 0;
    while i < count
        invariant
            i <= count,
            list@ == primary + Seq::new(i as nat, |k: int| Conjunct::Additional(k as usize)),
        decreases count - i,
    {
        list.push(Conjunct::Additional(i));
        i += 1;
        assert(list@ =~= primary + Seq::new(i as nat, |k: int| Conjunct::Additional(k as usize)));
    }
    assert(primary =~= primary_filter(scanner@));
    assert(list@ =~= conjuncts(scanner@));
    FilterPlan::Conjunction(list)
}

/// The positions of the selected fragments among the first `n` of a dataset.
pub open spec fn selected_positions(all: Seq<u64>, ids: Seq<u64>, n: int) -> Seq<usize>
    decreases n,
{
    if n <= 0 {
        Seq::empty()
    } else if ids.contains(all[n - 1]) {
        selected_positions(all, ids, n - 1).push((n - 1) as usize)
    } else {
        selected_positions(all, ids, n - 1)
    }
}

/// Selects the fragments of a dataset that are asked for, in the dataset's
/// order. Ids that the dataset does not have select nothing.
pub fn apply_fragment_filter(all: &Vec<u64>, ids: &Vec<u64>) -> (positions: Vec<usize>)
    ensures
        positions@ == selected_positions(all@, ids@, all@.len() as int),
{
    broadcast use vstd::std_specs::hash::group_hash_axioms;

    let wanted: HashSet<u64> = id_set(ids);
    let mut positions: Vec<usize> = Vec::new();
    let mut i: usize = 0;
    while i < all.len()
        invariant
            i <= all@.len(),
            forall|id: u64| #[trigger] wanted@.contains(id) <==> ids@.contains(id),
            positions@ == selected_positions(all@, ids@, i as int),
        decreases all.len() - i,
    {
        if wanted.contains(&all[i]) {
            positions.push(i);
        }
        i += 1;
    }
    positions
}

/// The selected fragments are those of the dataset whose id is asked for, each
/// once and in order.
pub proof fn law_fragment_selection(all: Seq<u64>, ids: Seq<u64>, n: int, position: int)
    requires
        0 <= n <= all.len() <= usize::MAX,
    ensures
        selected_positions(all, ids, n).contains(position as usize) && 0 <= position <= usize::MAX
            <==> 0 <= position < n && ids.contains(all[position]),
        forall|i: int, j: int|
            0 <= i < j < selected_positions(all, ids, n).len() ==> selected_positions(
                all,
                ids,
                n,
            )[i] < selected_positions(all, ids, n)[j],
        forall|i: int|
            0 <= i < selected_positions(all, ids, n).len() ==> #[trigger] selected_positions(
                all,
                ids,
                n,
            )[i] < n,
    decreases n,
{
    if n > 0 {
        law_fragment_selection(all, ids, n - 1, position);
        let earlier = selected_positions(all, ids, n - 1);
        let now = selected_positions(all, ids, n);
        if ids.contains(all[n - 1]) {
            assert(now[now.len() - 1] == n - 1);
            if earlier.contains(position as usize) {
                let i = choose|i: int| 0 <= i < earlier.len() && earlier[i] == position as usize;
                assert(now[i] == position as usize);
            }
            if now.contains(position as usize) {
                let i = choose|i: int| 0 <= i < now.len() && now[i] == position as usize;
                if i < earlier.len() {
                    assert(earlier[i] == position as usize);
                }
            }
        }
    }
}

/// Whether two identifiers are the same.
pub fn same_uuid(a: &[u8; 16], b: &[u8; 16]) -> (same: bool)
    ensures
        same == (a@ == b@),
{
    let mut i: usize = 0;
    while i < 16
        invariant
            i <= 16,
            forall|k: int| 0 <= k < i ==> a@[k] == b@[k],
        decreases 16 - i,
    {
        if a[i] != b[i] {
            assert(a@[i as int] != b@[i as int]);
            return false;
        }
        i += 1;
    }
    assert(a@ =~= b@);
    true
}

/// The first place of an identifier in a list, or the list's length.
pub open spec fn place_of(list: Seq<Seq<u8>>, uuid: Seq<u8>, from: int) -> int
    decreases list.len() - from,
{
    if from >= list.len() || from < 0 {
        list.len() as int
    } else if list[from] == uuid {
        from
    } else {
        place_of(list, uuid, from + 1)
    }
}

/// The first identifier of a selection that a context does not have.
pub open spec fn first_unknown(segments: Seq<Seq<u8>>, selected: Seq<Seq<u8>>, from: int) -> int
    decreases selected.len() - from,
{
    if from >= selected.len() || from < 0 {
        selected.len() as int
    } else if place_of(segments, selected[from], 0) >= segments.len() {
        from
    } else {
        first_unknown(segments, selected, from + 1)
    }
}

/// What a selection of a context's segments reports.
pub open spec fn fts_selection_failure(
    segments: Seq<Seq<u8>>,
    dataset_version: u64,
    selected: Option<Seq<Seq<u8>>>,
) -> Option<error::Report> {
    match selected {
        None => None,
        Some(selected) => {
            let unknown = first_unknown(segments, selected, 0);
            if unknown < selected.len() {
                Some(
                    error::invalid(
                        "FTS segment UUID "@ + text::hyphenated(selected[unknown])
                            + " is not present in the attached query context for dataset version "@
                            + text::decimal(dataset_version as nat),
                    ),
                )
            } else if selected.len() == 0 {
                Some(error::invalid("FTS segment subset must contain at least one UUID"@))
            } else {
                None
            }
        },
    }
}

/// The places of the selected segments in a context.
pub open spec fn fts_selection(
    segments: Seq<Seq<u8>>,
    selected: Option<Seq<Seq<u8>>>,
) -> Seq<int> {
    match selected {
        None => Seq::new(segments.len(), |i: int| i),
        Some(selected) => Seq::new(
            selected.len(),
            |i: int| place_of(segments, selected[i], 0),
        ),
    }
}

fn find_uuid(list: &Vec<[u8; 16]>, uuid: &[u8; 16]) -> (place: usize)
    ensures
        place == place_of(scanner::uuids(list@), uuid@, 0),
        place <= list@.len(),
{
    let ghost octets = scanner::uuids(list@);
    let mut i: usize = 0;
    while i < list.len()
        invariant
            i <= list@.len(),
            octets == scanner::uuids(list@),
            place_of(octets, uuid@, 0) == place_of(octets, uuid@, i as int),
        decreases list.len() - i,
    {
        if same_uuid(&list[i], uuid) {
            assert(octets[i as int] == uuid@);
            return i;
        }
        assert(octets[i as int] != uuid@);
        i += 1;
    }
    i
}

/// Chooses the segments of a context: all of them, or those that are selected,
/// in the order of the selection.
pub fn select_fts_segments(
    segments: &Vec<[u8; 16]>,
    dataset_version: u64,
    selected: Option<&Vec<[u8; 16]>>,
) -> (result: Result<Vec<usize>, LanceError>)
    ensures
        ({
            let chosen = match selected {
                Some(list) => Some(scanner::uuids(list@)),
                None => None,
            };
            match result {
                Ok(places) => {
                    &&& fts_selection_failure(
                        scanner::uuids(segments@),
                        dataset_version,
                        chosen,
                    ) is None
                    &&& places@.map_values(|place: usize| place as int) == fts_selection(
                        scanner::uuids(segments@),
                        chosen,
                    )
                },
                Err(error) => fts_selection_failure(
                    scanner::uuids(segments@),
                    dataset_version,
                    chosen,
                ) == Some(error@),
            }
        }),
{
    let ghost known = scanner::uuids(segments@);
    let mut places: Vec<usize> = Vec::new();
    let list: &Vec<[u8; 16]> = match selected {
        Some(list) => list,
        None => {
            let mut i: usize = 0;
            while i < segments.len()
                invariant
                    i <= segments@.len(),
                    places@ == Seq::new(i as nat, |k: int| k as usize),
                decreases segments.len() - i,
            {
                places.push(i);
                i += 1;
                assert(places@ =~= Seq::new(i as nat, |k: int| k as usize));
            }
            assert(places@.map_values(|place: usize| place as int) =~= fts_selection(known, None));
            return Ok(places);
        },
    };
    let ghost wanted = scanner::uuids(list@);
    let mut i: usize = 0;
    while i < list.len()
        invariant
            known == scanner::uuids(segments@),
            wanted == scanner::uuids(list@),
            selected == Some(list),
            i <= list@.len(),
            places@.len() == i,
            first_unknown(known, wanted, 0) == first_unknown(known, wanted, i as int),
            forall|k: int| 0 <= k < i ==> (#[trigger] places@[k]) == place_of(known, wanted[k], 0),
        decreases list.len() - i,
    {
        let place: usize = find_uuid(segments, &list[i]);
        assert(wanted[i as int] == list@[i as int]@);
        if place >= segments.len() {
            let mut message: String = "FTS segment UUID ".to_owned();
            text::push_uuid(&mut message, &list[i]);
            message.append(
                " is not present in the attached query context for dataset version ",
            );
            text::push_decimal(&mut message, dataset_version);
            return Err(LanceError::invalid_text(message));
        }
        places.push(place);
        i += 1;
    }
    if list.len() == 0 {
        return Err(LanceError::invalid("FTS segment subset must contain at least one UUID"));
    }
    assert(places@.map_values(|place: usize| place as int) =~= fts_selection(known, Some(wanted)));
    Ok(places)
}

proof fn lemma_place_of(list: Seq<Seq<u8>>, uuid: Seq<u8>, from: int)
    requires
        0 <= from <= list.len(),
    ensures
        from <= place_of(list, uuid, from) <= list.len(),
        place_of(list, uuid, from) < list.len() ==> list[place_of(list, uuid, from)] == uuid,
        forall|k: int| from <= k < place_of(list, uuid, from) ==> list[k] != uuid,
    decreases list.len() - from,
{
    if from < list.len() && list[from] != uuid {
        lemma_place_of(list, uuid, from + 1);
    }
}

proof fn lemma_first_unknown(segments: Seq<Seq<u8>>, selected: Seq<Seq<u8>>, from: int)
    requires
        0 <= from <= selected.len(),
    ensures
        from <= first_unknown(segments, selected, from) <= selected.len(),
        first_unknown(segments, selected, from) < selected.len() ==> !segments.contains(
            selected[first_unknown(segments, selected, from)],
        ),
        forall|k: int|
            from <= k < first_unknown(segments, selected, from) ==> segments.contains(
                #[trigger] selected[k],
            ),
    decreases selected.len() - from,
{
    if from < selected.len() {
        lemma_place_of(segments, selected[from], 0);
        if place_of(segments, selected[from], 0) < segments.len() {
            assert(segments.contains(selected[from]));
            lemma_first_unknown(segments, selected, from + 1);
        } else if segments.contains(selected[from]) {
            let k = choose|k: int| 0 <= k < segments.len() && segments[k] == selected[from];
            assert(segments[k] != selected[from]);
        }
    }
}

/// Without a selection a context search uses every segment of the context, in order.
/// A selection is accepted if and only if it names at least one segment and only
/// segments of the context; it then picks each of them, in the order of the
/// selection. Otherwise the first name that the context does not have is reported.
pub proof fn law_context_searches_the_selected_segments(
    segments: Seq<Seq<u8>>,
    dataset_version: u64,
    selected: Seq<Seq<u8>>,
    i: int,
)
    ensures
        fts_selection_failure(segments, dataset_version, None) is None,
        fts_selection(segments, None).len() == segments.len(),
        0 <= i < segments.len() ==> fts_selection(segments, None)[i] == i,
        fts_selection_failure(segments, dataset_version, Some(selected)) is None <==> (
        selected.len() > 0 && forall|k: int|
            0 <= k < selected.len() ==> segments.contains(#[trigger] selected[k])),
        fts_selection_failure(segments, dataset_version, Some(selected)) is None ==> {
            let places = fts_selection(segments, Some(selected));
            &&& places.len() == selected.len()
            &&& 0 <= i < selected.len() ==> 0 <= places[i] < segments.len()
                && segments[places[i]] == selected[i]
        },
        0 <= i < selected.len() && !segments.contains(selected[i]) && (forall|k: int|
            0 <= k < i ==> segments.contains(#[trigger] selected[k])) ==> fts_selection_failure(
            segments,
            dataset_version,
            Some(selected),
        ) == Some(
            error::invalid(
                "FTS segment UUID "@ + text::hyphenated(selected[i])
                    + " is not present in the attached query context for dataset version "@
                    + text::decimal(dataset_version as nat),
            ),
        ),
{
    lemma_first_unknown(segments, selected, 0);
    let unknown = first_unknown(segments, selected, 0);
    if 0 <= i < selected.len() {
        lemma_place_of(segments, selected[i], 0);
        if unknown >= selected.len() {
            assert(segments.contains(selected[i]));
            let k = choose|k: int| 0 <= k < segments.len() && segments[k] == selected[i];
            assert(segments[k] == selected[i]);
        }
        if !segments.contains(selected[i]) && (forall|k: int|
            0 <= k < i ==> segments.contains(#[trigger] selected[k])) {
            if unknown < i {
                assert(segments.contains(selected[unknown]));
            }
            if i < unknown {
                assert(segments.contains(selected[i]));
            }
        }
    }
}

/// A node of an execution plan.
pub struct PlanNode {
    /// The node of the plan that this one stands for.
    pub id: usize,
    /// Whether it runs a full-text match query.
    pub is_match_query: bool,
    /// Whether it was replaced.
    pub replaced: bool,
    /// The inputs.
    pub children: Vec<PlanNode>,
}

/// The number of match queries among the first `n` of some nodes and below.
pub open spec fn count_matches(nodes: Seq<PlanNode>, n: int) -> nat
    decreases nodes, n,
    when 0 <= n <= nodes.len()
{
    if n <= 0 {
        0
    } else {
        count_matches(nodes, n - 1) + count_matches_in(nodes[n - 1])
    }
}

/// The number of match queries in a plan.
pub open spec fn count_matches_in(node: PlanNode) -> nat
    decreases node, 0int,
{
    count_matches(node.children@, node.children@.len() as int) + (if node.is_match_query {
        1nat
    } else {
        0nat
    })
}

/// Whether `after` is `before` with every match query replaced.
pub open spec fn is_replaced(before: PlanNode, after: PlanNode) -> bool
    decreases before,
{
    &&& after.id == before.id
    &&& after.is_match_query == before.is_match_query
    &&& after.replaced == (before.replaced || before.is_match_query)
    &&& after.children@.len() == before.children@.len()
    &&& forall|i: int|
        0 <= i < before.children@.len() ==> is_replaced(
            before.children@[i],
            #[trigger] after.children@[i],
        )
}

/// Replaces every match query of a plan, from the leaves up, and counts them.
pub fn replace_match_query_exec(plan: &PlanNode) -> (result: (PlanNode, usize))
    requires
        count_matches_in(*plan) <= usize::MAX,
    ensures
        result.1 == count_matches_in(*plan),
        is_replaced(*plan, result.0),
    decreases *plan,
{
    let mut replaced: usize = 0;
    let mut children: Vec<PlanNode> = Vec::new();
    let mut i: usize = 0;
    while i < plan.children.len()
        invariant
            i <= plan.children@.len(),
            count_matches_in(*plan) <= usize::MAX,
            replaced == count_matches(plan.children@, i as int),
            children@.len() == i,
            forall|k: int|
                0 <= k < i ==> is_replaced(plan.children@[k], #[trigger] children@[k]),
        decreases plan.children.len() - i,
    {
        proof {
            lemma_count_grows(plan.children@, i + 1, plan.children@.len() as int);
        }
        let (child, child_replaced) = replace_match_query_exec(&plan.children[i]);
        children.push(child);
        replaced = replaced + child_replaced;
        i += 1;
    }
    if plan.is_match_query {
        replaced = replaced + 1;
    }
    (
        PlanNode {
            id: plan.id,
            is_match_query: plan.is_match_query,
            replaced: plan.replaced || plan.is_match_query,
            children,
        },
        replaced,
    )
}

proof fn lemma_count_grows(nodes: Seq<PlanNode>, m: int, n: int)
    requires
        0 <= m <= n <= nodes.len(),
    ensures
        count_matches(nodes, m) <= count_matches(nodes, n),
    decreases n - m,
{
    if m < n {
        lemma_count_grows(nodes, m, n - 1);
    }
}

/// The match queries of a plan are its own node, if it is one, and those below each
/// of its inputs.
pub proof fn law_match_queries_add_up(node: PlanNode, n: int)
    requires
        0 <= n < node.children@.len(),
    ensures
        count_matches_in(node) >= count_matches(node.children@, n + 1),
        count_matches(node.children@, n + 1) == count_matches(node.children@, n)
            + count_matches_in(node.children@[n]),
        count_matches(node.children@, 0) == 0,
        count_matches_in(node) == count_matches(node.children@, node.children@.len() as int) + (
        if node.is_match_query {
            1int
        } else {
            0int
        }),
{
    lemma_count_grows(node.children@, n + 1, node.children@.len() as int);
}

/// A plan without inputs counts as one match query if it is one, else as none.
pub proof fn law_leaf_counts_itself(node: PlanNode)
    requires
        node.children@.len() == 0,
    ensures
        count_matches_in(node) == if node.is_match_query {
            1int
        } else {
            0int
        },
{
}

/// Replacing keeps the shape of a plan and marks its match queries, and no other
/// node: what was no match query is as it was, and as many match queries are counted
/// afterwards.
pub proof fn law_replacement_marks_match_queries(plan: PlanNode, after: PlanNode, i: int)
    requires
        is_replaced(plan, after),
    ensures
        after.id == plan.id,
        after.is_match_query == plan.is_match_query,
        plan.is_match_query ==> after.replaced,
        !plan.is_match_query ==> after.replaced == plan.replaced,
        after.children@.len() == plan.children@.len(),
        0 <= i < plan.children@.len() ==> is_replaced(plan.children@[i], after.children@[i]),
        count_matches_in(after) == count_matches_in(plan),
    decreases plan, 1int, 0int,
{
    lemma_replaced_counts(plan, after, plan.children@.len() as int);
}

proof fn lemma_replaced_counts(plan: PlanNode, after: PlanNode, n: int)
    requires
        is_replaced(plan, after),
        0 <= n <= plan.children@.len(),
    ensures
        count_matches(after.children@, n) == count_matches(plan.children@, n),
    decreases plan, 0int, n,
{
    if n > 0 {
        lemma_replaced_counts(plan, after, n - 1);
        assert(is_replaced(plan.children@[n - 1], after.children@[n - 1]));
        law_replacement_marks_match_queries(plan.children@[n - 1], after.children@[n - 1], 0);
    }
}

/// Checks a prepared full-text plan: exactly one match query must have been
/// replaced.
pub fn check_replaced(replaced: usize) -> (result: Result<(), LanceError>)
    ensures
        error::failure(result) == (if replaced == 1 {
            None
        } else {
            Some(
                error::internal(
                    "expected exactly one MatchQueryExec in prepared FTS plan, replaced "@
                        + text::decimal(replaced as nat),
                ),
            )
        }),
{
    if replaced == 1 {
        return Ok(());
    }
    let mut message: String =
        "expected exactly one MatchQueryExec in prepared FTS plan, replaced ".to_owned();
    text::push_decimal(&mut message, replaced as u64);
    Err(LanceError::internal(message))
}

/// Type of a dynamically named scan metric.
#[derive(Clone, Copy, Debug, PartialEq, Eq, Structural)]
pub enum LanceScanMetricKind {
    /// Monotonically accumulated counter.
    Count,
    /// Accumulated duration in nanoseconds.
    TimeNanoseconds,
}

/// One dynamically named scan metric.
pub struct LanceScanMetric {
    pub name: String,
    pub kind: LanceScanMetricKind,
    pub value: u64,
}

/// What an execution counted.
pub struct ExecutionSummary {
    pub iops: usize,
    pub requests: usize,
    pub bytes_read: usize,
    pub indices_loaded: usize,
    pub parts_loaded: usize,
    pub index_comparisons: usize,
    /// Further counters, in no particular order.
    pub all_counts: Vec<(String, usize)>,
    /// Further times in nanoseconds, in no particular order.
    pub all_times: Vec<(String, usize)>,
}

/// Execution statistics of one fully consumed scan.
pub struct LanceScanStatistics {
    pub iops: u64,
    pub requests: u64,
    pub bytes_read: u64,
    pub indices_loaded: u64,
    pub index_partitions_loaded: u64,
    pub index_comparisons: u64,
    pub metrics: Vec<LanceScanMetric>,
}

/// A metric as its name, kind and value.
pub open spec fn metric_of(metric: LanceScanMetric) -> (Seq<char>, LanceScanMetricKind, u64) {
    (metric.name@, metric.kind, metric.value)
}

/// Named values as metrics of one kind.
pub open spec fn metrics_of(
    values: Seq<(String, usize)>,
    kind: LanceScanMetricKind,
) -> Seq<(Seq<char>, LanceScanMetricKind, u64)> {
    values.map_values(|entry: (String, usize)| (entry.0@, kind, entry.1 as u64))
}

fn push_metrics(
    metrics: &mut Vec<LanceScanMetric>,
    values: &Vec<(String, usize)>,
    kind: LanceScanMetricKind,
)
    ensures
        final(metrics)@.map_values(|metric: LanceScanMetric| metric_of(metric)) == old(
            metrics,
        )@.map_values(|metric: LanceScanMetric| metric_of(metric)) + metrics_of(values@, kind),
{
    let ghost before = metrics@.map_values(|metric: LanceScanMetric| metric_of(metric));
    let mut i: usize = 0;
    assert(before =~= before + metrics_of(values@, kind).take(0));
    while i < values.len()
        invariant
            i <= values@.len(),
            metrics@.map_values(|metric: LanceScanMetric| metric_of(metric)) == before
                + metrics_of(values@, kind).take(i as int),
        decreases values.len() - i,
    {
        let ghost listed = metrics@;
        metrics.push(
            LanceScanMetric { name: values[i].0.clone(), kind, value: values[i].1 as u64 },
        );
        i += 1;
        assert(metrics@.map_values(|metric: LanceScanMetric| metric_of(metric))
            =~= listed.map_values(|metric: LanceScanMetric| metric_of(metric)).push(
            metrics_of(values@, kind)[i - 1],
        ));
        assert(metrics@.map_values(|metric: LanceScanMetric| metric_of(metric)) =~= before
            + metrics_of(values@, kind).take(i as int));
    }
    assert(metrics_of(values@, kind).take(i as int) =~= metrics_of(values@, kind));
}

/// Builds the statistics that the callback receives. Dynamic metrics, counters
/// before times, are given only if memory for them could be had: `reserved`.
pub fn scan_statistics(counts: &ExecutionSummary, reserved: bool) -> (statistics:
    LanceScanStatistics)
    ensures
        statistics.iops == counts.iops,
        statistics.requests == counts.requests,
        statistics.bytes_read == counts.bytes_read,
        statistics.indices_loaded == counts.indices_loaded,
        statistics.index_partitions_loaded == counts.parts_loaded,
        statistics.index_comparisons == counts.index_comparisons,
        statistics.metrics@.map_values(|metric: LanceScanMetric| metric_of(metric)) == (if reserved
            && counts.all_counts@.len() + counts.all_times@.len() <= usize::MAX {
            metrics_of(counts.all_counts@, LanceScanMetricKind::Count) + metrics_of(
                counts.all_times@,
                LanceScanMetricKind::TimeNanoseconds,
            )
        } else {
            Seq::empty()
        }),
{
    let mut metrics: Vec<LanceScanMetric> = Vec::new();
    assert(metrics@.map_values(|metric: LanceScanMetric| metric_of(metric)) =~= Seq::<
        (Seq<char>, LanceScanMetricKind, u64),
    >::empty());
    if reserved && counts.all_counts.len() <= usize::MAX - counts.all_times.len() {
        push_metrics(&mut metrics, &counts.all_counts, LanceScanMetricKind::Count);
        push_metrics(&mut metrics, &counts.all_times, LanceScanMetricKind::TimeNanoseconds);
        assert(Seq::<(Seq<char>, LanceScanMetricKind, u64)>::empty() + metrics_of(
            counts.all_counts@,
            LanceScanMetricKind::Count,
        ) =~= metrics_of(counts.all_counts@, LanceScanMetricKind::Count));
    }
    LanceScanStatistics {
        iops: counts.iops as u64,
        requests: counts.requests as u64,
        bytes_read: counts.bytes_read as u64,
        indices_loaded: counts.indices_loaded as u64,
        index_partitions_loaded: counts.parts_loaded as u64,
        index_comparisons: counts.index_comparisons as u64,
        metrics,
    }
}

/// Each dynamic metric keeps its name, its value and the kind of its list.
pub proof fn law_metrics_keep_their_values(
    values: Seq<(String, usize)>,
    kind: LanceScanMetricKind,
    metric: LanceScanMetric,
    i: int,
)
    requires
        0 <= i < values.len(),
    ensures
        metrics_of(values, kind).len() == values.len(),
        metrics_of(values, kind)[i].0 == values[i].0@,
        metrics_of(values, kind)[i].1 == kind,
        metrics_of(values, kind)[i].2 == values[i].1,
        metric_of(metric).0 == metric.name@ && metric_of(metric).1 == metric.kind && metric_of(
            metric,
        ).2 == metric.value,
{
}

/// A scan that is rejected says which two options do not go together, and a selection
/// of no segment that it must name one.
pub proof fn law_rejections_say_why(
    rejection: ScanRejection,
    segments: Seq<Seq<u8>>,
    dataset_version: u64,
)
    ensures
        rejection.text() == match rejection {
            ScanRejection::IndexSegmentsWithoutNearest =>
                "index_segments requires nearest() to be configured"@,
            ScanRejection::FtsSegmentsWithoutContext =>
                "fts_index_segments requires an FTS query context"@,
            ScanRejection::FragmentsWithContext =>
                "fragment_ids cannot be combined with an FTS query context; split the query by FTS index segment UUID instead"@,
        },
        fts_selection_failure(segments, dataset_version, Some(Seq::empty())) == Some(
            error::invalid("FTS segment subset must contain at least one UUID"@),
        ),
{
}

} // verus!
