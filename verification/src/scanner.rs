//! The scanner handle: its configuration, the rules among its options, and the
//! setters of the C interface.
//!
//! A handle that is NULL in C is `None` here. Each setter reports through the
//! thread's last error, which stands as an argument.

use vstd::prelude::*;
use vstd::string::StringExecFns;

use crate::error;
use crate::error::{LanceError, LanceErrorCode, LastError};
use crate::helpers;
use crate::helpers::{parse_c_string, require_c_string, CStringArg};
use crate::index::LanceMetricType;
use crate::text;

verus! {

/// Data type of the elements of a query vector.
#[derive(Clone, Copy, Debug, PartialEq, Eq, Structural)]
pub enum LanceDataType {
    Float32,
    Float16,
    Float64,
    UInt8,
    Int8,
}

impl LanceDataType {
    /// The number under which C names this type.
    pub open spec fn raw(self) -> int {
        match self {
            LanceDataType::Float32 => 0,
            LanceDataType::Float16 => 1,
            LanceDataType::Float64 => 2,
            LanceDataType::UInt8 => 3,
            LanceDataType::Int8 => 4,
        }
    }

    /// The octets of one element.
    pub open spec fn width(self) -> nat {
        match self {
            LanceDataType::Float32 => 4,
            LanceDataType::Float16 => 2,
            LanceDataType::Float64 => 8,
            LanceDataType::UInt8 => 1,
            LanceDataType::Int8 => 1,
        }
    }

    /// Whether octets hold `len` elements of the type that C names by a number; any
    /// octets do where the number names no type.
    pub open spec fn fits(octets: Seq<u8>, len: usize, raw: i32) -> bool {
        forall|kind: LanceDataType| #[trigger]
            kind.raw() == raw ==> octets.len() == kind.width() * len
    }

    /// The type that C names by a number.
    pub fn from_raw(raw: i32) -> (kind: Option<LanceDataType>)
        ensures
            match kind {
                Some(kind) => kind.raw() == raw,
                None => !(0 <= raw <= 4),
            },
    {
        if raw == 0 {
            Some(LanceDataType::Float32)
        } else if raw == 1 {
            Some(LanceDataType::Float16)
        } else if raw == 2 {
            Some(LanceDataType::Float64)
        } else if raw == 3 {
            Some(LanceDataType::UInt8)
        } else if raw == 4 {
            Some(LanceDataType::Int8)
        } else {
            None
        }
    }

    /// The octets of one element.
    pub fn element_width(self) -> (width: usize)
        ensures
            width == self.width(),
    {
        match self {
            LanceDataType::Float32 => 4,
            LanceDataType::Float16 => 2,
            LanceDataType::Float64 => 8,
            LanceDataType::UInt8 => 1,
            LanceDataType::Int8 => 1,
        }
    }
}

/// A nearest-neighbour query.
pub struct NearestQuery {
    /// The vector column.
    pub column: String,
    /// The type of the elements.
    pub element_type: LanceDataType,
    /// The elements as they lie in memory.
    pub query: Vec<u8>,
    /// How many neighbours to return.
    pub k: u32,
}

/// A full-text query.
pub struct FtsQuery {
    /// The terms.
    pub query: String,
    /// The columns to search; `None` searches every indexed column.
    pub columns: Option<Vec<String>>,
    /// The edit distance; `None` matches exactly.
    pub max_fuzzy_distance: Option<u32>,
}

/// What the scanner knows of an attached full-text query context.
pub struct FtsContext {
    /// The identifiers of the index segments that the context pins.
    pub segments: Vec<[u8; 16]>,
    /// The dataset version that the context was prepared for.
    pub dataset_version: u64,
}

/// A nearest-neighbour query, mathematically.
pub ghost struct NearestModel {
    pub column: Seq<char>,
    pub element_type: LanceDataType,
    pub query: Seq<u8>,
    pub k: u32,
}

/// A full-text query, mathematically.
pub ghost struct FtsModel {
    pub query: Seq<char>,
    pub columns: Option<Seq<Seq<char>>>,
    pub max_fuzzy_distance: Option<u32>,
}

/// An attached full-text query context, mathematically.
pub ghost struct FtsContextModel {
    pub segments: Seq<Seq<u8>>,
    pub dataset_version: u64,
}

/// A scanner, mathematically.
pub ghost struct ScannerModel {
    pub columns: Option<Seq<Seq<char>>>,
    pub filter: Option<Seq<char>>,
    pub substrait_filter: Option<Seq<u8>>,
    pub additional_sql_filters: Seq<Seq<char>>,
    pub limit: Option<i64>,
    pub offset: Option<i64>,
    pub batch_size: Option<usize>,
    pub with_row_id: bool,
    pub fragment_ids: Option<Seq<u64>>,
    pub index_segments: Option<Seq<Seq<u8>>>,
    pub nearest: Option<NearestModel>,
    pub nprobes: Option<u32>,
    pub refine_factor: Option<u32>,
    pub ef: Option<u32>,
    pub metric_override: Option<LanceMetricType>,
    pub use_index: Option<bool>,
    pub prefilter: bool,
    pub fts_query: Option<FtsModel>,
    pub fts_context: Option<FtsContextModel>,
    pub fts_index_segments: Option<Seq<Seq<u8>>>,
    pub poisoned: bool,
    pub statistics_callback: Option<u64>,
    pub scan_started: bool,
    pub stream_open: bool,
}

/// Texts as sequences of characters.
pub open spec fn texts(strings: Seq<String>) -> Seq<Seq<char>> {
    strings.map_values(|string: String| string@)
}

/// Optional texts as sequences of characters.
pub open spec fn optional_texts(strings: Option<Vec<String>>) -> Option<Seq<Seq<char>>> {
    match strings {
        Some(strings) => Some(texts(strings@)),
        None => None,
    }
}

/// An optional list as a sequence.
pub open spec fn optional_seq<T>(list: Option<Vec<T>>) -> Option<Seq<T>> {
    match list {
        Some(list) => Some(list@),
        None => None,
    }
}

/// Identifiers as sequences of octets.
pub open spec fn uuids(list: Seq<[u8; 16]>) -> Seq<Seq<u8>> {
    list.map_values(|uuid: [u8; 16]| uuid@)
}

/// Optional identifiers as sequences of octets.
pub open spec fn optional_uuids(list: Option<Vec<[u8; 16]>>) -> Option<Seq<Seq<u8>>> {
    match list {
        Some(list) => Some(uuids(list@)),
        None => None,
    }
}

/// Opaque scanner handle. Stores configuration until a stream is made.
pub struct LanceScanner {
    pub columns: Option<Vec<String>>,
    pub filter: Option<String>,
    pub substrait_filter: Option<Vec<u8>>,
    pub additional_sql_filters: Vec<String>,
    pub limit: Option<i64>,
    pub offset: Option<i64>,
    pub batch_size: Option<usize>,
    pub with_row_id: bool,
    pub fragment_ids: Option<Vec<u64>>,
    pub index_segments: Option<Vec<[u8; 16]>>,
    pub nearest: Option<NearestQuery>,
    pub nprobes: Option<u32>,
    pub refine_factor: Option<u32>,
    pub ef: Option<u32>,
    pub metric_override: Option<LanceMetricType>,
    pub use_index: Option<bool>,
    pub prefilter: bool,
    pub fts_query: Option<FtsQuery>,
    pub fts_context: Option<FtsContext>,
    pub fts_index_segments: Option<Vec<[u8; 16]>>,
    /// Set when a panic is caught in an operation on this scanner: every later
    /// call on the handle fails, except the one that closes it.
    pub poisoned: bool,
    /// The registration of the statistics callback.
    pub statistics_callback: Option<u64>,
    /// Set when the first stream of this scanner is built.
    pub scan_started: bool,
    /// Set when the stream of batch-wise iteration exists.
    pub stream_open: bool,
}

impl View for LanceScanner {
    type V = ScannerModel;

    open spec fn view(&self) -> ScannerModel {
        ScannerModel {
            columns: optional_texts(self.columns),
            filter: match self.filter {
                Some(filter) => Some(filter@),
                None => None,
            },
            substrait_filter: optional_seq(self.substrait_filter),
            additional_sql_filters: texts(self.additional_sql_filters@),
            limit: self.limit,
            offset: self.offset,
            batch_size: self.batch_size,
            with_row_id: self.with_row_id,
            fragment_ids: optional_seq(self.fragment_ids),
            index_segments: optional_uuids(self.index_segments),
            nearest: match self.nearest {
                Some(nearest) => Some(
                    NearestModel {
                        column: nearest.column@,
                        element_type: nearest.element_type,
                        query: nearest.query@,
                        k: nearest.k,
                    },
                ),
                None => None,
            },
            nprobes: self.nprobes,
            refine_factor: self.refine_factor,
            ef: self.ef,
            metric_override: self.metric_override,
            use_index: self.use_index,
            prefilter: self.prefilter,
            fts_query: match self.fts_query {
                Some(query) => Some(
                    FtsModel {
                        query: query.query@,
                        columns: optional_texts(query.columns),
                        max_fuzzy_distance: query.max_fuzzy_distance,
                    },
                ),
                None => None,
            },
            fts_context: match self.fts_context {
                Some(context) => Some(
                    FtsContextModel {
                        segments: uuids(context.segments@),
                        dataset_version: context.dataset_version,
                    },
                ),
                None => None,
            },
            fts_index_segments: optional_uuids(self.fts_index_segments),
            poisoned: self.poisoned,
            statistics_callback: self.statistics_callback,
            scan_started: self.scan_started,
            stream_open: self.stream_open,
        }
    }
}

/// At most one search is configured: nearest neighbours, full text, or an
/// attached full-text context.
pub open spec fn one_search(scanner: ScannerModel) -> bool {
    &&& !(scanner.nearest is Some && scanner.fts_query is Some)
    &&& !(scanner.nearest is Some && scanner.fts_context is Some)
    &&& !(scanner.fts_query is Some && scanner.fts_context is Some)
}

/// What a call on a poisoned scanner reports.
pub open spec fn poison_report() -> error::Report {
    error::plain(LanceErrorCode::Panic, "scanner is poisoned by an earlier panic"@)
}

/// What a caught panic reports.
pub open spec fn panic_report(message: Seq<char>) -> error::Report {
    error::plain(LanceErrorCode::Panic, "panic in FFI call: "@ + message)
}

/// The failure of the handle argument of a call: NULL, or poisoned. A poisoned
/// handle is refused before any other argument is looked at.
pub open spec fn handle_failure(
    scanner: Option<ScannerModel>,
    when_null: Seq<char>,
) -> Option<error::Report> {
    match scanner {
        None => Some(error::invalid(when_null)),
        Some(scanner) => if scanner.poisoned {
            Some(poison_report())
        } else {
            None
        },
    }
}

/// The model of a handle argument.
pub open spec fn model_of(scanner: Option<&mut LanceScanner>) -> Option<ScannerModel> {
    match scanner {
        Some(scanner) => Some(scanner@),
        None => None,
    }
}

/// A scanner without options over a dataset.
pub open spec fn fresh_scanner(
    columns: Option<Seq<Seq<char>>>,
    filter: Option<Seq<char>>,
) -> ScannerModel {
    ScannerModel {
        columns,
        filter,
        substrait_filter: None,
        additional_sql_filters: Seq::empty(),
        limit: None,
        offset: None,
        batch_size: None,
        with_row_id: false,
        fragment_ids: None,
        index_segments: None,
        nearest: None,
        nprobes: None,
        refine_factor: None,
        ef: None,
        metric_override: None,
        use_index: None,
        prefilter: false,
        fts_query: None,
        fts_context: None,
        fts_index_segments: None,
        poisoned: false,
        statistics_callback: None,
        scan_started: false,
        stream_open: false,
    }
}

impl LanceScanner {
    /// A scanner that returns every row and column.
    pub fn new() -> (scanner: LanceScanner)
        ensures
            scanner@ == fresh_scanner(None, None),
            one_search(scanner@),
    {
        let scanner = LanceScanner {
            columns: None,
            filter: None,
            substrait_filter: None,
            additional_sql_filters: Vec::new(),
            limit: None,
            offset: None,
            batch_size: None,
            with_row_id: false,
            fragment_ids: None,
            index_segments: None,
            nearest: None,
            nprobes: None,
            refine_factor: None,
            ef: None,
            metric_override: None,
            use_index: None,
            prefilter: false,
            fts_query: None,
            fts_context: None,
            fts_index_segments: None,
            poisoned: false,
            statistics_callback: None,
            scan_started: false,
            stream_open: false,
        };
        assert(scanner@.additional_sql_filters =~= Seq::empty());
        scanner
    }

    /// Whether a panic was caught in an earlier operation on this scanner.
    pub fn is_poisoned(&self) -> (poisoned: bool)
        ensures
            poisoned == self@.poisoned,
    {
        self.poisoned
    }

    /// Marks the scanner as unusable.
    pub fn poison(&mut self)
        ensures
            final(self)@ == (ScannerModel { poisoned: true, ..old(self)@ }),
    {
        self.poisoned = true;
    }
}

/// Makes a scanner over a dataset. `columns` are the parsed column names, or the
/// failure to parse them.
pub fn scanner_new_inner(
    dataset_is_null: bool,
    columns: Result<Option<Vec<String>>, LanceError>,
    filter: &CStringArg,
) -> (result: Result<LanceScanner, LanceError>)
    ensures
        match result {
            Ok(scanner) => {
                &&& new_failure(dataset_is_null, columns, *filter) is None
                &&& scanner@ == fresh_scanner(optional_texts(columns->Ok_0), filter.text())
                &&& one_search(scanner@)
            },
            Err(error) => new_failure(dataset_is_null, columns, *filter) == Some(error@),
        },
{
    if dataset_is_null {
        return Err(LanceError::invalid("dataset must not be NULL"));
    }
    let columns: Option<Vec<String>> = match columns {
        Ok(columns) => columns,
        Err(error) => {
            return Err(error);
        },
    };
    let filter: Option<String> = match parse_c_string(filter) {
        Ok(Some(filter)) => Some(filter.to_owned()),
        Ok(None) => None,
        Err(error) => {
            return Err(error);
        },
    };
    let mut scanner = LanceScanner::new();
    scanner.columns = columns;
    scanner.filter = filter;
    Ok(scanner)
}

/// The first failure among the arguments of a new scanner.
pub open spec fn new_failure(
    dataset_is_null: bool,
    columns: Result<Option<Vec<String>>, LanceError>,
    filter: CStringArg,
) -> Option<error::Report> {
    if dataset_is_null {
        Some(error::invalid("dataset must not be NULL"@))
    } else if columns is Err {
        error::failure(columns)
    } else if filter is Malformed {
        Some(helpers::malformed_text())
    } else {
        None
    }
}

/// Looks at the handle argument of a setter, and notes a failure.
fn usable<'a>(
    last: &mut LastError,
    scanner: Option<&'a mut LanceScanner>,
    when_null: &str,
) -> (admitted: Option<&'a mut LanceScanner>)
    ensures
        match scanner {
            None => admitted is None && final(last)@ == error::invalid(when_null@),
            Some(handle) => if handle@.poisoned {
                admitted is None && final(last)@ == poison_report() && *final(handle) == *handle
            } else {
                admitted matches Some(inner) && *inner == *handle && *final(inner) == *final(handle)
                    && final(last)@ == old(last)@
            },
        },
{
    match scanner {
        None => {
            last.set_lance_error(LanceError::invalid(when_null));
            None
        },
        Some(handle) => {
            if handle.poisoned {
                last.set_last_error(
                    LanceErrorCode::Panic,
                    "scanner is poisoned by an earlier panic",
                );
                None
            } else {
                Some(handle)
            }
        },
    }
}

/// Sets the row limit.
pub fn lance_scanner_set_limit(
    last: &mut LastError,
    scanner: Option<&mut LanceScanner>,
    limit: i64,
) -> (status: i32)
    ensures
        error::reports(
            status,
            final(last)@,
            handle_failure(model_of(scanner), "scanner is NULL"@),
        ),
        scanner matches Some(handle) ==> final(handle)@ == (if handle@.poisoned {
            handle@
        } else {
            ScannerModel { limit: Some(limit), ..handle@ }
        }),
{
    match usable(last, scanner, "scanner is NULL") {
        None => -1,
        Some(handle) => {
            handle.limit = Some(limit);
            last.clear_last_error();
            0
        },
    }
}

/// Sets the row offset.
pub fn lance_scanner_set_offset(
    last: &mut LastError,
    scanner: Option<&mut LanceScanner>,
    offset: i64,
) -> (status: i32)
    ensures
        error::reports(
            status,
            final(last)@,
            handle_failure(model_of(scanner), "scanner is NULL"@),
        ),
        scanner matches Some(handle) ==> final(handle)@ == (if handle@.poisoned {
            handle@
        } else {
            ScannerModel { offset: Some(offset), ..handle@ }
        }),
{
    match usable(last, scanner, "scanner is NULL") {
        None => -1,
        Some(handle) => {
            handle.offset = Some(offset);
            last.clear_last_error();
            0
        },
    }
}

/// Sets the batch size.
pub fn lance_scanner_set_batch_size(
    last: &mut LastError,
    scanner: Option<&mut LanceScanner>,
    batch_size: i64,
) -> (status: i32)
    ensures
        error::reports(
            status,
            final(last)@,
            handle_failure(model_of(scanner), "scanner is NULL"@),
        ),
        scanner matches Some(handle) ==> final(handle)@ == (if handle@.poisoned {
            handle@
        } else {
            ScannerModel { batch_size: Some(batch_size as usize), ..handle@ }
        }),
{
    match usable(last, scanner, "scanner is NULL") {
        None => -1,
        Some(handle) => {
            handle.batch_size = Some(batch_size as usize);
            last.clear_last_error();
            0
        },
    }
}

/// Enables or disables row ids in the output.
pub fn lance_scanner_with_row_id(
    last: &mut LastError,
    scanner: Option<&mut LanceScanner>,
    enable: bool,
) -> (status: i32)
    ensures
        error::reports(
            status,
            final(last)@,
            handle_failure(model_of(scanner), "scanner is NULL"@),
        ),
        scanner matches Some(handle) ==> final(handle)@ == (if handle@.poisoned {
            handle@
        } else {
            ScannerModel { with_row_id: enable, ..handle@ }
        }),
{
    match usable(last, scanner, "scanner is NULL") {
        None => -1,
        Some(handle) => {
            handle.with_row_id = enable;
            last.clear_last_error();
            0
        },
    }
}

/// Sets how many partitions a vector search probes.
pub fn lance_scanner_set_nprobes(
    last: &mut LastError,
    scanner: Option<&mut LanceScanner>,
    value: u32,
) -> (status: i32)
    ensures
        error::reports(
            status,
            final(last)@,
            handle_failure(model_of(scanner), "scanner is NULL"@),
        ),
        scanner matches Some(handle) ==> final(handle)@ == (if handle@.poisoned {
            handle@
        } else {
            ScannerModel { nprobes: Some(value), ..handle@ }
        }),
{
    match usable(last, scanner, "scanner is NULL") {
        None => -1,
        Some(handle) => {
            handle.nprobes = Some(value);
            last.clear_last_error();
            0
        },
    }
}

/// Sets the refine factor of a vector search.
pub fn lance_scanner_set_refine_factor(
    last: &mut LastError,
    scanner: Option<&mut LanceScanner>,
    value: u32,
) -> (status: i32)
    ensures
        error::reports(
            status,
            final(last)@,
            handle_failure(model_of(scanner), "scanner is NULL"@),
        ),
        scanner matches Some(handle) ==> final(handle)@ == (if handle@.poisoned {
            handle@
        } else {
            ScannerModel { refine_factor: Some(value), ..handle@ }
        }),
{
    match usable(last, scanner, "scanner is NULL") {
        None => -1,
        Some(handle) => {
            handle.refine_factor = Some(value);
            last.clear_last_error();
            0
        },
    }
}

/// Sets the breadth of a graph search.
pub fn lance_scanner_set_ef(
    last: &mut LastError,
    scanner: Option<&mut LanceScanner>,
    value: u32,
) -> (status: i32)
    ensures
        error::reports(
            status,
            final(last)@,
            handle_failure(model_of(scanner), "scanner is NULL"@),
        ),
        scanner matches Some(handle) ==> final(handle)@ == (if handle@.poisoned {
            handle@
        } else {
            ScannerModel { ef: Some(value), ..handle@ }
        }),
{
    match usable(last, scanner, "scanner is NULL") {
        None => -1,
        Some(handle) => {
            handle.ef = Some(value);
            last.clear_last_error();
            0
        },
    }
}

/// Says whether a vector search uses an index.
pub fn lance_scanner_set_use_index(
    last: &mut LastError,
    scanner: Option<&mut LanceScanner>,
    enable: bool,
) -> (status: i32)
    ensures
        error::reports(
            status,
            final(last)@,
            handle_failure(model_of(scanner), "scanner is NULL"@),
        ),
        scanner matches Some(handle) ==> final(handle)@ == (if handle@.poisoned {
            handle@
        } else {
            ScannerModel { use_index: Some(enable), ..handle@ }
        }),
{
    match usable(last, scanner, "scanner is NULL") {
        None => -1,
        Some(handle) => {
            handle.use_index = Some(enable);
            last.clear_last_error();
            0
        },
    }
}

/// Says whether the filter applies before the search.
pub fn lance_scanner_set_prefilter(
    last: &mut LastError,
    scanner: Option<&mut LanceScanner>,
    enable: bool,
) -> (status: i32)
    ensures
        error::reports(
            status,
            final(last)@,
            handle_failure(model_of(scanner), "scanner is NULL"@),
        ),
        scanner matches Some(handle) ==> final(handle)@ == (if handle@.poisoned {
            handle@
        } else {
            ScannerModel { prefilter: enable, ..handle@ }
        }),
{
    match usable(last, scanner, "scanner is NULL") {
        None => -1,
        Some(handle) => {
            handle.prefilter = enable;
            last.clear_last_error();
            0
        },
    }
}

/// Ends a setter: keeps a failure, or clears the last error.
fn settle(last: &mut LastError, failed: Option<LanceError>) -> (status: i32)
    ensures
        error::reports(
            status,
            final(last)@,
            match failed {
                Some(error) => Some(error@),
                None => None,
            },
        ),
{
    match failed {
        Some(error) => {
            last.set_lance_error(error);
            -1
        },
        None => {
            last.clear_last_error();
            0
        },
    }
}

/// The first failure of `lance_scanner_set_fragment_ids`.
pub open spec fn fragment_ids_failure(
    scanner: Option<ScannerModel>,
    ids_is_null: bool,
    len: usize,
) -> Option<error::Report> {
    if handle_failure(scanner, "scanner is NULL"@) is Some {
        handle_failure(scanner, "scanner is NULL"@)
    } else if ids_is_null && len > 0 {
        Some(error::invalid("ids is NULL but len > 0"@))
    } else {
        None
    }
}

/// Restricts the scan to fragments; `ids` holds `len` of them, or is NULL.
pub fn lance_scanner_set_fragment_ids(
    last: &mut LastError,
    scanner: Option<&mut LanceScanner>,
    ids: Option<Vec<u64>>,
    len: usize,
) -> (status: i32)
    requires
        ids matches Some(list) ==> list@.len() == len,
    ensures
        error::reports(
            status,
            final(last)@,
            fragment_ids_failure(model_of(scanner), ids is None, len),
        ),
        scanner matches Some(handle) ==> final(handle)@ == (if fragment_ids_failure(
            Some(handle@),
            ids is None,
            len,
        ) is Some {
            handle@
        } else {
            ScannerModel {
                fragment_ids: Some(
                    match ids {
                        Some(list) => list@,
                        None => Seq::empty(),
                    },
                ),
                ..handle@
            }
        }),
{
    match usable(last, scanner, "scanner is NULL") {
        None => -1,
        Some(handle) => match ids {
            None => {
                if len > 0 {
                    return settle(last, Some(LanceError::invalid("ids is NULL but len > 0")));
                }
                handle.fragment_ids = Some(Vec::new());
                settle(last, None)
            },
            Some(list) => {
                handle.fragment_ids = Some(list);
                settle(last, None)
            },
        },
    }
}

/// The first failure of `lance_scanner_set_substrait_filter`.
pub open spec fn substrait_failure(
    scanner: Option<ScannerModel>,
    bytes: Option<Seq<u8>>,
) -> Option<error::Report> {
    if handle_failure(scanner, "scanner is NULL"@) is Some {
        handle_failure(scanner, "scanner is NULL"@)
    } else {
        match bytes {
            None => Some(error::invalid("bytes is NULL"@)),
            Some(bytes) => if bytes.len() == 0 {
                Some(error::invalid("Substrait filter bytes must be non-empty"@))
            } else {
                None
            },
        }
    }
}

/// Sets a serialized Substrait filter; it takes the place of the SQL filter.
pub fn lance_scanner_set_substrait_filter(
    last: &mut LastError,
    scanner: Option<&mut LanceScanner>,
    bytes: Option<Vec<u8>>,
) -> (status: i32)
    ensures
        error::reports(
            status,
            final(last)@,
            substrait_failure(model_of(scanner), optional_seq(bytes)),
        ),
        scanner matches Some(handle) ==> final(handle)@ == (if substrait_failure(
            Some(handle@),
            optional_seq(bytes),
        ) is Some {
            handle@
        } else {
            ScannerModel { substrait_filter: optional_seq(bytes), ..handle@ }
        }),
{
    match usable(last, scanner, "scanner is NULL") {
        None => -1,
        Some(handle) => match bytes {
            None => settle(last, Some(LanceError::invalid("bytes is NULL"))),
            Some(bytes) => {
                if bytes.len() == 0 {
                    return settle(
                        last,
                        Some(LanceError::invalid("Substrait filter bytes must be non-empty")),
                    );
                }
                handle.substrait_filter = Some(bytes);
                settle(last, None)
            },
        },
    }
}

/// The first failure of `lance_scanner_additional_sql_filter`.
pub open spec fn additional_filter_failure(
    scanner: Option<ScannerModel>,
    filter: CStringArg,
) -> Option<error::Report> {
    if handle_failure(scanner, "scanner is NULL"@) is Some {
        handle_failure(scanner, "scanner is NULL"@)
    } else if filter.required("filter must not be NULL"@) is Some {
        filter.required("filter must not be NULL"@)
    } else if filter.text()->0.len() == 0 {
        Some(error::invalid("additional SQL filter must be non-empty"@))
    } else if scanner->0.scan_started {
        Some(error::invalid("additional SQL filter must be set before the scan starts"@))
    } else {
        None
    }
}

/// Adds an SQL filter that every row must meet besides the primary filter.
pub fn lance_scanner_additional_sql_filter(
    last: &mut LastError,
    scanner: Option<&mut LanceScanner>,
    filter: &CStringArg,
) -> (status: i32)
    ensures
        error::reports(
            status,
            final(last)@,
            additional_filter_failure(model_of(scanner), *filter),
        ),
        scanner matches Some(handle) ==> final(handle)@ == (if additional_filter_failure(
            Some(handle@),
            *filter,
        ) is Some {
            handle@
        } else {
            ScannerModel {
                additional_sql_filters: handle@.additional_sql_filters.push(filter.text()->0),
                ..handle@
            }
        }),
{
    match usable(last, scanner, "scanner is NULL") {
        None => -1,
        Some(handle) => {
            let filter: &str = match require_c_string(filter, "filter must not be NULL") {
                Ok(filter) => filter,
                Err(error) => {
                    return settle(last, Some(error));
                },
            };
            if filter.is_empty() {
                return settle(
                    last,
                    Some(LanceError::invalid("additional SQL filter must be non-empty")),
                );
            }
            if handle.scan_started {
                return settle(
                    last,
                    Some(
                        LanceError::invalid(
                            "additional SQL filter must be set before the scan starts",
                        ),
                    ),
                );
            }
            let ghost before = handle.additional_sql_filters@;
            handle.additional_sql_filters.push(filter.to_owned());
            assert(texts(handle.additional_sql_filters@) =~= texts(before).push(filter@));
            settle(last, None)
        },
    }
}

/// The first failure of `lance_scanner_set_statistics_callback`.
pub open spec fn statistics_failure(
    scanner: Option<ScannerModel>,
    callback_is_null: bool,
) -> Option<error::Report> {
    if handle_failure(scanner, "scanner is NULL"@) is Some {
        handle_failure(scanner, "scanner is NULL"@)
    } else if callback_is_null {
        Some(error::invalid("statistics callback is NULL"@))
    } else if scanner->0.scan_started {
        Some(error::invalid("statistics callback must be registered before the scan starts"@))
    } else {
        None
    }
}

/// Registers a callback for execution statistics in place of an earlier one.
pub fn lance_scanner_set_statistics_callback(
    last: &mut LastError,
    scanner: Option<&mut LanceScanner>,
    callback: Option<u64>,
) -> (status: i32)
    ensures
        error::reports(
            status,
            final(last)@,
            statistics_failure(model_of(scanner), callback is None),
        ),
        scanner matches Some(handle) ==> final(handle)@ == (if statistics_failure(
            Some(handle@),
            callback is None,
        ) is Some {
            handle@
        } else {
            ScannerModel { statistics_callback: callback, ..handle@ }
        }),
{
    match usable(last, scanner, "scanner is NULL") {
        None => -1,
        Some(handle) => {
            if callback.is_none() {
                return settle(last, Some(LanceError::invalid("statistics callback is NULL")));
            }
            if handle.scan_started {
                return settle(
                    last,
                    Some(
                        LanceError::invalid(
                            "statistics callback must be registered before the scan starts",
                        ),
                    ),
                );
            }
            handle.statistics_callback = callback;
            settle(last, None)
        },
    }
}

/// The first failure of `lance_scanner_set_metric`.
pub open spec fn metric_failure(scanner: Option<ScannerModel>, metric: i32) -> Option<
    error::Report,
> {
    if handle_failure(scanner, "scanner is NULL"@) is Some {
        handle_failure(scanner, "scanner is NULL"@)
    } else if !(0 <= metric <= 3) {
        Some(error::invalid("invalid metric: "@ + text::signed_decimal(metric as int)))
    } else {
        None
    }
}

/// Sets the distance metric of a vector search.
pub fn lance_scanner_set_metric(
    last: &mut LastError,
    scanner: Option<&mut LanceScanner>,
    metric: i32,
) -> (status: i32)
    ensures
        error::reports(status, final(last)@, metric_failure(model_of(scanner), metric)),
        scanner matches Some(handle) ==> (if metric_failure(Some(handle@), metric) is Some {
            final(handle)@ == handle@
        } else {
            final(handle)@.metric_override matches Some(chosen) && chosen.raw() == metric
                && final(handle)@ == (ScannerModel { metric_override: Some(chosen), ..handle@ })
        }),
{
    match usable(last, scanner, "scanner is NULL") {
        None => -1,
        Some(handle) => match LanceMetricType::from_raw(metric) {
            Some(chosen) => {
                handle.metric_override = Some(chosen);
                settle(last, None)
            },
            None => {
                let mut message: String = "invalid metric: ".to_owned();
                text::push_signed(&mut message, metric as i64);
                settle(last, Some(LanceError::invalid_text(message)))
            },
        },
    }
}

/// Identifiers laid end to end, sixteen octets each.
pub open spec fn uuid_chunks(octets: Seq<u8>, len: nat) -> Seq<Seq<u8>> {
    Seq::new(len, |i: int| octets.subrange(16 * i, 16 * i + 16))
}

/// Takes apart identifiers that are laid end to end.
pub fn split_uuids(octets: &[u8], len: usize) -> (list: Vec<[u8; 16]>)
    requires
        octets@.len() == 16 * len,
    ensures
        uuids(list@) == uuid_chunks(octets@, len as nat),
{
    let mut list: Vec<[u8; 16]> = Vec::new();
    let mut i: usize = 0;
    let mut at: usize = 0;
    while i < len
        invariant
            i <= len,
            at == 16 * i,
            octets@.len() == 16 * len,
            list@.len() == i,
            forall|k: int| 0 <= k < i ==> (#[trigger] list@[k])@ == octets@.subrange(
                16 * k,
                16 * k + 16,
            ),
        decreases len - i,
    {
        let uuid: [u8; 16] = [
            octets[at],
            octets[at + 1],
            octets[at + 2],
            octets[at + 3],
            octets[at + 4],
            octets[at + 5],
            octets[at + 6],
            octets[at + 7],
            octets[at + 8],
            octets[at + 9],
            octets[at + 10],
            octets[at + 11],
            octets[at + 12],
            octets[at + 13],
            octets[at + 14],
            octets[at + 15],
        ];
        assert(uuid@ =~= octets@.subrange(16 * i, 16 * i + 16));
        list.push(uuid);
        i += 1;
        at += 16;
    }
    assert(uuids(list@) =~= uuid_chunks(octets@, len as nat));
    list
}

/// The first failure of `lance_scanner_set_index_segments`.
pub open spec fn index_segments_failure(
    scanner: Option<ScannerModel>,
    segments_is_null: bool,
    len: usize,
) -> Option<error::Report> {
    if handle_failure(scanner, "scanner is NULL"@) is Some {
        handle_failure(scanner, "scanner is NULL"@)
    } else if segments_is_null && len > 0 {
        Some(error::invalid("segment_uuids is NULL but len > 0"@))
    } else {
        None
    }
}

/// Restricts a vector search to index segments: `len` identifiers laid end to
/// end. None of them lifts the restriction.
pub fn lance_scanner_set_index_segments(
    last: &mut LastError,
    scanner: Option<&mut LanceScanner>,
    segment_uuids: Option<&[u8]>,
    len: usize,
) -> (status: i32)
    requires
        segment_uuids matches Some(octets) ==> octets@.len() == 16 * len,
    ensures
        error::reports(
            status,
            final(last)@,
            index_segments_failure(model_of(scanner), segment_uuids is None, len),
        ),
        scanner matches Some(handle) ==> final(handle)@ == (if index_segments_failure(
            Some(handle@),
            segment_uuids is None,
            len,
        ) is Some {
            handle@
        } else {
            ScannerModel {
                index_segments: if len == 0 {
                    None
                } else {
                    Some(uuid_chunks(segment_uuids->0@, len as nat))
                },
                ..handle@
            }
        }),
{
    match usable(last, scanner, "scanner is NULL") {
        None => -1,
        Some(handle) => {
            if len == 0 {
                handle.index_segments = None;
                return settle(last, None);
            }
            match segment_uuids {
                None => settle(
                    last,
                    Some(LanceError::invalid("segment_uuids is NULL but len > 0")),
                ),
                Some(octets) => {
                    handle.index_segments = Some(split_uuids(octets, len));
                    settle(last, None)
                },
            }
        },
    }
}

/// The first failure of `lance_scanner_nearest`.
pub open spec fn nearest_failure(
    scanner: Option<ScannerModel>,
    column: CStringArg,
    query_is_null: bool,
    element_type: i32,
    k: u32,
) -> Option<error::Report> {
    let null = "scanner, column, and query_data must not be NULL"@;
    if handle_failure(scanner, null) is Some {
        handle_failure(scanner, null)
    } else if column is Null || query_is_null {
        Some(error::invalid(null))
    } else if k == 0 {
        Some(error::invalid("k must be > 0"@))
    } else if scanner->0.fts_query is Some || scanner->0.fts_context is Some {
        Some(
            error::invalid(
                "cannot call nearest after full_text_search or attaching an FTS query context; they are mutually exclusive"@,
            ),
        )
    } else if column is Malformed {
        Some(helpers::malformed_text())
    } else if !(0 <= element_type <= 4) {
        Some(error::invalid("invalid element_type: "@ + text::signed_decimal(element_type as int)))
    } else {
        None
    }
}

/// Sets a nearest-neighbour query; `query_data` holds `query_len` elements as they
/// lie in memory.
pub fn lance_scanner_nearest(
    last: &mut LastError,
    scanner: Option<&mut LanceScanner>,
    column: &CStringArg,
    query_data: Option<Vec<u8>>,
    query_len: usize,
    element_type: i32,
    k: u32,
) -> (status: i32)
    requires
        query_data matches Some(octets) ==> LanceDataType::fits(octets@, query_len, element_type),
    ensures
        error::reports(
            status,
            final(last)@,
            nearest_failure(model_of(scanner), *column, query_data is None, element_type, k),
        ),
        scanner matches Some(handle) ==> (if nearest_failure(
            Some(handle@),
            *column,
            query_data is None,
            element_type,
            k,
        ) is Some {
            final(handle)@ == handle@
        } else {
            final(handle)@.nearest matches Some(query) && query.column == column.text()->0
                && query.element_type.raw() == element_type && query.query == query_data->0@
                && query.query.len() == query.element_type.width() * query_len
                && query.k == k && final(handle)@ == (ScannerModel {
                nearest: Some(query),
                ..handle@
            })
        }),
        scanner matches Some(handle) ==> (one_search(handle@) ==> one_search(final(handle)@)),
{
    match usable(last, scanner, "scanner, column, and query_data must not be NULL") {
        None => -1,
        Some(handle) => {
            let query: Vec<u8> = match (column, query_data) {
                (CStringArg::Null, _) => {
                    return settle(
                        last,
                        Some(
                            LanceError::invalid("scanner, column, and query_data must not be NULL"),
                        ),
                    );
                },
                (_, None) => {
                    return settle(
                        last,
                        Some(
                            LanceError::invalid("scanner, column, and query_data must not be NULL"),
                        ),
                    );
                },
                (_, Some(query)) => query,
            };
            if k == 0 {
                return settle(last, Some(LanceError::invalid("k must be > 0")));
            }
            if handle.fts_query.is_some() || handle.fts_context.is_some() {
                return settle(
                    last,
                    Some(
                        LanceError::invalid(
                            "cannot call nearest after full_text_search or attaching an FTS query context; they are mutually exclusive",
                        ),
                    ),
                );
            }
            let column: &str = match require_c_string(
                column,
                "scanner, column, and query_data must not be NULL",
            ) {
                Ok(column) => column,
                Err(error) => {
                    return settle(last, Some(error));
                },
            };
            match LanceDataType::from_raw(element_type) {
                None => {
                    let mut message: String = "invalid element_type: ".to_owned();
                    text::push_signed(&mut message, element_type as i64);
                    settle(last, Some(LanceError::invalid_text(message)))
                },
                Some(element_type) => {
                    handle.nearest = Some(
                        NearestQuery { column: column.to_owned(), element_type, query, k },
                    );
                    settle(last, None)
                },
            }
        },
    }
}

/// The first failure of `lance_scanner_full_text_search`.
pub open spec fn fts_failure(
    scanner: Option<ScannerModel>,
    query: CStringArg,
    columns: Result<Option<Vec<String>>, LanceError>,
    columns_accepted: Result<(), LanceError>,
) -> Option<error::Report> {
    let null = "scanner and query must not be NULL"@;
    if handle_failure(scanner, null) is Some {
        handle_failure(scanner, null)
    } else if query is Null {
        Some(error::invalid(null))
    } else if scanner->0.nearest is Some {
        Some(
            error::invalid(
                "cannot call full_text_search after nearest; they are mutually exclusive"@,
            ),
        )
    } else if scanner->0.fts_context is Some {
        Some(
            error::invalid(
                "cannot call full_text_search after attaching an FTS query context; the context already owns the query"@,
            ),
        )
    } else if query is Malformed {
        Some(helpers::malformed_text())
    } else if columns is Err {
        error::failure(columns)
    } else if columns->Ok_0 matches Some(list) && list@.len() > 0 {
        error::failure(columns_accepted)
    } else {
        None
    }
}

/// Sets a full-text query. An edit distance of zero matches exactly; no columns
/// search every indexed column. `columns_accepted` tells what the query made of
/// the columns.
pub fn lance_scanner_full_text_search(
    last: &mut LastError,
    scanner: Option<&mut LanceScanner>,
    query: &CStringArg,
    columns: Result<Option<Vec<String>>, LanceError>,
    columns_accepted: Result<(), LanceError>,
    max_fuzzy_distance: u32,
) -> (status: i32)
    ensures
        error::reports(
            status,
            final(last)@,
            fts_failure(model_of(scanner), *query, columns, columns_accepted),
        ),
        scanner matches Some(handle) ==> final(handle)@ == (if fts_failure(
            Some(handle@),
            *query,
            columns,
            columns_accepted,
        ) is Some {
            handle@
        } else {
            ScannerModel {
                fts_query: Some(
                    FtsModel {
                        query: query.text()->0,
                        columns: match columns->Ok_0 {
                            Some(list) => if list@.len() > 0 {
                                Some(texts(list@))
                            } else {
                                None
                            },
                            None => None,
                        },
                        max_fuzzy_distance: if max_fuzzy_distance > 0 {
                            Some(max_fuzzy_distance)
                        } else {
                            None
                        },
                    },
                ),
                ..handle@
            }
        }),
        scanner matches Some(handle) ==> (one_search(handle@) ==> one_search(final(handle)@)),
{
    match usable(last, scanner, "scanner and query must not be NULL") {
        None => -1,
        Some(handle) => {
            if let CStringArg::Null = query {
                return settle(
                    last,
                    Some(LanceError::invalid("scanner and query must not be NULL")),
                );
            }
            if handle.nearest.is_some() {
                return settle(
                    last,
                    Some(
                        LanceError::invalid(
                            "cannot call full_text_search after nearest; they are mutually exclusive",
                        ),
                    ),
                );
            }
            if handle.fts_context.is_some() {
                return settle(
                    last,
                    Some(
                        LanceError::invalid(
                            "cannot call full_text_search after attaching an FTS query context; the context already owns the query",
                        ),
                    ),
                );
            }
            let query: &str = match require_c_string(query, "scanner and query must not be NULL") {
                Ok(query) => query,
                Err(error) => {
                    return settle(last, Some(error));
                },
            };
            let columns: Option<Vec<String>> = match columns {
                Ok(columns) => columns,
                Err(error) => {
                    return settle(last, Some(error));
                },
            };
            let columns: Option<Vec<String>> = match columns {
                Some(list) => {
                    if list.len() > 0 {
                        if let Err(error) = columns_accepted {
                            return settle(last, Some(error));
                        }
                        Some(list)
                    } else {
                        None
                    }
                },
                None => None,
            };
            let max_fuzzy_distance: Option<u32> = if max_fuzzy_distance > 0 {
                Some(max_fuzzy_distance)
            } else {
                None
            };
            handle.fts_query = Some(
                FtsQuery { query: query.to_owned(), columns, max_fuzzy_distance },
            );
            settle(last, None)
        },
    }
}

/// The first failure of `lance_scanner_set_fts_query_context`.
pub open spec fn fts_context_failure(
    scanner: Option<ScannerModel>,
    context: Result<FtsContext, LanceError>,
    same_dataset: Result<(), LanceError>,
) -> Option<error::Report> {
    if handle_failure(scanner, "scanner must not be NULL"@) is Some {
        handle_failure(scanner, "scanner must not be NULL"@)
    } else if context is Err {
        error::failure(context)
    } else if scanner->0.nearest is Some {
        Some(
            error::invalid(
                "cannot attach an FTS query context after nearest; they are mutually exclusive"@,
            ),
        )
    } else if scanner->0.fts_query is Some {
        Some(
            error::invalid(
                "cannot attach an FTS query context after full_text_search; the context already owns the query"@,
            ),
        )
    } else {
        error::failure(same_dataset)
    }
}

/// Attaches a full-text query context. `context` is the shared context, or the
/// failure to take it; `same_dataset` tells whether it belongs to the scanner's
/// dataset.
pub fn lance_scanner_set_fts_query_context(
    last: &mut LastError,
    scanner: Option<&mut LanceScanner>,
    context: Result<FtsContext, LanceError>,
    same_dataset: Result<(), LanceError>,
) -> (status: i32)
    ensures
        error::reports(
            status,
            final(last)@,
            fts_context_failure(model_of(scanner), context, same_dataset),
        ),
        scanner matches Some(handle) ==> final(handle)@ == (if fts_context_failure(
            Some(handle@),
            context,
            same_dataset,
        ) is Some {
            handle@
        } else {
            ScannerModel {
                fts_context: Some(
                    FtsContextModel {
                        segments: uuids(context->Ok_0.segments@),
                        dataset_version: context->Ok_0.dataset_version,
                    },
                ),
                ..handle@
            }
        }),
        scanner matches Some(handle) ==> (one_search(handle@) ==> one_search(final(handle)@)),
{
    match usable(last, scanner, "scanner must not be NULL") {
        None => -1,
        Some(handle) => {
            let context: FtsContext = match context {
                Ok(context) => context,
                Err(error) => {
                    return settle(last, Some(error));
                },
            };
            if handle.nearest.is_some() {
                return settle(
                    last,
                    Some(
                        LanceError::invalid(
                            "cannot attach an FTS query context after nearest; they are mutually exclusive",
                        ),
                    ),
                );
            }
            if handle.fts_query.is_some() {
                return settle(
                    last,
                    Some(
                        LanceError::invalid(
                            "cannot attach an FTS query context after full_text_search; the context already owns the query",
                        ),
                    ),
                );
            }
            if let Err(error) = same_dataset {
                return settle(last, Some(error));
            }
            handle.fts_context = Some(context);
            settle(last, None)
        },
    }
}

/// The first failure of `lance_scanner_set_fts_index_segments`.
pub open spec fn fts_segments_failure(
    scanner: Option<ScannerModel>,
    segments: Result<Vec<[u8; 16]>, LanceError>,
    len: usize,
) -> Option<error::Report> {
    if handle_failure(scanner, "scanner must not be NULL"@) is Some {
        handle_failure(scanner, "scanner must not be NULL"@)
    } else if len > 0 {
        error::failure(segments)
    } else {
        None
    }
}

/// Restricts a scan with an attached context to some of its segments. None of
/// them lifts the restriction. `segments` are the parsed identifiers, or the
/// failure to parse them.
pub fn lance_scanner_set_fts_index_segments(
    last: &mut LastError,
    scanner: Option<&mut LanceScanner>,
    segments: Result<Vec<[u8; 16]>, LanceError>,
    len: usize,
) -> (status: i32)
    ensures
        error::reports(
            status,
            final(last)@,
            fts_segments_failure(model_of(scanner), segments, len),
        ),
        scanner matches Some(handle) ==> final(handle)@ == (if fts_segments_failure(
            Some(handle@),
            segments,
            len,
        ) is Some {
            handle@
        } else {
            ScannerModel {
                fts_index_segments: if len == 0 {
                    None
                } else {
                    Some(uuids(segments->Ok_0@))
                },
                ..handle@
            }
        }),
{
    match usable(last, scanner, "scanner must not be NULL") {
        None => -1,
        Some(handle) => {
            if len == 0 {
                handle.fts_index_segments = None;
                return settle(last, None);
            }
            match segments {
                Ok(list) => {
                    handle.fts_index_segments = Some(list);
                    settle(last, None)
                },
                Err(error) => settle(last, Some(error)),
            }
        },
    }
}

/// Keeps a panic that was caught in a call on a scanner: the handle is poisoned,
/// and the call fails with the panic's message.
pub fn note_panic(
    last: &mut LastError,
    scanner: Option<&mut LanceScanner>,
    message: &str,
) -> (status: i32)
    ensures
        status == -1,
        final(last)@ == panic_report(message@),
        scanner matches Some(handle) ==> final(handle)@ == (ScannerModel {
            poisoned: true,
            ..handle@
        }),
{
    if let Some(handle) = scanner {
        handle.poisoned = true;
    }
    let mut text: String = "panic in FFI call: ".to_owned();
    text.append(message);
    last.set_lance_error(LanceError::new(LanceErrorCode::Panic, text));
    -1
}

/// Each element type has its own number and the width of its values in bytes; a query
/// vector fits if and only if it has that many bytes for each of its elements.
pub proof fn law_element_types_have_their_width(kind: LanceDataType, octets: Seq<u8>, len: usize)
    ensures
        kind is Float32 <==> kind.raw() == 0,
        kind is Float16 <==> kind.raw() == 1,
        kind is Float64 <==> kind.raw() == 2,
        kind is UInt8 <==> kind.raw() == 3,
        kind is Int8 <==> kind.raw() == 4,
        kind.width() == match kind {
            LanceDataType::Float64 => 8nat,
            LanceDataType::Float32 => 4,
            LanceDataType::Float16 => 2,
            LanceDataType::UInt8 => 1,
            LanceDataType::Int8 => 1,
        },
        LanceDataType::fits(octets, len, 0) <==> octets.len() == 4 * len,
        LanceDataType::fits(octets, len, 1) <==> octets.len() == 2 * len,
        LanceDataType::fits(octets, len, 2) <==> octets.len() == 8 * len,
        LanceDataType::fits(octets, len, 3) <==> octets.len() == len,
        LanceDataType::fits(octets, len, 4) <==> octets.len() == len,
{
    assert(LanceDataType::Float32.raw() == 0);
    assert(LanceDataType::Float16.raw() == 1);
    assert(LanceDataType::Float64.raw() == 2);
    assert(LanceDataType::UInt8.raw() == 3);
    assert(LanceDataType::Int8.raw() == 4);
}

/// Lists of strings, of values and of identifiers are seen item by item; a list that is
/// missing is seen as missing.
pub proof fn law_lists_are_seen_item_by_item(
    strings: Vec<String>,
    list: Vec<[u8; 16]>,
    values: Vec<u64>,
    octets: Vec<u8>,
    i: int,
)
    ensures
        texts(strings@).len() == strings@.len(),
        0 <= i < strings@.len() ==> texts(strings@)[i] == strings@[i]@,
        optional_texts(Some(strings)) == Some(texts(strings@)) && optional_texts(None) is None,
        uuids(list@).len() == list@.len(),
        0 <= i < list@.len() ==> uuids(list@)[i] == list@[i]@,
        optional_uuids(Some(list)) == Some(uuids(list@)) && optional_uuids(None) is None,
        optional_seq(Some(values)) == Some(values@) && optional_seq::<u64>(None) is None,
        optional_seq(Some(octets)) == Some(octets@) && optional_seq::<u8>(None) is None,
{
}

/// What is known of a scanner is what its fields hold, each under its own name.
pub proof fn law_scanner_is_its_fields(scanner: LanceScanner, i: int)
    ensures
        scanner@.limit == scanner.limit && scanner@.offset == scanner.offset
            && scanner@.batch_size == scanner.batch_size,
        scanner@.with_row_id == scanner.with_row_id && scanner@.prefilter == scanner.prefilter
            && scanner@.use_index == scanner.use_index,
        scanner@.nprobes == scanner.nprobes && scanner@.refine_factor == scanner.refine_factor
            && scanner@.ef == scanner.ef,
        scanner@.metric_override == scanner.metric_override && scanner@.statistics_callback
            == scanner.statistics_callback,
        scanner@.poisoned == scanner.poisoned && scanner@.scan_started == scanner.scan_started
            && scanner@.stream_open == scanner.stream_open,
        scanner.columns is None ==> scanner@.columns is None,
        scanner.columns is Some ==> scanner@.columns is Some && scanner@.columns->0.len()
            == scanner.columns->0@.len() && (0 <= i < scanner.columns->0@.len()
            ==> scanner@.columns->0[i] == scanner.columns->0@[i]@),
        scanner.filter is None ==> scanner@.filter is None,
        scanner.filter is Some ==> scanner@.filter == Some(scanner.filter->0@),
        scanner.substrait_filter is None ==> scanner@.substrait_filter is None,
        scanner.substrait_filter is Some ==> scanner@.substrait_filter == Some(
            scanner.substrait_filter->0@,
        ),
        scanner@.additional_sql_filters.len() == scanner.additional_sql_filters@.len(),
        0 <= i < scanner.additional_sql_filters@.len() ==> scanner@.additional_sql_filters[i]
            == scanner.additional_sql_filters@[i]@,
        scanner.fragment_ids is None ==> scanner@.fragment_ids is None,
        scanner.fragment_ids is Some ==> scanner@.fragment_ids == Some(scanner.fragment_ids->0@),
        scanner.index_segments is None ==> scanner@.index_segments is None,
        scanner.index_segments is Some ==> scanner@.index_segments == Some(
            uuids(scanner.index_segments->0@),
        ),
        scanner.fts_index_segments is None ==> scanner@.fts_index_segments is None,
        scanner.fts_index_segments is Some ==> scanner@.fts_index_segments == Some(
            uuids(scanner.fts_index_segments->0@),
        ),
        scanner.nearest is None ==> scanner@.nearest is None,
        scanner.nearest is Some ==> scanner@.nearest is Some && scanner@.nearest->0.column
            == scanner.nearest->0.column@ && scanner@.nearest->0.element_type
            == scanner.nearest->0.element_type && scanner@.nearest->0.query
            == scanner.nearest->0.query@ && scanner@.nearest->0.k == scanner.nearest->0.k,
        scanner.fts_query is None ==> scanner@.fts_query is None,
        scanner.fts_query is Some ==> scanner@.fts_query is Some && scanner@.fts_query->0.query
            == scanner.fts_query->0.query@ && scanner@.fts_query->0.columns == optional_texts(
            scanner.fts_query->0.columns,
        ) && scanner@.fts_query->0.max_fuzzy_distance == scanner.fts_query->0.max_fuzzy_distance,
        scanner.fts_context is None ==> scanner@.fts_context is None,
        scanner.fts_context is Some ==> scanner@.fts_context is Some
            && scanner@.fts_context->0.segments == uuids(scanner.fts_context->0.segments@)
            && scanner@.fts_context->0.dataset_version == scanner.fts_context->0.dataset_version,
{
}

/// A new scanner has the columns and the filter it was made with and nothing else: no
/// option is set, it was not started, and it can be used.
pub proof fn law_new_scanner_has_no_options(
    columns: Option<Seq<Seq<char>>>,
    filter: Option<Seq<char>>,
)
    ensures
        ({
            let scanner = fresh_scanner(columns, filter);
            &&& scanner.columns == columns && scanner.filter == filter
            &&& scanner.substrait_filter is None && scanner.additional_sql_filters.len() == 0
            &&& scanner.limit is None && scanner.offset is None && scanner.batch_size is None
            &&& !scanner.with_row_id && scanner.fragment_ids is None
            &&& scanner.index_segments is None && scanner.nearest is None
            &&& scanner.nprobes is None && scanner.refine_factor is None && scanner.ef is None
            &&& scanner.metric_override is None && scanner.use_index is None && !scanner.prefilter
            &&& scanner.fts_query is None && scanner.fts_context is None
            &&& scanner.fts_index_segments is None && scanner.statistics_callback is None
            &&& !scanner.poisoned && !scanner.scan_started && !scanner.stream_open
        }),
{
}

/// A scanner is made if and only if there is a dataset, the columns could be read, and
/// the filter is a text or missing.
pub proof fn law_scanner_is_made_for_its_arguments(
    dataset_is_null: bool,
    columns: Result<Option<Vec<String>>, LanceError>,
    filter: CStringArg,
)
    ensures
        new_failure(dataset_is_null, columns, filter) is None <==> !dataset_is_null && columns is Ok
            && !(filter is Malformed),
        dataset_is_null ==> new_failure(dataset_is_null, columns, filter) == Some(
            error::invalid("dataset must not be NULL"@),
        ),
        !dataset_is_null && columns is Err ==> new_failure(dataset_is_null, columns, filter)
            == Some(columns->Err_0@),
        !dataset_is_null && columns is Ok && filter is Malformed ==> new_failure(
            dataset_is_null,
            columns,
            filter,
        ) == Some(error::invalid("C string is not valid UTF-8"@)),
{
}

/// A scanner holds one search if and only if at most one of a nearest-neighbour query,
/// a full-text query and a full-text context is there.
pub proof fn law_one_search_at_a_time(scanner: ScannerModel)
    ensures
        one_search(scanner) <==> (scanner.nearest is None && scanner.fts_query is None)
            || (scanner.nearest is None && scanner.fts_context is None) || (scanner.fts_query
            is None && scanner.fts_context is None),
{
}

/// A handle can be used if and only if it is there and no call on it panicked. A
/// missing one is an invalid argument, one that panicked reports the panic.
pub proof fn law_handle_is_usable_until_it_panics(
    scanner: Option<ScannerModel>,
    words: Seq<char>,
    handle: Option<&mut LanceScanner>,
)
    ensures
        handle_failure(scanner, words) is None <==> scanner is Some && !scanner->0.poisoned,
        scanner is None ==> handle_failure(scanner, words) == Some(error::invalid(words)),
        scanner is Some && scanner->0.poisoned ==> handle_failure(scanner, words) == Some(
            (
                LanceErrorCode::Panic,
                "scanner is poisoned by an earlier panic"@,
                error::Wording::Plain,
            ),
        ),
        panic_report(words).0 == LanceErrorCode::Panic,
        panic_report(words).1 == "panic in FFI call: "@ + words,
        panic_report(words).2 == error::Wording::Plain,
        handle is None ==> model_of(handle) is None,
        handle is Some ==> model_of(handle) == Some(handle->0@),
{
}

/// A setter with an argument is accepted if and only if the handle can be used and the
/// argument is what it must be: a list is there unless it is empty, a filter is not
/// empty, a callback is there, a number names a metric, and what must be set before the
/// scan is set before it.
pub proof fn law_setters_are_accepted_for_their_argument(
    scanner: ScannerModel,
    is_null: bool,
    len: usize,
    bytes: Option<Seq<u8>>,
    filter: CStringArg,
    metric: i32,
)
    requires
        !scanner.poisoned,
    ensures
        ({
            let handle = Some(scanner);
            &&& fragment_ids_failure(handle, is_null, len) is None <==> !is_null || len == 0
            &&& index_segments_failure(handle, is_null, len) is None <==> !is_null || len == 0
            &&& substrait_failure(handle, bytes) is None <==> bytes is Some && bytes->0.len() > 0
            &&& additional_filter_failure(handle, filter) is None <==> filter is Text
                && filter->Text_0@.len() > 0 && !scanner.scan_started
            &&& statistics_failure(handle, is_null) is None <==> !is_null && !scanner.scan_started
            &&& metric_failure(handle, metric) is None <==> 0 <= metric <= 3
        }),
{
}

/// A setter that refuses its argument says why.
pub proof fn law_setters_say_why_they_refuse(
    scanner: ScannerModel,
    len: usize,
    bytes: Seq<u8>,
    filter: CStringArg,
    metric: i32,
)
    requires
        !scanner.poisoned,
    ensures
        ({
            let handle = Some(scanner);
            &&& len > 0 ==> fragment_ids_failure(handle, true, len) == Some(
                error::invalid("ids is NULL but len > 0"@),
            )
            &&& len > 0 ==> index_segments_failure(handle, true, len) == Some(
                error::invalid("segment_uuids is NULL but len > 0"@),
            )
            &&& substrait_failure(handle, None) == Some(error::invalid("bytes is NULL"@))
            &&& bytes.len() == 0 ==> substrait_failure(handle, Some(bytes)) == Some(
                error::invalid("Substrait filter bytes must be non-empty"@),
            )
            &&& filter is Null ==> additional_filter_failure(handle, filter) == Some(
                error::invalid("filter must not be NULL"@),
            )
            &&& filter is Text && filter->Text_0@.len() == 0 ==> additional_filter_failure(
                handle,
                filter,
            ) == Some(error::invalid("additional SQL filter must be non-empty"@))
            &&& filter is Text && filter->Text_0@.len() > 0 && scanner.scan_started
                ==> additional_filter_failure(handle, filter) == Some(
                error::invalid("additional SQL filter must be set before the scan starts"@),
            )
            &&& statistics_failure(handle, true) == Some(
                error::invalid("statistics callback is NULL"@),
            )
            &&& scanner.scan_started ==> statistics_failure(handle, false) == Some(
                error::invalid("statistics callback must be registered before the scan starts"@),
            )
            &&& metric < 0 || metric > 3 ==> metric_failure(handle, metric) == Some(
                error::invalid("invalid metric: "@ + text::signed_decimal(metric as int)),
            )
        }),
{
}

/// A search is accepted if and only if the handle can be used, its own arguments are
/// what they must be, and no other kind of search was set before it.
pub proof fn law_searches_exclude_each_other(
    scanner: ScannerModel,
    column: CStringArg,
    query_is_null: bool,
    element_type: i32,
    k: u32,
    columns: Result<Option<Vec<String>>, LanceError>,
    columns_accepted: Result<(), LanceError>,
    context: Result<FtsContext, LanceError>,
    same_dataset: Result<(), LanceError>,
    segments: Result<Vec<[u8; 16]>, LanceError>,
    len: usize,
)
    requires
        !scanner.poisoned,
    ensures
        ({
            let handle = Some(scanner);
            &&& nearest_failure(handle, column, query_is_null, element_type, k) is None <==> {
                &&& column is Text && !query_is_null && k >= 1 && 0 <= element_type <= 4
                &&& scanner.fts_query is None && scanner.fts_context is None
            }
            &&& fts_failure(handle, column, columns, columns_accepted) is None <==> {
                &&& column is Text && columns is Ok
                &&& scanner.nearest is None && scanner.fts_context is None
                &&& columns->Ok_0 is Some && columns->Ok_0->0@.len() > 0 ==> columns_accepted is Ok
            }
            &&& fts_context_failure(handle, context, same_dataset) is None <==> {
                &&& context is Ok && same_dataset is Ok
                &&& scanner.nearest is None && scanner.fts_query is None
            }
            &&& fts_segments_failure(handle, segments, len) is None <==> len == 0 || segments is Ok
        }),
{
}

/// A search that is refused says why: for another search, for its own arguments, or
/// with the failure that it was handed.
pub proof fn law_searches_say_why_they_refuse(
    scanner: ScannerModel,
    column: CStringArg,
    element_type: i32,
    k: u32,
    columns: Result<Option<Vec<String>>, LanceError>,
    accepted: Result<(), LanceError>,
    context: Result<FtsContext, LanceError>,
    segments: Result<Vec<[u8; 16]>, LanceError>,
    len: usize,
)
    requires
        !scanner.poisoned,
        column is Text,
    ensures
        ({
            let handle = Some(scanner);
            &&& nearest_failure(handle, column, true, element_type, k) == Some(
                error::invalid("scanner, column, and query_data must not be NULL"@),
            )
            &&& nearest_failure(handle, column, false, element_type, 0) == Some(
                error::invalid("k must be > 0"@),
            )
            &&& k > 0 && (scanner.fts_query is Some || scanner.fts_context is Some)
                ==> nearest_failure(handle, column, false, element_type, k) == Some(
                error::invalid(
                    "cannot call nearest after full_text_search or attaching an FTS query context; they are mutually exclusive"@,
                ),
            )
            &&& k > 0 && scanner.fts_query is None && scanner.fts_context is None && (element_type
                < 0 || element_type > 4) ==> nearest_failure(handle, column, false, element_type, k)
                == Some(
                error::invalid(
                    "invalid element_type: "@ + text::signed_decimal(element_type as int),
                ),
            )
            &&& scanner.nearest is Some ==> fts_failure(handle, column, columns, accepted) == Some(
                error::invalid(
                    "cannot call full_text_search after nearest; they are mutually exclusive"@,
                ),
            )
            &&& scanner.nearest is None && scanner.fts_context is Some ==> fts_failure(
                handle,
                column,
                columns,
                accepted,
            ) == Some(
                error::invalid(
                    "cannot call full_text_search after attaching an FTS query context; the context already owns the query"@,
                ),
            )
            &&& scanner.nearest is None && scanner.fts_context is None && columns is Err
                ==> fts_failure(handle, column, columns, accepted) == Some(columns->Err_0@)
            &&& context is Err ==> fts_context_failure(handle, context, accepted) == Some(
                context->Err_0@,
            )
            &&& context is Ok && scanner.nearest is Some ==> fts_context_failure(
                handle,
                context,
                accepted,
            ) == Some(
                error::invalid(
                    "cannot attach an FTS query context after nearest; they are mutually exclusive"@,
                ),
            )
            &&& context is Ok && scanner.nearest is None && scanner.fts_query is Some
                ==> fts_context_failure(handle, context, accepted) == Some(
                error::invalid(
                    "cannot attach an FTS query context after full_text_search; the context already owns the query"@,
                ),
            )
            &&& context is Ok && scanner.nearest is None && scanner.fts_query is None && accepted
                is Err ==> fts_context_failure(handle, context, accepted) == Some(accepted->Err_0@)
            &&& len > 0 && segments is Err ==> fts_segments_failure(handle, segments, len) == Some(
                segments->Err_0@,
            )
        }),
{
}

/// Identifiers that stand one behind the other are split every sixteen octets, without
/// loss.
pub proof fn law_identifiers_are_sixteen_octets(octets: Seq<u8>, len: nat, i: int, j: int)
    requires
        octets.len() == 16 * len,
        0 <= i < len,
        0 <= j < 16,
    ensures
        uuid_chunks(octets, len).len() == len,
        uuid_chunks(octets, len)[i].len() == 16,
        uuid_chunks(octets, len)[i][j] == octets[16 * i + j],
{
}

/// Each call on a missing scanner says so in its own words.
pub proof fn law_missing_scanner_is_named(
    is_null: bool,
    len: usize,
    bytes: Option<Seq<u8>>,
    argument: CStringArg,
    number: i32,
    k: u32,
    columns: Result<Option<Vec<String>>, LanceError>,
    accepted: Result<(), LanceError>,
    context: Result<FtsContext, LanceError>,
    segments: Result<Vec<[u8; 16]>, LanceError>,
)
    ensures
        fragment_ids_failure(None, is_null, len) == Some(error::invalid("scanner is NULL"@)),
        substrait_failure(None, bytes) == Some(error::invalid("scanner is NULL"@)),
        additional_filter_failure(None, argument) == Some(error::invalid("scanner is NULL"@)),
        statistics_failure(None, is_null) == Some(error::invalid("scanner is NULL"@)),
        metric_failure(None, number) == Some(error::invalid("scanner is NULL"@)),
        index_segments_failure(None, is_null, len) == Some(error::invalid("scanner is NULL"@)),
        nearest_failure(None, argument, is_null, number, k) == Some(
            error::invalid("scanner, column, and query_data must not be NULL"@),
        ),
        fts_failure(None, argument, columns, accepted) == Some(
            error::invalid("scanner and query must not be NULL"@),
        ),
        fts_context_failure(None, context, accepted) == Some(
            error::invalid("scanner must not be NULL"@),
        ),
        fts_segments_failure(None, segments, len) == Some(
            error::invalid("scanner must not be NULL"@),
        ),
{
}

} // verus!
