//! Dataset handles: opening, numbers, take and fragments.

use vstd::prelude::*;
use vstd::string::StringExecFns;

use crate::data_cache::LanceDataCacheStatistics;
use crate::error;
use crate::error::{ffi_try, LanceError, LastError};
use crate::foyer_data_cache::FoyerDataCacheStatistics;
use crate::helpers::{require_c_string, CStringArg};
use crate::text;

verus! {

/// An opened dataset. `D` is a cheap handle to one version of the data.
pub struct LanceDataset<D> {
    inner: D,
}

impl<D> LanceDataset<D> {
    /// The version that readers see.
    pub closed spec fn current(&self) -> D {
        self.inner
    }

    /// Wraps a version.
    pub fn new(inner: D) -> (dataset: LanceDataset<D>)
        ensures
            dataset.current() == inner,
    {
        LanceDataset { inner }
    }

    /// The version that readers see.
    pub fn snapshot(&self) -> (inner: &D)
        ensures
            *inner == self.current(),
    {
        &self.inner
    }

    /// Ends a mutation that ran on a copy of the current version. The copy
    /// takes its place only if the mutation ran to its end; a mutation that
    /// panicked leaves the dataset as it was, whatever it did to the copy.
    pub fn with_mut(&mut self, working: D, completed: bool)
        ensures
            final(self).current() == (if completed {
                working
            } else {
                old(self).current()
            }),
    {
        if completed {
            self.inner = working;
        }
    }
}

/// How a dataset is opened.
pub struct OpenPlan {
    pub uri: String,
    /// Options of the object store; `None` keeps its defaults.
    pub storage_options: Option<Vec<(String, String)>>,
    /// The version; `None` opens the latest.
    pub version: Option<u64>,
    /// Whether the dataset shares the caches of the session.
    pub in_session: bool,
    /// Whether the opened dataset reads through a data cache.
    pub attach_data_cache: bool,
}

/// The session that a dataset is opened in.
#[derive(Clone, Copy, Debug, PartialEq, Eq, Structural)]
pub struct OpenSession {
    /// Whether the session makes data caches for its datasets.
    pub has_data_cache_factory: bool,
}

/// The first failure among the arguments of an open.
pub open spec fn open_failure(
    uri: CStringArg,
    storage_options: Result<Vec<(String, String)>, LanceError>,
) -> Option<error::Report> {
    if uri.required("uri must not be NULL"@) is Some {
        uri.required("uri must not be NULL"@)
    } else {
        error::failure(storage_options)
    }
}

/// Whether a plan opens what was asked for.
pub open spec fn opens(
    plan: OpenPlan,
    uri: CStringArg,
    storage_options: Result<Vec<(String, String)>, LanceError>,
    version: u64,
    session: Option<OpenSession>,
) -> bool {
    &&& uri.text() == Some(plan.uri@)
    &&& storage_options is Ok
    &&& plan.storage_options == (if storage_options->Ok_0@.len() == 0 {
        None
    } else {
        Some(storage_options->Ok_0)
    })
    &&& plan.version == (if version == 0 {
        None
    } else {
        Some(version)
    })
    &&& plan.in_session == (session is Some)
    &&& plan.attach_data_cache == (session matches Some(session)
        && session.has_data_cache_factory)
}

/// An open is accepted if and only if the URI is a string and the storage options
/// could be read. The plan then names the URI, the options where there are any, and
/// the version asked for, zero being the latest: in a session and without one.
pub proof fn law_open_names_what_was_asked_for(
    plan: OpenPlan,
    uri: CStringArg,
    storage_options: Result<Vec<(String, String)>, LanceError>,
    version: u64,
    session: Option<OpenSession>,
)
    ensures
        open_failure(uri, storage_options) is None <==> uri is Text && storage_options is Ok,
        uri is Null ==> open_failure(uri, storage_options) == Some(
            error::invalid("uri must not be NULL"@),
        ),
        uri is Text && storage_options is Err ==> open_failure(uri, storage_options) == Some(
            storage_options->Err_0@,
        ),
        opens(plan, uri, storage_options, version, session) ==> {
            &&& uri is Text && plan.uri@ == uri->Text_0@
            &&& storage_options is Ok
            &&& version >= 1 ==> plan.version == Some(version)
            &&& version == 0 ==> plan.version is None
            &&& plan.storage_options is Some <==> storage_options->Ok_0@.len() > 0
            &&& plan.storage_options is Some ==> plan.storage_options->0 == storage_options->Ok_0
            &&& plan.in_session <==> session is Some
            &&& session is None ==> !plan.attach_data_cache
            &&& session is Some ==> plan.attach_data_cache == session->0.has_data_cache_factory
        },
{
}

/// A session changes where a dataset keeps its caches and nothing else: two requests
/// that differ in the session alone open the same version of the same dataset with
/// the same options.
pub proof fn law_session_does_not_change_what_is_opened(
    one: OpenPlan,
    other: OpenPlan,
    uri: CStringArg,
    storage_options: Result<Vec<(String, String)>, LanceError>,
    version: u64,
    session: Option<OpenSession>,
    other_session: Option<OpenSession>,
)
    requires
        opens(one, uri, storage_options, version, session),
        opens(other, uri, storage_options, version, other_session),
    ensures
        one.uri@ == other.uri@,
        one.storage_options == other.storage_options,
        one.version == other.version,
        session == other_session ==> one.in_session == other.in_session
            && one.attach_data_cache == other.attach_data_cache,
{
}

/// Two requests that differ in the version open different versions.
pub proof fn law_different_versions_are_opened_differently(
    one: OpenPlan,
    other: OpenPlan,
    uri: CStringArg,
    storage_options: Result<Vec<(String, String)>, LanceError>,
    version: u64,
    other_version: u64,
    session: Option<OpenSession>,
    other_session: Option<OpenSession>,
)
    requires
        opens(one, uri, storage_options, version, session),
        opens(other, uri, storage_options, other_version, other_session),
    ensures
        one.version == other.version <==> version == other_version,
{
}

/// Plans the opening of a dataset. Version zero is the latest. The dataset has a
/// data cache if and only if it is opened in a session that makes them.
pub fn open_dataset_inner(
    uri: &CStringArg,
    storage_options: Result<Vec<(String, String)>, LanceError>,
    version: u64,
    session: Option<OpenSession>,
) -> (result: Result<OpenPlan, LanceError>)
    ensures
        match result {
            Ok(plan) => open_failure(*uri, storage_options) is None && opens(
                plan,
                *uri,
                storage_options,
                version,
                session,
            ),
            Err(error) => open_failure(*uri, storage_options) == Some(error@),
        },
{
    let uri: &str = match require_c_string(uri, "uri must not be NULL") {
        Ok(uri) => uri,
        Err(error) => {
            return Err(error);
        },
    };
    let options: Vec<(String, String)> = match storage_options {
        Ok(options) => options,
        Err(error) => {
            return Err(error);
        },
    };
    let storage_options: Option<Vec<(String, String)>> = if options.len() == 0 {
        None
    } else {
        Some(options)
    };
    let version: Option<u64> = if version == 0 {
        None
    } else {
        Some(version)
    };
    let (in_session, attach_data_cache): (bool, bool) = match session {
        Some(session) => (true, session.has_data_cache_factory),
        None => (false, false),
    };
    Ok(OpenPlan { uri: uri.to_owned(), storage_options, version, in_session, attach_data_cache })
}

/// Plans the opening of a dataset in a session, which must be given.
pub fn open_dataset_with_session_inner(
    uri: &CStringArg,
    storage_options: Result<Vec<(String, String)>, LanceError>,
    version: u64,
    session: Option<OpenSession>,
) -> (result: Result<OpenPlan, LanceError>)
    ensures
        match result {
            Ok(plan) => session is Some && open_failure(*uri, storage_options) is None && opens(
                plan,
                *uri,
                storage_options,
                version,
                session,
            ),
            Err(error) => if session is None {
                error@ == error::invalid("session must not be NULL"@)
            } else {
                open_failure(*uri, storage_options) == Some(error@)
            },
        },
{
    if session.is_none() {
        return Err(LanceError::invalid("session must not be NULL"));
    }
    open_dataset_inner(uri, storage_options, version, session)
}

/// What a function that returns a number reports of a dataset argument.
pub open spec fn number_failure(dataset: Option<Result<u64, LanceError>>) -> Option<error::Report> {
    match dataset {
        None => Some(error::invalid("dataset is NULL"@)),
        Some(outcome) => error::failure(outcome),
    }
}

fn number_or_zero(last: &mut LastError, dataset: Option<Result<u64, LanceError>>) -> (number: u64)
    ensures
        match number_failure(dataset) {
            Some(report) => number == 0 && final(last)@ == report,
            None => dataset == Some(Ok::<u64, LanceError>(number)) && final(last)@
                == error::no_error(),
        },
{
    match dataset {
        None => {
            last.set_lance_error(LanceError::invalid("dataset is NULL"));
            0
        },
        Some(Ok(number)) => {
            last.clear_last_error();
            number
        },
        Some(Err(error)) => {
            last.set_lance_error(error);
            0
        },
    }
}

/// The version number of a dataset; zero on failure.
pub fn lance_dataset_version(last: &mut LastError, dataset: Option<u64>) -> (version: u64)
    ensures
        match dataset {
            Some(number) => version == number && final(last)@ == error::no_error(),
            None => version == 0 && final(last)@ == error::invalid("dataset is NULL"@),
        },
{
    match dataset {
        Some(number) => number_or_zero(last, Some(Ok(number))),
        None => number_or_zero(last, None),
    }
}

/// The number of fragments of a dataset; zero on failure.
pub fn lance_dataset_fragment_count(last: &mut LastError, dataset: Option<usize>) -> (count: u64)
    ensures
        match dataset {
            Some(number) => count == number && final(last)@ == error::no_error(),
            None => count == 0 && final(last)@ == error::invalid("dataset is NULL"@),
        },
{
    match dataset {
        Some(number) => number_or_zero(last, Some(Ok(number as u64))),
        None => number_or_zero(last, None),
    }
}

/// The number of rows of a dataset; zero on failure.
pub fn lance_dataset_count_rows(
    last: &mut LastError,
    dataset: Option<Result<u64, LanceError>>,
) -> (rows: u64)
    ensures
        match number_failure(dataset) {
            Some(report) => rows == 0 && final(last)@ == report,
            None => dataset == Some(Ok::<u64, LanceError>(rows)) && final(last)@
                == error::no_error(),
        },
{
    number_or_zero(last, dataset)
}

/// The latest version of a dataset; zero on failure.
pub fn lance_dataset_latest_version(
    last: &mut LastError,
    dataset: Option<Result<u64, LanceError>>,
) -> (version: u64)
    ensures
        match number_failure(dataset) {
            Some(report) => version == 0 && final(last)@ == report,
            None => dataset == Some(Ok::<u64, LanceError>(version)) && final(last)@
                == error::no_error(),
        },
{
    number_or_zero(last, dataset)
}

/// Checks the pointers of an export of the schema.
pub fn dataset_schema_inner(dataset_is_null: bool, out_is_null: bool) -> (result: Result<
    (),
    LanceError,
>)
    ensures
        error::failure(result) == (if dataset_is_null || out_is_null {
            Some(error::invalid("dataset and out must not be NULL"@))
        } else {
            None
        }),
{
    if dataset_is_null || out_is_null {
        return Err(LanceError::invalid("dataset and out must not be NULL"));
    }
    Ok(())
}

/// Why columns are none of a dataset: their names as a message shows them, and
/// the reason.
pub struct ProjectionFailure {
    pub columns: String,
    pub reason: String,
}

/// What a projection on columns reports. `failed` counts only where there are
/// columns.
pub open spec fn projection_failure(
    columns: Option<Vec<String>>,
    failed: Option<ProjectionFailure>,
) -> Option<error::Report> {
    match (columns, failed) {
        (Some(_), Some(failed)) => Some(
            error::invalid("invalid columns "@ + failed.columns@ + ": "@ + failed.reason@),
        ),
        _ => None,
    }
}

/// Ends a projection on columns; without columns it is the whole schema.
pub fn projection_from_columns(
    columns: Option<Vec<String>>,
    failed: Option<ProjectionFailure>,
) -> (result: Result<Option<Vec<String>>, LanceError>)
    ensures
        match result {
            Ok(projection) => projection == columns && projection_failure(columns, failed) is None,
            Err(error) => projection_failure(columns, failed) == Some(error@),
        },
{
    match (columns, failed) {
        (Some(_), Some(failed)) => {
            let mut message: String = "invalid columns ".to_owned();
            message.append(failed.columns.as_str());
            message.append(": ");
            message.append(failed.reason.as_str());
            Err(LanceError::invalid_text(message))
        },
        (columns, _) => Ok(columns),
    }
}

/// The first failure among the arguments of a take by offsets.
pub open spec fn take_failure(
    dataset_is_null: bool,
    indices_is_null: bool,
    out_is_null: bool,
    columns: Result<Option<Vec<String>>, LanceError>,
) -> Option<error::Report> {
    if dataset_is_null || indices_is_null || out_is_null {
        Some(error::invalid("dataset, indices, and out must not be NULL"@))
    } else {
        error::failure(columns)
    }
}

/// Checks the arguments of a take by offsets and gives the columns to read;
/// `None` for all. `columns` are the names, or why they could not be read.
pub fn dataset_take_inner(
    dataset_is_null: bool,
    indices_is_null: bool,
    out_is_null: bool,
    columns: Result<Option<Vec<String>>, LanceError>,
) -> (result: Result<Option<Vec<String>>, LanceError>)
    ensures
        error::failure(result) == take_failure(
            dataset_is_null,
            indices_is_null,
            out_is_null,
            columns,
        ),
        result is Ok ==> result == columns,
{
    if dataset_is_null || indices_is_null || out_is_null {
        return Err(LanceError::invalid("dataset, indices, and out must not be NULL"));
    }
    columns
}

/// The first failure among the arguments of a take by row ids.
pub open spec fn take_rows_failure(
    dataset_is_null: bool,
    row_ids_is_null: bool,
    num_row_ids: usize,
    out_is_null: bool,
    columns: Result<Option<Vec<String>>, LanceError>,
) -> Option<error::Report> {
    if dataset_is_null {
        Some(error::invalid("dataset must not be NULL"@))
    } else if out_is_null {
        Some(error::invalid("out must not be NULL"@))
    } else if num_row_ids > 0 && row_ids_is_null {
        Some(
            error::invalid(
                "row_ids must not be NULL when num_row_ids = "@ + text::decimal(
                    num_row_ids as nat,
                ),
            ),
        )
    } else {
        error::failure(columns)
    }
}

/// Checks the arguments of a take by row ids, which may be NULL only where none
/// are asked for, and gives the columns to read; `None` for all.
pub fn dataset_take_rows_inner(
    dataset_is_null: bool,
    row_ids_is_null: bool,
    num_row_ids: usize,
    out_is_null: bool,
    columns: Result<Option<Vec<String>>, LanceError>,
) -> (result: Result<Option<Vec<String>>, LanceError>)
    ensures
        error::failure(result) == take_rows_failure(
            dataset_is_null,
            row_ids_is_null,
            num_row_ids,
            out_is_null,
            columns,
        ),
        result is Ok ==> result == columns,
{
    if dataset_is_null {
        return Err(LanceError::invalid("dataset must not be NULL"));
    }
    if out_is_null {
        return Err(LanceError::invalid("out must not be NULL"));
    }
    if num_row_ids > 0 && row_ids_is_null {
        let mut message: String = "row_ids must not be NULL when num_row_ids = ".to_owned();
        text::push_decimal(&mut message, num_row_ids as u64);
        return Err(LanceError::invalid_text(message));
    }
    columns
}

/// Fills a caller's buffer with the fragment ids of a dataset, in order. The
/// buffer must have room for all of them; what lies behind them is kept.
pub fn lance_dataset_fragment_ids(
    last: &mut LastError,
    dataset: Option<&Vec<u64>>,
    out_ids: Option<&mut Vec<u64>>,
) -> (status: i32)
    requires
        dataset is Some && out_ids is Some ==> dataset->0@.len() <= out_ids->0@.len(),
    ensures
        error::reports(
            status,
            final(last)@,
            if dataset is None || out_ids is None {
                Some(error::invalid("dataset and out_ids must not be NULL"@))
            } else {
                None
            },
        ),
        out_ids matches Some(out) ==> final(out)@ == (match dataset {
            None => out@,
            Some(fragments) => fragments@ + out@.skip(fragments@.len() as int),
        }),
{
    match (dataset, out_ids) {
        (Some(fragments), Some(out)) => {
            let ghost before = out@;
            let mut i: usize = 0;
            assert(out@ =~= fragments@.take(0) + before.skip(0));
            while i < fragments.len()
                invariant
                    i <= fragments@.len() <= before.len(),
                    out@ == fragments@.take(i as int) + before.skip(i as int),
                decreases fragments.len() - i,
            {
                out.set(i, fragments[i]);
                i += 1;
                assert(out@ =~= fragments@.take(i as int) + before.skip(i as int));
            }
            assert(fragments@.take(i as int) =~= fragments@);
            ffi_try(last, Ok(()))
        },
        _ => ffi_try(last, Err(LanceError::invalid("dataset and out_ids must not be NULL"))),
    }
}

/// Copies the statistics of a dataset's data cache, or zeros for a dataset that
/// was opened without one.
pub fn lance_dataset_get_data_cache_statistics(
    last: &mut LastError,
    dataset: Option<Option<&FoyerDataCacheStatistics>>,
    out_statistics: Option<&mut LanceDataCacheStatistics>,
) -> (status: i32)
    ensures
        error::reports(
            status,
            final(last)@,
            if dataset is None || out_statistics is None {
                Some(error::invalid("dataset and out_statistics must not be NULL"@))
            } else {
                None
            },
        ),
        out_statistics matches Some(out) ==> *final(out) == (match dataset {
            None => *out,
            Some(None) => LanceDataCacheStatistics {
                bytes_read_from_cache: 0,
                bytes_read_from_remote: 0,
            },
            Some(Some(statistics)) => statistics@,
        }),
{
    match (dataset, out_statistics) {
        (Some(statistics), Some(out)) => {
            *out = match statistics {
                Some(statistics) => statistics.snapshot(),
                None => LanceDataCacheStatistics::default(),
            };
            ffi_try(last, Ok(()))
        },
        _ => ffi_try(
            last,
            Err(LanceError::invalid("dataset and out_statistics must not be NULL")),
        ),
    }
}

/// A number is refused for a missing dataset, or with the dataset's own failure.
pub proof fn law_number_comes_from_the_dataset(dataset: Option<Result<u64, LanceError>>)
    ensures
        number_failure(dataset) is None <==> (dataset is Some && dataset->0 is Ok),
        dataset is None ==> number_failure(dataset) == Some(error::invalid("dataset is NULL"@)),
        dataset is Some && dataset->0 is Err ==> number_failure(dataset) == Some(
            dataset->0->Err_0@,
        ),
{
}

/// A projection fails if and only if there are columns and they are none of the
/// dataset; its report names them and the reason.
pub proof fn law_projection_fails_on_its_columns(
    columns: Option<Vec<String>>,
    failed: Option<ProjectionFailure>,
)
    ensures
        projection_failure(columns, failed) is None <==> columns is None || failed is None,
        columns is Some && failed is Some ==> projection_failure(columns, failed) == Some(
            error::invalid(
                "invalid columns "@ + failed->0.columns@ + ": "@ + failed->0.reason@,
            ),
        ),
{
}

/// A take by offsets needs all its pointers and columns that could be read.
pub proof fn law_take_needs_its_pointers(
    dataset_is_null: bool,
    indices_is_null: bool,
    out_is_null: bool,
    columns: Result<Option<Vec<String>>, LanceError>,
)
    ensures
        take_failure(dataset_is_null, indices_is_null, out_is_null, columns) is None
            <==> !dataset_is_null && !indices_is_null && !out_is_null && columns is Ok,
        dataset_is_null || indices_is_null || out_is_null ==> take_failure(
            dataset_is_null,
            indices_is_null,
            out_is_null,
            columns,
        ) == Some(error::invalid("dataset, indices, and out must not be NULL"@)),
        !dataset_is_null && !indices_is_null && !out_is_null && columns is Err ==> take_failure(
            dataset_is_null,
            indices_is_null,
            out_is_null,
            columns,
        ) == Some(columns->Err_0@),
{
}

/// A take by row ids needs its dataset, its output, columns that could be read, and
/// row ids unless none are asked for.
pub proof fn law_take_rows_may_take_none(
    dataset_is_null: bool,
    row_ids_is_null: bool,
    num_row_ids: usize,
    out_is_null: bool,
    columns: Result<Option<Vec<String>>, LanceError>,
)
    ensures
        take_rows_failure(dataset_is_null, row_ids_is_null, num_row_ids, out_is_null, columns)
            is None <==> !dataset_is_null && !out_is_null && (!row_ids_is_null || num_row_ids == 0)
            && columns is Ok,
        dataset_is_null ==> take_rows_failure(
            dataset_is_null,
            row_ids_is_null,
            num_row_ids,
            out_is_null,
            columns,
        ) == Some(error::invalid("dataset must not be NULL"@)),
        !dataset_is_null && out_is_null ==> take_rows_failure(
            dataset_is_null,
            row_ids_is_null,
            num_row_ids,
            out_is_null,
            columns,
        ) == Some(error::invalid("out must not be NULL"@)),
        !dataset_is_null && !out_is_null && row_ids_is_null && num_row_ids > 0
            ==> take_rows_failure(
            dataset_is_null,
            row_ids_is_null,
            num_row_ids,
            out_is_null,
            columns,
        ) == Some(
            error::invalid(
                "row_ids must not be NULL when num_row_ids = "@ + text::decimal(
                    num_row_ids as nat,
                ),
            ),
        ),
        !dataset_is_null && !out_is_null && !row_ids_is_null && columns is Err
            ==> take_rows_failure(
            dataset_is_null,
            row_ids_is_null,
            num_row_ids,
            out_is_null,
            columns,
        ) == Some(columns->Err_0@),
{
}

} // verus!
