//! Writing a dataset: which requests are accepted and what is handed on.

use vstd::prelude::*;
use vstd::string::StringExecFns;

use crate::error;
use crate::error::LanceError;
use crate::helpers;
use crate::helpers::{parse_c_string, CStringArg};
use crate::session;
use crate::session::u64_to_usize;
use crate::text;

verus! {

/// After how many versions old ones are cleaned up.
pub const AUTO_CLEANUP_INTERVAL: usize = 20;

/// How many days old a version must be to be cleaned up.
pub const AUTO_CLEANUP_OLDER_THAN_DAYS: i64 = 14;

/// Write mode of a dataset.
#[derive(Clone, Copy, Debug, PartialEq, Eq, Structural)]
pub enum LanceWriteMode {
    /// Create a new dataset; fails if the path already exists.
    Create,
    /// Append to an existing dataset.
    Append,
    /// Overwrite an existing dataset, or create one.
    Overwrite,
}

impl LanceWriteMode {
    /// The number under which C names this mode.
    pub open spec fn raw(self) -> i32 {
        match self {
            LanceWriteMode::Create => 0,
            LanceWriteMode::Append => 1,
            LanceWriteMode::Overwrite => 2,
        }
    }

    /// The mode that C names by a number.
    pub fn from_raw(raw: i32) -> (result: Result<LanceWriteMode, LanceError>)
        ensures
            match result {
                Ok(mode) => mode.raw() == raw && mode_failure(raw) is None,
                Err(error) => mode_failure(raw) == Some(error@),
            },
    {
        if raw == 0 {
            Ok(LanceWriteMode::Create)
        } else if raw == 1 {
            Ok(LanceWriteMode::Append)
        } else if raw == 2 {
            Ok(LanceWriteMode::Overwrite)
        } else {
            let mut message: String = "invalid write mode ".to_owned();
            text::push_signed(&mut message, raw as i64);
            message.append("; expected 0 (create), 1 (append), or 2 (overwrite)");
            Err(LanceError::invalid_text(message))
        }
    }
}

/// What a number that names no write mode reports.
pub open spec fn mode_failure(raw: i32) -> Option<error::Report> {
    if 0 <= raw <= 2 {
        None
    } else {
        Some(
            error::invalid(
                "invalid write mode "@ + text::signed_decimal(raw as int)
                    + "; expected 0 (create), 1 (append), or 2 (overwrite)"@,
            ),
        )
    }
}

/// Tunable parameters of a write. Zero, and a NULL version, keep the default;
/// `enable_stable_row_ids` has no such value and is always handed on.
pub struct LanceWriteParams {
    /// Soft cap on rows per data file.
    pub max_rows_per_file: u64,
    /// Soft cap on rows per row group.
    pub max_rows_per_group: u64,
    /// Soft cap on bytes per data file.
    pub max_bytes_per_file: u64,
    /// Lance file format version.
    pub data_storage_version: CStringArg,
    /// Whether row ids are stable.
    pub enable_stable_row_ids: bool,
}

/// What a write overrides; `None` keeps the default.
pub struct WriteOverrides {
    pub max_rows_per_file: Option<usize>,
    pub max_rows_per_group: Option<usize>,
    pub max_bytes_per_file: Option<usize>,
    pub data_storage_version: Option<String>,
    pub enable_stable_row_ids: Option<bool>,
}

/// Why the file format version of a write was not accepted by the format: its
/// quoted text, and the reason.
pub struct VersionFailure {
    /// The version, quoted for a message.
    pub quoted: String,
    /// The reason.
    pub reason: String,
}

/// An override: zero keeps the default.
pub open spec fn override_of(value: u64) -> Option<usize> {
    if value > 0 {
        Some(value as usize)
    } else {
        None
    }
}

/// The first failure among the parameters of a write.
pub open spec fn params_failure(
    params: LanceWriteParams,
    version_failure: Option<VersionFailure>,
) -> Option<error::Report> {
    if session::exceeds_usize(params.max_rows_per_file, "max_rows_per_file"@) is Some {
        session::exceeds_usize(params.max_rows_per_file, "max_rows_per_file"@)
    } else if session::exceeds_usize(params.max_rows_per_group, "max_rows_per_group"@) is Some {
        session::exceeds_usize(params.max_rows_per_group, "max_rows_per_group"@)
    } else if session::exceeds_usize(params.max_bytes_per_file, "max_bytes_per_file"@) is Some {
        session::exceeds_usize(params.max_bytes_per_file, "max_bytes_per_file"@)
    } else {
        match params.data_storage_version {
            CStringArg::Null => None,
            CStringArg::Malformed => Some(helpers::malformed_text()),
            CStringArg::Text(version) => if version@.len() == 0 {
                Some(error::invalid("data_storage_version must not be an empty string"@))
            } else {
                match version_failure {
                    None => None,
                    Some(failure) => Some(
                        error::invalid(
                            "invalid data_storage_version "@ + failure.quoted@ + ": "@
                                + failure.reason@,
                        ),
                    ),
                }
            },
        }
    }
}

fn override_from(value: u64, field: &str) -> (result: Result<Option<usize>, LanceError>)
    ensures
        match result {
            Ok(converted) => converted == override_of(value) && session::exceeds_usize(
                value,
                field@,
            ) is None,
            Err(error) => session::exceeds_usize(value, field@) == Some(error@),
        },
{
    if value > 0 {
        match u64_to_usize(value, field) {
            Ok(value) => Ok(Some(value)),
            Err(error) => Err(error),
        }
    } else {
        Ok(None)
    }
}

/// Turns the parameters of a write into overrides. `version_failure` tells
/// whether the file format refused the version; it counts only for a version
/// that is given.
pub fn apply_write_params(
    params: &LanceWriteParams,
    version_failure: Option<VersionFailure>,
) -> (result: Result<WriteOverrides, LanceError>)
    ensures
        match result {
            Ok(overrides) => {
                &&& params_failure(*params, version_failure) is None
                &&& overrides.max_rows_per_file == override_of(params.max_rows_per_file)
                &&& overrides.max_rows_per_group == override_of(params.max_rows_per_group)
                &&& overrides.max_bytes_per_file == override_of(params.max_bytes_per_file)
                &&& match overrides.data_storage_version {
                    Some(version) => params.data_storage_version.text() == Some(version@),
                    None => params.data_storage_version is Null,
                }
                &&& overrides.enable_stable_row_ids == Some(params.enable_stable_row_ids)
            },
            Err(error) => params_failure(*params, version_failure) == Some(error@),
        },
{
    let max_rows_per_file: Option<usize> = match override_from(
        params.max_rows_per_file,
        "max_rows_per_file",
    ) {
        Ok(value) => value,
        Err(error) => {
            return Err(error);
        },
    };
    let max_rows_per_group: Option<usize> = match override_from(
        params.max_rows_per_group,
        "max_rows_per_group",
    ) {
        Ok(value) => value,
        Err(error) => {
            return Err(error);
        },
    };
    let max_bytes_per_file: Option<usize> = match override_from(
        params.max_bytes_per_file,
        "max_bytes_per_file",
    ) {
        Ok(value) => value,
        Err(error) => {
            return Err(error);
        },
    };
    let data_storage_version: Option<String> = match parse_c_string(&params.data_storage_version) {
        Ok(None) => None,
        Ok(Some(version)) => {
            if version.is_empty() {
                return Err(
                    LanceError::invalid("data_storage_version must not be an empty string"),
                );
            }
            match version_failure {
                None => Some(version.to_owned()),
                Some(failure) => {
                    let mut message: String = "invalid data_storage_version ".to_owned();
                    message.append(failure.quoted.as_str());
                    message.append(": ");
                    message.append(failure.reason.as_str());
                    return Err(LanceError::invalid_text(message));
                },
            }
        },
        Err(error) => {
            return Err(error);
        },
    };
    Ok(
        WriteOverrides {
            max_rows_per_file,
            max_rows_per_group,
            max_bytes_per_file,
            data_storage_version,
            enable_stable_row_ids: Some(params.enable_stable_row_ids),
        },
    )
}

/// An Arrow schema argument after the attempt to read it.
pub enum SchemaArg {
    /// The pointer is NULL.
    Null,
    /// It could not be read, with the reason.
    Invalid(String),
    /// It was read; its text serves for messages.
    Schema(String),
}

/// The stream of a write after the attempt to take it over.
pub enum StreamArg {
    /// The pointer is NULL.
    Null,
    /// It could not be taken over, with the reason.
    Invalid(String),
    /// It was taken over; the text of its schema serves for messages, and the
    /// flag tells whether its fields are those of the schema argument.
    Stream { schema: String, fields_match: bool },
}

/// A request to write a dataset.
pub struct WriteRequest {
    pub uri: CStringArg,
    pub schema: SchemaArg,
    pub stream: StreamArg,
    pub mode: i32,
    pub params: Option<LanceWriteParams>,
    pub version_failure: Option<VersionFailure>,
    pub storage_options: Result<Vec<(String, String)>, LanceError>,
}

/// An accepted request to write a dataset.
pub struct WritePlan {
    pub uri: String,
    pub mode: LanceWriteMode,
    /// Options of the object store; none keep its defaults.
    pub storage_options: Vec<(String, String)>,
    /// What the parameters override; `None` without parameters.
    pub overrides: Option<WriteOverrides>,
    /// After how many versions old ones are cleaned up.
    pub cleanup_interval: usize,
    /// How many days old a version must be to be cleaned up.
    pub cleanup_older_than_days: i64,
}

/// The failure of the stream argument, which is looked at before all others:
/// once it is taken over, every outcome consumes it.
pub open spec fn stream_failure(stream: StreamArg) -> Option<error::Report> {
    match stream {
        StreamArg::Null => Some(error::invalid("stream must not be NULL"@)),
        StreamArg::Invalid(reason) => Some(error::invalid(reason@)),
        StreamArg::Stream { .. } => None,
    }
}

/// The failure of the URI of a write.
pub open spec fn uri_failure(uri: CStringArg) -> Option<error::Report> {
    match uri {
        CStringArg::Null => Some(error::invalid("uri must not be NULL"@)),
        CStringArg::Malformed => Some(helpers::malformed_text()),
        CStringArg::Text(text) => if text@.len() == 0 {
            Some(error::invalid("uri must not be empty"@))
        } else {
            None
        },
    }
}

/// The text of schemas that differ.
pub open spec fn schema_mismatch(expected: Seq<char>, got: Seq<char>) -> Seq<char> {
    "stream schema does not match the provided schema.\n  expected: "@ + expected
        + "\n  got:      "@ + got
}

/// The first failure of a write request, in the order in which its arguments
/// are looked at.
pub open spec fn write_failure(request: WriteRequest) -> Option<error::Report> {
    if stream_failure(request.stream) is Some {
        stream_failure(request.stream)
    } else if request.uri is Null {
        uri_failure(request.uri)
    } else if request.schema is Null {
        Some(error::invalid("schema must not be NULL"@))
    } else if mode_failure(request.mode) is Some {
        mode_failure(request.mode)
    } else if uri_failure(request.uri) is Some {
        uri_failure(request.uri)
    } else {
        match (request.schema, request.stream) {
            (SchemaArg::Invalid(reason), _) => Some(
                error::invalid("invalid schema: "@ + reason@),
            ),
            (SchemaArg::Schema(expected), StreamArg::Stream { schema, fields_match }) => {
                if request.storage_options is Err {
                    error::failure(request.storage_options)
                } else if !fields_match {
                    Some(error::invalid(schema_mismatch(expected@, schema@)))
                } else {
                    match request.params {
                        None => None,
                        Some(params) => params_failure(params, request.version_failure),
                    }
                }
            },
            _ => None,
        }
    }
}

/// Checks a request to write a dataset and plans the write.
pub fn write_dataset_inner(request: WriteRequest) -> (result: Result<WritePlan, LanceError>)
    ensures
        match result {
            Err(error) => write_failure(request) == Some(error@),
            Ok(plan) => {
                &&& write_failure(request) is None
                &&& request.uri.text() == Some(plan.uri@)
                &&& plan.mode.raw() == request.mode
                &&& request.storage_options == Ok::<Vec<(String, String)>, LanceError>(
                    plan.storage_options,
                )
                &&& plan.cleanup_interval == 20
                &&& plan.cleanup_older_than_days == 14
                &&& match (request.params, plan.overrides) {
                    (None, None) => true,
                    (Some(params), Some(overrides)) => {
                        &&& overrides.max_rows_per_file == override_of(params.max_rows_per_file)
                        &&& overrides.max_rows_per_group == override_of(params.max_rows_per_group)
                        &&& overrides.max_bytes_per_file == override_of(params.max_bytes_per_file)
                        &&& match overrides.data_storage_version {
                            Some(version) => params.data_storage_version.text() == Some(version@),
                            None => params.data_storage_version is Null,
                        }
                        &&& overrides.enable_stable_row_ids == Some(params.enable_stable_row_ids)
                    },
                    _ => false,
                }
            },
        },
{
    let (stream_schema, fields_match) = match request.stream {
        StreamArg::Null => {
            return Err(LanceError::invalid("stream must not be NULL"));
        },
        StreamArg::Invalid(reason) => {
            return Err(LanceError::invalid_text(reason));
        },
        StreamArg::Stream { schema, fields_match } => (schema, fields_match),
    };
    if let CStringArg::Null = request.uri {
        return Err(LanceError::invalid("uri must not be NULL"));
    }
    if let SchemaArg::Null = request.schema {
        return Err(LanceError::invalid("schema must not be NULL"));
    }
    let mode: LanceWriteMode = match LanceWriteMode::from_raw(request.mode) {
        Ok(mode) => mode,
        Err(error) => {
            return Err(error);
        },
    };
    let uri: String = match request.uri {
        CStringArg::Text(uri) => {
            if uri.as_str().is_empty() {
                return Err(LanceError::invalid("uri must not be empty"));
            }
            uri
        },
        _ => {
            return Err(LanceError::invalid("C string is not valid UTF-8"));
        },
    };
    let expected_schema: String = match request.schema {
        SchemaArg::Schema(schema) => schema,
        SchemaArg::Invalid(reason) => {
            let mut message: String = "invalid schema: ".to_owned();
            message.append(reason.as_str());
            return Err(LanceError::invalid_text(message));
        },
        SchemaArg::Null => {
            return Err(LanceError::invalid("schema must not be NULL"));
        },
    };
    let storage_options: Vec<(String, String)> = match request.storage_options {
        Ok(options) => options,
        Err(error) => {
            return Err(error);
        },
    };
    if !fields_match {
        let mut message: String =
            "stream schema does not match the provided schema.\n  expected: ".to_owned();
        message.append(expected_schema.as_str());
        message.append("\n  got:      ");
        message.append(stream_schema.as_str());
        return Err(LanceError::invalid_text(message));
    }
    let overrides: Option<WriteOverrides> = match &request.params {
        None => None,
        Some(params) => match apply_write_params(params, request.version_failure) {
            Ok(overrides) => Some(overrides),
            Err(error) => {
                return Err(error);
            },
        },
    };
    Ok(
        WritePlan {
            uri,
            mode,
            storage_options,
            overrides,
            cleanup_interval: AUTO_CLEANUP_INTERVAL,
            cleanup_older_than_days: AUTO_CLEANUP_OLDER_THAN_DAYS,
        },
    )
}

/// Each write mode has its own number; no other number is a mode.
pub proof fn law_numbers_name_the_write_modes(mode: LanceWriteMode, raw: i32)
    ensures
        mode is Create <==> mode.raw() == 0,
        mode is Append <==> mode.raw() == 1,
        mode is Overwrite <==> mode.raw() == 2,
        mode_failure(raw) is None <==> raw == 0 || raw == 1 || raw == 2,
        raw < 0 || raw > 2 ==> mode_failure(raw) == Some(
            error::invalid(
                "invalid write mode "@ + text::signed_decimal(raw as int)
                    + "; expected 0 (create), 1 (append), or 2 (overwrite)"@,
            ),
        ),
{
}

/// A number of the parameters overrides the default if and only if it is not zero, and
/// then by itself.
pub proof fn law_zero_keeps_the_default(value: u64)
    requires
        value <= usize::MAX,
    ensures
        value == 0 ==> override_of(value) is None,
        value >= 1 ==> override_of(value) is Some && override_of(value)->0 == value,
{
}

/// Write parameters are accepted if and only if memory can address their sizes and the
/// storage version is missing, or is a text that is not empty and names a version.
pub proof fn law_write_parameters_are_accepted_for_what_they_are(
    params: LanceWriteParams,
    version_failure: Option<VersionFailure>,
)
    ensures
        params_failure(params, version_failure) is None <==> {
            &&& params.max_rows_per_file <= usize::MAX
            &&& params.max_rows_per_group <= usize::MAX
            &&& params.max_bytes_per_file <= usize::MAX
            &&& params.data_storage_version is Null || (params.data_storage_version is Text
                && params.data_storage_version->Text_0@.len() > 0 && version_failure is None)
        },
        params_failure(params, version_failure) matches Some(report) ==> report.0
            == error::LanceErrorCode::InvalidArgument,
        params.max_rows_per_file > usize::MAX ==> params_failure(params, version_failure) == Some(
            error::invalid(
                "max_rows_per_file"@ + "="@ + text::decimal(params.max_rows_per_file as nat)
                    + " exceeds usize::MAX on this target"@,
            ),
        ),
        params.max_rows_per_file <= usize::MAX && params.max_rows_per_group <= usize::MAX
            && params.max_bytes_per_file <= usize::MAX && params.data_storage_version is Text ==> {
            let version = params.data_storage_version->Text_0@;
            &&& version.len() == 0 ==> params_failure(params, version_failure) == Some(
                error::invalid("data_storage_version must not be an empty string"@),
            )
            &&& version.len() > 0 && version_failure is Some ==> params_failure(
                params,
                version_failure,
            ) == Some(
                error::invalid(
                    "invalid data_storage_version "@ + version_failure->0.quoted@ + ": "@
                        + version_failure->0.reason@,
                ),
            )
        },
{
}

/// A write is accepted if and only if the stream is there, the URI is a text that is
/// not empty, the schema is there, the number names a mode, the storage options could
/// be read, the stream has the fields of the schema, and the parameters are accepted
/// where there are any.
pub proof fn law_write_is_accepted_for_its_arguments(request: WriteRequest)
    ensures
        write_failure(request) is None <==> {
            &&& request.stream is Stream && request.stream->fields_match
            &&& request.uri is Text && request.uri->Text_0@.len() > 0
            &&& request.schema is Schema
            &&& 0 <= request.mode <= 2
            &&& request.storage_options is Ok
            &&& request.params is Some ==> params_failure(
                request.params->0,
                request.version_failure,
            ) is None
        },
        request.stream is Null ==> write_failure(request) == Some(
            error::invalid("stream must not be NULL"@),
        ),
        request.stream is Invalid ==> write_failure(request) == Some(
            error::invalid(request.stream->Invalid_0@),
        ),
        request.stream is Stream && request.uri is Null ==> write_failure(request) == Some(
            error::invalid("uri must not be NULL"@),
        ),
        request.stream is Stream && !(request.uri is Null) && request.schema is Null
            ==> write_failure(request) == Some(error::invalid("schema must not be NULL"@)),
        request.stream is Stream && request.uri is Text && request.uri->Text_0@.len() == 0
            && !(request.schema is Null) && 0 <= request.mode <= 2 ==> write_failure(request)
            == Some(error::invalid("uri must not be empty"@)),
        request.stream is Stream && request.uri is Text && request.uri->Text_0@.len() > 0
            && request.schema is Invalid && 0 <= request.mode <= 2 ==> write_failure(request)
            == Some(error::invalid("invalid schema: "@ + request.schema->Invalid_0@)),
        request.stream is Stream && request.uri is Text && request.uri->Text_0@.len() > 0
            && request.schema is Schema && 0 <= request.mode <= 2 && request.storage_options is Err
            ==> write_failure(request) == Some(request.storage_options->Err_0@),
        request.stream is Stream && request.uri is Text && request.uri->Text_0@.len() > 0
            && request.schema is Schema && 0 <= request.mode <= 2 && request.storage_options is Ok
            && request.stream->fields_match && request.params is Some ==> write_failure(request)
            == params_failure(request.params->0, request.version_failure),
        request.stream is Stream && request.uri is Text && request.uri->Text_0@.len() > 0
            && request.schema is Schema && 0 <= request.mode <= 2 && request.storage_options is Ok
            && !request.stream->fields_match ==> write_failure(request) == Some(
            error::invalid(
                "stream schema does not match the provided schema.\n  expected: "@
                    + request.schema->Schema_0@ + "\n  got:      "@ + request.stream->schema@,
            ),
        ),
{
}

} // verus!
