//! Metadata of index segments: which encoded metadata is accepted, and what can be
//! read of it.

use vstd::prelude::*;
use vstd::string::{StrSliceExecFns, StringExecFns};

use crate::error;
use crate::error::{ffi_try, LanceError, LastError};
use crate::text;

verus! {

/// The fields of a decoded protobuf `IndexMetadata` that are checked before it is
/// converted.
pub struct IndexMetadataProto {
    /// When the index was created, in milliseconds since 1970.
    pub created_at: Option<u64>,
    pub index_version: Option<i32>,
    pub fields: Vec<i32>,
}

/// The last millisecond of the last year that a date can have.
pub const MAX_TIMESTAMP_MILLIS: i64 = 8210266876799999;

/// Calls `DateTime::<Utc>::from_timestamp_millis` of the `chrono` crate and tells
/// whether it found a date. From 1970 on it does so up to the end of the year
/// 262142, the last that its dates can have.
#[verifier::external_body]
fn has_date(millis: i64) -> (found: bool)
    requires
        millis >= 0,
    ensures
        found == (millis <= MAX_TIMESTAMP_MILLIS),
{
    chrono::DateTime::<chrono::Utc>::from_timestamp_millis(millis).is_some()
}

/// What a time of creation reports.
pub open spec fn created_at_failure(created_at: Option<u64>) -> Option<error::Report> {
    match created_at {
        None => None,
        Some(millis) => if millis > i64::MAX {
            Some(
                error::invalid(
                    "IndexMetadata created_at "@ + text::decimal(millis as nat)
                        + " exceeds i64::MAX milliseconds"@,
                ),
            )
        } else if millis > MAX_TIMESTAMP_MILLIS {
            Some(
                error::invalid(
                    "IndexMetadata created_at "@ + text::decimal(millis as nat)
                        + " is outside chrono's supported range"@,
                ),
            )
        } else {
            None
        },
    }
}

/// The first position, from `from` on, that holds a negative number.
pub open spec fn first_negative(fields: Seq<i32>, from: int) -> int
    decreases fields.len() - from,
{
    if from >= fields.len() || from < 0 {
        fields.len() as int
    } else if fields[from] < 0 {
        from
    } else {
        first_negative(fields, from + 1)
    }
}

/// The first failure of decoded metadata.
pub open spec fn proto_failure(proto: IndexMetadataProto) -> Option<error::Report> {
    let position = first_negative(proto.fields@, 0);
    if created_at_failure(proto.created_at) is Some {
        created_at_failure(proto.created_at)
    } else if proto.index_version matches Some(version) && version < 0 {
        Some(
            error::invalid(
                "IndexMetadata index_version must be >= 0, got "@ + text::signed_decimal(
                    proto.index_version->0 as int,
                ),
            ),
        )
    } else if position < proto.fields@.len() {
        Some(
            error::invalid(
                "IndexMetadata fields["@ + text::decimal(position as nat) + "] must be >= 0, got "@
                    + text::signed_decimal(proto.fields@[position] as int),
            ),
        )
    } else {
        None
    }
}

/// What encoded metadata reports; `Err` is why it could not be decoded.
pub open spec fn decode_failure(proto: Result<IndexMetadataProto, String>) -> Option<
    error::Report,
> {
    match proto {
        Err(reason) => Some(error::invalid("invalid IndexMetadata protobuf: "@ + reason@)),
        Ok(proto) => proto_failure(proto),
    }
}

fn check_created_at(created_at: Option<u64>) -> (result: Result<(), LanceError>)
    ensures
        error::failure(result) == created_at_failure(created_at),
{
    let millis: u64 = match created_at {
        Some(millis) => millis,
        None => {
            return Ok(());
        },
    };
    if millis > i64::MAX as u64 {
        let mut message: String = "IndexMetadata created_at ".to_owned();
        text::push_decimal(&mut message, millis);
        message.append(" exceeds i64::MAX milliseconds");
        return Err(LanceError::invalid_text(message));
    }
    if !has_date(millis as i64) {
        let mut message: String = "IndexMetadata created_at ".to_owned();
        text::push_decimal(&mut message, millis);
        message.append(" is outside chrono's supported range");
        return Err(LanceError::invalid_text(message));
    }
    Ok(())
}

fn find_negative(fields: &Vec<i32>) -> (position: usize)
    ensures
        position == first_negative(fields@, 0),
{
    let mut i: usize = 0;
    while i < fields.len()
        invariant
            i <= fields@.len(),
            first_negative(fields@, 0) == first_negative(fields@, i as int),
        decreases fields.len() - i,
    {
        if fields[i] < 0 {
            return i;
        }
        i += 1;
    }
    i
}

/// Checks decoded metadata, of which every number must be one that the table
/// format can hold. Accepted metadata may be converted.
pub fn decode_segment_metadata(proto: &Result<IndexMetadataProto, String>) -> (result: Result<
    (),
    LanceError,
>)
    ensures
        error::failure(result) == decode_failure(*proto),
{
    let proto: &IndexMetadataProto = match proto {
        Ok(proto) => proto,
        Err(reason) => {
            let mut message: String = "invalid IndexMetadata protobuf: ".to_owned();
            message.append(reason.as_str());
            return Err(LanceError::invalid_text(message));
        },
    };
    if let Err(error) = check_created_at(proto.created_at) {
        return Err(error);
    }
    if let Some(version) = proto.index_version {
        if version < 0 {
            let mut message: String =
                "IndexMetadata index_version must be >= 0, got ".to_owned();
            text::push_signed(&mut message, version as i64);
            return Err(LanceError::invalid_text(message));
        }
    }
    let position: usize = find_negative(&proto.fields);
    if position < proto.fields.len() {
        let mut message: String = "IndexMetadata fields[".to_owned();
        text::push_decimal(&mut message, position as u64);
        message.append("] must be >= 0, got ");
        text::push_signed(&mut message, proto.fields[position] as i64);
        return Err(LanceError::invalid_text(message));
    }
    Ok(())
}

/// Converted metadata of an index segment, as the table format holds it.
pub struct ConvertedMetadata {
    pub uuid: [u8; 16],
    pub name: String,
    pub dataset_version: u64,
    pub index_version: i32,
    pub fields: Vec<i32>,
    /// The type URL of the index details; `None` without details.
    pub type_url: Option<String>,
    /// The fragments that the segment covers, in ascending order.
    pub fragment_ids: Vec<u32>,
}

/// Whether numbers ascend, so that none occurs twice.
pub open spec fn ascending(ids: Seq<u32>) -> bool {
    forall|i: int, j: int| 0 <= i < j < ids.len() ==> ids[i] < ids[j]
}

/// Parsed metadata of an index segment. Its texts hold no NUL, and its fragments
/// ascend.
pub struct LanceIndexSegmentMetadata {
    metadata: ConvertedMetadata,
}

impl LanceIndexSegmentMetadata {
    #[verifier::type_invariant]
    spec fn type_inv(self) -> bool {
        &&& !self.metadata.name@.contains('\0')
        &&& self.metadata.type_url matches Some(url) ==> !url@.contains('\0')
        &&& ascending(self.metadata.fragment_ids@)
    }
}

impl View for LanceIndexSegmentMetadata {
    type V = ConvertedMetadata;

    closed spec fn view(&self) -> ConvertedMetadata {
        self.metadata
    }
}

/// Arguments of a parse: the pointers, and their texts for messages.
pub struct ParseRequest {
    pub bytes_is_null: bool,
    pub bytes_pointer: String,
    pub len: usize,
    pub out_is_null: bool,
    pub out_pointer: String,
}

/// The first failure of a parse, and `decoded` that of the bytes, which counts
/// only where they can be read.
pub open spec fn parse_failure(
    request: ParseRequest,
    decoded: Result<ConvertedMetadata, LanceError>,
) -> Option<error::Report> {
    if request.bytes_is_null || request.len == 0 || request.out_is_null {
        Some(
            error::invalid(
                "bytes must be non-NULL, len must be > 0, and out_metadata must be non-NULL; bytes="@
                    + request.bytes_pointer@ + ", len="@ + text::decimal(request.len as nat)
                    + ", out_metadata="@ + request.out_pointer@,
            ),
        )
    } else if request.len > isize::MAX {
        Some(
            error::invalid(
                "len "@ + text::decimal(request.len as nat)
                    + " exceeds the maximum addressable byte slice length"@,
            ),
        )
    } else {
        match decoded {
            Err(error) => Some(error@),
            Ok(metadata) => if metadata.name@.contains('\0') {
                Some(error::invalid("index metadata name contains an embedded NUL byte"@))
            } else if metadata.type_url matches Some(url) && url@.contains('\0') {
                Some(error::invalid("index details type_url contains an embedded NUL byte"@))
            } else {
                None
            },
        }
    }
}

fn has_nul(text: &str) -> (found: bool)
    ensures
        found == text@.contains('\0'),
{
    let len: usize = text.unicode_len();
    let mut i: usize = 0;
    while i < len
        invariant
            i <= len,
            len == text@.len(),
            forall|k: int| 0 <= k < i ==> text@[k] != '\0',
        decreases len - i,
    {
        if text.get_char(i) == '\0' {
            assert(text@[i as int] == '\0');
            return true;
        }
        i += 1;
    }
    false
}

/// Parses the metadata of an index segment.
pub fn parse_metadata_inner(
    request: &ParseRequest,
    decoded: Result<ConvertedMetadata, LanceError>,
) -> (result: Result<LanceIndexSegmentMetadata, LanceError>)
    requires
        decoded matches Ok(metadata) ==> ascending(metadata.fragment_ids@),
    ensures
        error::failure(result) == parse_failure(*request, decoded),
        result matches Ok(handle) ==> decoded == Ok::<ConvertedMetadata, LanceError>(handle@),
{
    if request.bytes_is_null || request.len == 0 || request.out_is_null {
        let mut message: String =
            "bytes must be non-NULL, len must be > 0, and out_metadata must be non-NULL; bytes=".to_owned();
        message.append(request.bytes_pointer.as_str());
        message.append(", len=");
        text::push_decimal(&mut message, request.len as u64);
        message.append(", out_metadata=");
        message.append(request.out_pointer.as_str());
        return Err(LanceError::invalid_text(message));
    }
    if request.len > isize::MAX as usize {
        let mut message: String = "len ".to_owned();
        text::push_decimal(&mut message, request.len as u64);
        message.append(" exceeds the maximum addressable byte slice length");
        return Err(LanceError::invalid_text(message));
    }
    let metadata: ConvertedMetadata = match decoded {
        Ok(metadata) => metadata,
        Err(error) => {
            return Err(error);
        },
    };
    if has_nul(metadata.name.as_str()) {
        return Err(LanceError::invalid("index metadata name contains an embedded NUL byte"));
    }
    if let Some(url) = &metadata.type_url {
        if has_nul(url.as_str()) {
            return Err(
                LanceError::invalid("index details type_url contains an embedded NUL byte"),
            );
        }
    }
    Ok(LanceIndexSegmentMetadata { metadata })
}

/// Copies the identifier of the metadata as sixteen octets.
pub fn lance_index_segment_metadata_uuid(
    last: &mut LastError,
    metadata: Option<&LanceIndexSegmentMetadata>,
    out_uuid: Option<&mut [u8; 16]>,
) -> (status: i32)
    ensures
        error::reports(
            status,
            final(last)@,
            if metadata is None || out_uuid is None {
                Some(error::invalid("metadata and out_uuid must not be NULL"@))
            } else {
                None
            },
        ),
        out_uuid matches Some(out) ==> *final(out) == (match metadata {
            Some(metadata) => metadata@.uuid,
            None => *out,
        }),
{
    match (metadata, out_uuid) {
        (Some(metadata), Some(out)) => {
            *out = metadata.metadata.uuid;
            ffi_try(last, Ok(()))
        },
        _ => ffi_try(last, Err(LanceError::invalid("metadata and out_uuid must not be NULL"))),
    }
}

fn reject_null(last: &mut LastError)
    ensures
        final(last)@ == error::invalid("metadata is NULL"@),
{
    last.set_lance_error(LanceError::invalid("metadata is NULL"));
}

/// The name of the metadata; `None` on failure.
pub fn lance_index_segment_metadata_name<'a>(
    last: &mut LastError,
    metadata: Option<&'a LanceIndexSegmentMetadata>,
) -> (name: Option<&'a str>)
    ensures
        match metadata {
            Some(metadata) => name matches Some(name) && name@ == metadata@.name@
                && !name@.contains('\0') && final(last)@ == error::no_error(),
            None => name is None && final(last)@ == error::invalid("metadata is NULL"@),
        },
{
    match metadata {
        Some(metadata) => {
            proof {
                use_type_invariant(metadata);
            }
            last.clear_last_error();
            Some(metadata.metadata.name.as_str())
        },
        None => {
            reject_null(last);
            None
        },
    }
}

/// The dataset version that the metadata records; zero on failure.
pub fn lance_index_segment_metadata_dataset_version(
    last: &mut LastError,
    metadata: Option<&LanceIndexSegmentMetadata>,
) -> (version: u64)
    ensures
        match metadata {
            Some(metadata) => version == metadata@.dataset_version && final(last)@
                == error::no_error(),
            None => version == 0 && final(last)@ == error::invalid("metadata is NULL"@),
        },
{
    match metadata {
        Some(metadata) => {
            last.clear_last_error();
            metadata.metadata.dataset_version
        },
        None => {
            reject_null(last);
            0
        },
    }
}

/// The physical index version that the metadata records; minus one on failure.
pub fn lance_index_segment_metadata_index_version(
    last: &mut LastError,
    metadata: Option<&LanceIndexSegmentMetadata>,
) -> (version: i32)
    ensures
        match metadata {
            Some(metadata) => version == metadata@.index_version && final(last)@
                == error::no_error(),
            None => version == -1 && final(last)@ == error::invalid("metadata is NULL"@),
        },
{
    match metadata {
        Some(metadata) => {
            last.clear_last_error();
            metadata.metadata.index_version
        },
        None => {
            reject_null(last);
            -1
        },
    }
}

/// How a vector index stores its vectors.
#[derive(Clone, Copy, Debug, PartialEq, Eq, Structural)]
pub enum Compression {
    Flat,
    Sq,
    Pq,
    Rq,
}

/// What the details of a vector index say.
#[derive(Clone, Copy, Debug, PartialEq, Eq, Structural)]
pub struct VectorDetails {
    /// Its partitions are navigated by a graph.
    pub hnsw: bool,
    pub compression: Option<Compression>,
}

/// The index type of a vector index, by its details.
pub open spec fn vector_index_type(details: VectorDetails) -> Result<i32, error::Report> {
    match (details.hnsw, details.compression) {
        (_, Some(Compression::Rq)) => Err(
            error::not_supported(
                "Rabit-quantized vector metadata has no LanceVectorIndexType value"@,
            ),
        ),
        (false, Some(Compression::Sq)) => Ok(102),
        (false, Some(Compression::Pq)) => Ok(103),
        (false, _) => Ok(101),
        (true, Some(Compression::Sq)) => Ok(104),
        (true, Some(Compression::Pq)) => Ok(105),
        (true, _) => Ok(106),
    }
}

/// The index type that a type URL names, or what it reports. `details` are those
/// of a vector index, or why they could not be decoded.
pub open spec fn index_type_of(
    type_url: Seq<char>,
    details: Result<VectorDetails, String>,
) -> Result<i32, error::Report> {
    if text::has_suffix(type_url, "BTreeIndexDetails"@) {
        Ok(1)
    } else if text::has_suffix(type_url, "BitmapIndexDetails"@) {
        Ok(2)
    } else if text::has_suffix(type_url, "LabelListIndexDetails"@) {
        Ok(3)
    } else if text::has_suffix(type_url, "InvertedIndexDetails"@) {
        Ok(4)
    } else if text::has_suffix(type_url, "VectorIndexDetails"@) {
        match details {
            Ok(details) => vector_index_type(details),
            Err(reason) => Err(
                error::invalid("invalid VectorIndexDetails protobuf: "@ + reason@),
            ),
        }
    } else {
        Err(
            error::not_supported("unsupported index_details type_url '"@ + type_url + "'"@),
        )
    }
}

/// The index type of metadata, or what it reports.
pub open spec fn metadata_index_type(
    metadata: Option<&LanceIndexSegmentMetadata>,
    details: Result<VectorDetails, String>,
) -> Result<i32, error::Report> {
    match metadata {
        None => Err(error::invalid("metadata must not be NULL"@)),
        Some(metadata) => match metadata@.type_url {
            None => Err(error::invalid("index metadata does not contain index_details"@)),
            Some(type_url) => index_type_of(type_url@, details),
        },
    }
}

/// The outcome of a look for the index type, as specifications state it.
pub open spec fn outcome(result: Result<i32, LanceError>) -> Result<i32, error::Report> {
    match result {
        Ok(index_type) => Ok(index_type),
        Err(error) => Err(error@),
    }
}

fn type_of_vector_index(details: VectorDetails) -> (result: Result<i32, LanceError>)
    ensures
        outcome(result) == vector_index_type(details),
{
    match (details.hnsw, details.compression) {
        (_, Some(Compression::Rq)) => {
            let message: String =
                "Rabit-quantized vector metadata has no LanceVectorIndexType value".to_owned();
            Err(LanceError::not_supported(message))
        },
        (false, Some(Compression::Sq)) => Ok(102),
        (false, Some(Compression::Pq)) => Ok(103),
        (false, _) => Ok(101),
        (true, Some(Compression::Sq)) => Ok(104),
        (true, Some(Compression::Pq)) => Ok(105),
        (true, _) => Ok(106),
    }
}

/// The scalar or vector index type of metadata. `details` count only for a vector
/// index.
pub fn metadata_index_type_inner(
    metadata: Option<&LanceIndexSegmentMetadata>,
    details: Result<VectorDetails, String>,
) -> (result: Result<i32, LanceError>)
    ensures
        outcome(result) == metadata_index_type(metadata, details),
{
    let type_url: &str = match metadata {
        None => {
            return Err(LanceError::invalid("metadata must not be NULL"));
        },
        Some(metadata) => match &metadata.metadata.type_url {
            None => {
                return Err(LanceError::invalid("index metadata does not contain index_details"));
            },
            Some(type_url) => type_url.as_str(),
        },
    };
    if text::ends_with(type_url, "BTreeIndexDetails") {
        return Ok(1);
    }
    if text::ends_with(type_url, "BitmapIndexDetails") {
        return Ok(2);
    }
    if text::ends_with(type_url, "LabelListIndexDetails") {
        return Ok(3);
    }
    if text::ends_with(type_url, "InvertedIndexDetails") {
        return Ok(4);
    }
    if text::ends_with(type_url, "VectorIndexDetails") {
        return match details {
            Ok(details) => type_of_vector_index(details),
            Err(reason) => {
                let mut message: String = "invalid VectorIndexDetails protobuf: ".to_owned();
                message.append(reason.as_str());
                Err(LanceError::invalid_text(message))
            },
        };
    }
    let mut message: String = "unsupported index_details type_url '".to_owned();
    message.append(type_url);
    message.append("'");
    Err(LanceError::not_supported(message))
}

/// The scalar or vector index type of metadata; minus one on failure.
pub fn lance_index_segment_metadata_index_type(
    last: &mut LastError,
    metadata: Option<&LanceIndexSegmentMetadata>,
    details: Result<VectorDetails, String>,
) -> (index_type: i32)
    ensures
        match metadata_index_type(metadata, details) {
            Ok(found) => index_type == found && final(last)@ == error::no_error(),
            Err(report) => index_type == -1 && final(last)@ == report,
        },
{
    match metadata_index_type_inner(metadata, details) {
        Ok(index_type) => {
            last.clear_last_error();
            index_type
        },
        Err(error) => {
            last.set_lance_error(error);
            -1
        },
    }
}

/// The type URL of the index details; `None` on failure.
pub fn lance_index_segment_metadata_index_details_type_url<'a>(
    last: &mut LastError,
    metadata: Option<&'a LanceIndexSegmentMetadata>,
) -> (type_url: Option<&'a str>)
    ensures
        match metadata {
            None => type_url is None && final(last)@ == error::invalid("metadata is NULL"@),
            Some(metadata) => match metadata@.type_url {
                None => type_url is None && final(last)@
                    == error::index_not_found("index metadata does not contain index_details"@),
                Some(url) => type_url matches Some(found) && found@ == url@
                    && !found@.contains('\0') && final(last)@ == error::no_error(),
            },
        },
{
    match metadata {
        None => {
            reject_null(last);
            None
        },
        Some(metadata) => match &metadata.metadata.type_url {
            None => {
                last.set_lance_error(
                    LanceError::index_not_found(
                        "index metadata does not contain index_details".to_owned(),
                    ),
                );
                None
            },
            Some(url) => {
                proof {
                    use_type_invariant(metadata);
                }
                last.clear_last_error();
                Some(url.as_str())
            },
        },
    }
}

/// The number of indexed fields; zero on failure.
pub fn lance_index_segment_metadata_field_count(
    last: &mut LastError,
    metadata: Option<&LanceIndexSegmentMetadata>,
) -> (count: usize)
    ensures
        match metadata {
            Some(metadata) => count == metadata@.fields@.len() && final(last)@
                == error::no_error(),
            None => count == 0 && final(last)@ == error::invalid("metadata is NULL"@),
        },
{
    match metadata {
        Some(metadata) => {
            last.clear_last_error();
            metadata.metadata.fields.len()
        },
        None => {
            reject_null(last);
            0
        },
    }
}

/// The number of covered fragments; zero on failure.
pub fn lance_index_segment_metadata_fragment_count(
    last: &mut LastError,
    metadata: Option<&LanceIndexSegmentMetadata>,
) -> (count: usize)
    ensures
        match metadata {
            Some(metadata) => count == metadata@.fragment_ids@.len() && final(last)@
                == error::no_error(),
            None => count == 0 && final(last)@ == error::invalid("metadata is NULL"@),
        },
{
    match metadata {
        Some(metadata) => {
            last.clear_last_error();
            metadata.metadata.fragment_ids.len()
        },
        None => {
            reject_null(last);
            0
        },
    }
}

/// What a copy of `len` numbers into a buffer with the given capacity reports:
/// `fields` names the numbers, and `len` is `None` for NULL metadata.
pub open spec fn copy_failure(
    len: Option<nat>,
    count_is_null: bool,
    buffer_is_null: bool,
    capacity: usize,
    buffer: Seq<char>,
    count: Seq<char>,
) -> Option<error::Report> {
    match len {
        None => Some(error::invalid("metadata and out_count must not be NULL"@)),
        Some(len) => if count_is_null {
            Some(error::invalid("metadata and out_count must not be NULL"@))
        } else if capacity < len {
            Some(
                error::invalid(
                    "capacity "@ + text::decimal(capacity as nat) + " is smaller than "@ + count
                        + " "@ + text::decimal(len),
                ),
            )
        } else if len > 0 && buffer_is_null {
            Some(
                error::invalid(buffer + " is NULL but "@ + count + " is "@ + text::decimal(len)),
            )
        } else {
            None
        },
    }
}

fn check_copy(
    len: Option<usize>,
    count_is_null: bool,
    buffer_is_null: bool,
    capacity: usize,
    buffer: &str,
    count: &str,
) -> (result: Result<(), LanceError>)
    ensures
        error::failure(result) == copy_failure(
            match len {
                Some(len) => Some(len as nat),
                None => None,
            },
            count_is_null,
            buffer_is_null,
            capacity,
            buffer@,
            count@,
        ),
{
    let len: usize = match len {
        Some(len) => len,
        None => {
            return Err(LanceError::invalid("metadata and out_count must not be NULL"));
        },
    };
    if count_is_null {
        return Err(LanceError::invalid("metadata and out_count must not be NULL"));
    }
    if capacity < len {
        let mut message: String = "capacity ".to_owned();
        text::push_decimal(&mut message, capacity as u64);
        message.append(" is smaller than ");
        message.append(count);
        message.append(" ");
        text::push_decimal(&mut message, len as u64);
        return Err(LanceError::invalid_text(message));
    }
    if len > 0 && buffer_is_null {
        let mut message: String = buffer.to_owned();
        message.append(" is NULL but ");
        message.append(count);
        message.append(" is ");
        text::push_decimal(&mut message, len as u64);
        return Err(LanceError::invalid_text(message));
    }
    Ok(())
}

fn copy_into<T: Copy>(numbers: &Vec<T>, out: &mut Vec<T>)
    requires
        numbers@.len() <= old(out)@.len(),
    ensures
        final(out)@ == numbers@ + old(out)@.skip(numbers@.len() as int),
{
    let ghost before = out@;
    let mut i: usize = 0;
    assert(out@ =~= numbers@.take(0) + before.skip(0));
    while i < numbers.len()
        invariant
            i <= numbers@.len() <= before.len(),
            out@ == numbers@.take(i as int) + before.skip(i as int),
        decreases numbers.len() - i,
    {
        out.set(i, numbers[i]);
        i += 1;
        assert(out@ =~= numbers@.take(i as int) + before.skip(i as int));
    }
    assert(numbers@.take(i as int) =~= numbers@);
}

/// Copies the indexed fields, in order, into a caller's buffer. The buffer has
/// `capacity` places, as far as it is not NULL; what lies behind the fields is
/// kept.
pub fn lance_index_segment_metadata_field_ids(
    last: &mut LastError,
    metadata: Option<&LanceIndexSegmentMetadata>,
    out_field_ids: Option<&mut Vec<i32>>,
    capacity: usize,
    out_count: Option<&mut usize>,
) -> (status: i32)
    requires
        out_field_ids matches Some(out) ==> out@.len() == capacity,
    ensures
        ({
            let failed = copy_failure(
                match metadata {
                    Some(metadata) => Some(metadata@.fields@.len()),
                    None => None,
                },
                out_count is None,
                out_field_ids is None,
                capacity,
                "out_field_ids"@,
                "field_count"@,
            );
            &&& error::reports(status, final(last)@, failed)
            &&& out_count matches Some(count) ==> *final(count) == if failed is None {
                metadata->0@.fields@.len() as usize
            } else {
                *count
            }
            &&& out_field_ids matches Some(out) ==> final(out)@ == if failed is None {
                metadata->0@.fields@ + out@.skip(metadata->0@.fields@.len() as int)
            } else {
                out@
            }
        }),
{
    let len: Option<usize> = match metadata {
        Some(metadata) => Some(metadata.metadata.fields.len()),
        None => None,
    };
    let checked: Result<(), LanceError> = check_copy(
        len,
        out_count.is_none(),
        out_field_ids.is_none(),
        capacity,
        "out_field_ids",
        "field_count",
    );
    if checked.is_ok() {
        if let (Some(metadata), Some(count)) = (metadata, out_count) {
            *count = metadata.metadata.fields.len();
            if let Some(out) = out_field_ids {
                copy_into(&metadata.metadata.fields, out);
            }
        }
    }
    ffi_try(last, checked)
}

/// Copies the covered fragments, in ascending order, into a caller's buffer. The
/// buffer has `capacity` places, as far as it is not NULL; what lies behind the
/// fragments is kept.
pub fn lance_index_segment_metadata_fragment_ids(
    last: &mut LastError,
    metadata: Option<&LanceIndexSegmentMetadata>,
    out_fragment_ids: Option<&mut Vec<u32>>,
    capacity: usize,
    out_count: Option<&mut usize>,
) -> (status: i32)
    requires
        out_fragment_ids matches Some(out) ==> out@.len() == capacity,
    ensures
        ({
            let failed = copy_failure(
                match metadata {
                    Some(metadata) => Some(metadata@.fragment_ids@.len()),
                    None => None,
                },
                out_count is None,
                out_fragment_ids is None,
                capacity,
                "out_fragment_ids"@,
                "fragment_count"@,
            );
            &&& error::reports(status, final(last)@, failed)
            &&& out_count matches Some(count) ==> *final(count) == if failed is None {
                metadata->0@.fragment_ids@.len() as usize
            } else {
                *count
            }
            &&& out_fragment_ids matches Some(out) ==> final(out)@ == if failed is None {
                metadata->0@.fragment_ids@ + out@.skip(metadata->0@.fragment_ids@.len() as int)
            } else {
                out@
            }
            &&& out_fragment_ids matches Some(out) ==> failed is None ==> ascending(
                final(out)@.take(metadata->0@.fragment_ids@.len() as int),
            )
        }),
{
    if let Some(metadata) = metadata {
        proof {
            use_type_invariant(metadata);
        }
    }
    let len: Option<usize> = match metadata {
        Some(metadata) => Some(metadata.metadata.fragment_ids.len()),
        None => None,
    };
    let checked: Result<(), LanceError> = check_copy(
        len,
        out_count.is_none(),
        out_fragment_ids.is_none(),
        capacity,
        "out_fragment_ids",
        "fragment_count",
    );
    if checked.is_ok() {
        if let (Some(metadata), Some(count)) = (metadata, out_count) {
            *count = metadata.metadata.fragment_ids.len();
            if let Some(out) = out_fragment_ids {
                let ghost before = out@;
                copy_into(&metadata.metadata.fragment_ids, out);
                proof {
                    let ids = metadata.metadata.fragment_ids@;
                    assert((ids + before.skip(ids.len() as int)).take(ids.len() as int) =~= ids);
                }
            }
        }
    }
    ffi_try(last, checked)
}

proof fn lemma_first_negative(fields: Seq<i32>, from: int)
    requires
        0 <= from <= fields.len(),
    ensures
        from <= first_negative(fields, from) <= fields.len(),
        first_negative(fields, from) < fields.len() ==> fields[first_negative(fields, from)] < 0,
        forall|i: int| from <= i < first_negative(fields, from) ==> #[trigger] fields[i] >= 0,
    decreases fields.len() - from,
{
    if from < fields.len() && fields[from] >= 0 {
        lemma_first_negative(fields, from + 1);
    }
}

/// Decoded metadata is accepted if and only if its time of creation is missing or no
/// later than the last millisecond that a date can name, its index version is missing
/// or not negative, and none of its fields is negative.
pub proof fn law_metadata_is_accepted_for_its_numbers(
    proto: Result<IndexMetadataProto, String>,
)
    ensures
        decode_failure(proto) is None <==> {
            &&& proto is Ok
            &&& proto->Ok_0.created_at is Some ==> proto->Ok_0.created_at->0 <= 8210266876799999
            &&& proto->Ok_0.index_version is Some ==> proto->Ok_0.index_version->0 >= 0
            &&& forall|i: int|
                0 <= i < proto->Ok_0.fields@.len() ==> #[trigger] proto->Ok_0.fields@[i] >= 0
        },
        proto is Err ==> decode_failure(proto) == Some(
            error::invalid("invalid IndexMetadata protobuf: "@ + proto->Err_0@),
        ),
        decode_failure(proto) matches Some(report) ==> report.0
            == error::LanceErrorCode::InvalidArgument,
{
    if proto is Ok {
        lemma_first_negative(proto->Ok_0.fields@, 0);
        let position = first_negative(proto->Ok_0.fields@, 0);
        if position < proto->Ok_0.fields@.len() {
            assert(proto->Ok_0.fields@[position] < 0);
        }
    }
}

/// Rejected metadata is reported by the first number that is wrong.
pub proof fn law_wrong_number_is_reported(proto: IndexMetadataProto, at: int)
    requires
        proto.created_at is None,
    ensures
        (proto.index_version is Some && proto.index_version->0 < 0) ==> proto_failure(proto)
            == Some(
            error::invalid(
                "IndexMetadata index_version must be >= 0, got "@ + text::signed_decimal(
                    proto.index_version->0 as int,
                ),
            ),
        ),
        proto.index_version is None && 0 <= at < proto.fields@.len() && proto.fields@[at] < 0 && (
        forall|i: int| 0 <= i < at ==> #[trigger] proto.fields@[i] >= 0) ==> proto_failure(proto)
            == Some(
            error::invalid(
                "IndexMetadata fields["@ + text::decimal(at as nat) + "] must be >= 0, got "@
                    + text::signed_decimal(proto.fields@[at] as int),
            ),
        ),
{
    lemma_first_negative(proto.fields@, 0);
    let position = first_negative(proto.fields@, 0);
    if 0 <= at < proto.fields@.len() && proto.fields@[at] < 0 && position < at {
        assert(proto.fields@[position] < 0);
    }
}

/// Encoded metadata is parsed if and only if its bytes are there, not empty and can be
/// addressed, there is where to put it, it decodes, and neither its name nor its type
/// URL has a NUL character. A decoding that failed is reported as it failed.
pub proof fn law_metadata_is_parsed_for_its_bytes(
    request: ParseRequest,
    decoded: Result<ConvertedMetadata, LanceError>,
)
    ensures
        parse_failure(request, decoded) is None <==> {
            &&& !request.bytes_is_null && !request.out_is_null
            &&& 0 < request.len <= isize::MAX
            &&& decoded is Ok
            &&& !decoded->Ok_0.name@.contains('\0')
            &&& decoded->Ok_0.type_url is Some ==> !decoded->Ok_0.type_url->0@.contains('\0')
        },
        !request.bytes_is_null && !request.out_is_null && 0 < request.len <= isize::MAX && decoded
            is Err ==> parse_failure(request, decoded) == Some(decoded->Err_0@),
{
}

/// Vector details name the kind of index that they describe; with quantization by
/// rotated bits there is none.
pub proof fn law_details_name_the_vector_index(details: VectorDetails)
    ensures
        vector_index_type(details) is Err <==> details.compression == Some(Compression::Rq),
        vector_index_type(details) matches Ok(index_type) ==> {
            &&& index_type == 101 <==> !details.hnsw && (details.compression is None
                || details.compression == Some(Compression::Flat))
            &&& index_type == 102 <==> !details.hnsw && details.compression == Some(Compression::Sq)
            &&& index_type == 103 <==> !details.hnsw && details.compression == Some(Compression::Pq)
            &&& index_type == 104 <==> details.hnsw && details.compression == Some(Compression::Sq)
            &&& index_type == 105 <==> details.hnsw && details.compression == Some(Compression::Pq)
            &&& index_type == 106 <==> details.hnsw && (details.compression is None
                || details.compression == Some(Compression::Flat))
        },
{
}

/// The type URL of the details names the kind of index by how it ends, whatever stands
/// before it.
pub proof fn law_type_url_names_the_index(
    before: Seq<char>,
    details: Result<VectorDetails, String>,
)
    ensures
        index_type_of(before + "BTreeIndexDetails"@, details) == Ok::<i32, error::Report>(1),
        index_type_of(before + "BitmapIndexDetails"@, details) == Ok::<i32, error::Report>(2),
        index_type_of(before + "LabelListIndexDetails"@, details) == Ok::<i32, error::Report>(3),
        index_type_of(before + "InvertedIndexDetails"@, details) == Ok::<i32, error::Report>(4),
        details is Ok ==> index_type_of(before + "VectorIndexDetails"@, details)
            == vector_index_type(details->Ok_0),
        details is Err ==> index_type_of(before + "VectorIndexDetails"@, details) == Err::<
            i32,
            error::Report,
        >(error::invalid("invalid VectorIndexDetails protobuf: "@ + details->Err_0@)),
{
    reveal_strlit("BTreeIndexDetails");
    reveal_strlit("BitmapIndexDetails");
    reveal_strlit("LabelListIndexDetails");
    reveal_strlit("InvertedIndexDetails");
    reveal_strlit("VectorIndexDetails");
    lemma_ends(before, "BTreeIndexDetails"@);
    lemma_ends(before, "BitmapIndexDetails"@);
    lemma_ends(before, "LabelListIndexDetails"@);
    lemma_ends(before, "InvertedIndexDetails"@);
    lemma_ends(before, "VectorIndexDetails"@);
    assert("BTreeIndexDetails"@[4] == 'e');
    assert("BitmapIndexDetails"@[5] == 'p');
    assert("LabelListIndexDetails"@[8] == 't');
    assert("InvertedIndexDetails"@[7] == 'd');
    assert("VectorIndexDetails"@[5] == 'r');
}

proof fn lemma_ends(before: Seq<char>, ending: Seq<char>)
    requires
        ending.len() >= 13,
    ensures
        text::has_suffix(before + ending, ending),
        forall|other: Seq<char>|
            other.len() >= 13 && other[other.len() - 13] != ending[ending.len() - 13]
                ==> !(#[trigger] text::has_suffix(before + ending, other)),
{
    let whole = before + ending;
    assert(whole.skip(before.len() as int) =~= ending);
    assert forall|other: Seq<char>|
        other.len() >= 13 && other[other.len() - 13] != ending[ending.len() - 13] implies !(
    #[trigger] text::has_suffix(whole, other)) by {
        if text::has_suffix(whole, other) {
            assert(whole.skip(whole.len() - other.len())[other.len() - 13] == whole[whole.len()
                - 13]);
        }
    }
}

/// The kind of index of a segment is that of its details; a missing segment or missing
/// details, or details of no known kind, have none.
pub proof fn law_segment_type_comes_from_its_details(
    metadata: &LanceIndexSegmentMetadata,
    details: Result<VectorDetails, String>,
    result: Result<i32, LanceError>,
)
    ensures
        metadata_index_type(None, details) == Err::<i32, error::Report>(
            error::invalid("metadata must not be NULL"@),
        ),
        metadata@.type_url is None ==> metadata_index_type(Some(metadata), details) == Err::<
            i32,
            error::Report,
        >(error::invalid("index metadata does not contain index_details"@)),
        metadata@.type_url is Some ==> metadata_index_type(Some(metadata), details)
            == index_type_of(metadata@.type_url->0@, details),
        result is Ok ==> outcome(result) == Ok::<i32, error::Report>(result->Ok_0),
        result is Err ==> outcome(result) == Err::<i32, error::Report>(result->Err_0@),
{
}

/// A type URL that ends in none of the known ways is not supported.
pub proof fn law_unknown_type_url_is_not_supported(
    type_url: Seq<char>,
    details: Result<VectorDetails, String>,
)
    requires
        !text::has_suffix(type_url, "BTreeIndexDetails"@),
        !text::has_suffix(type_url, "BitmapIndexDetails"@),
        !text::has_suffix(type_url, "LabelListIndexDetails"@),
        !text::has_suffix(type_url, "InvertedIndexDetails"@),
        !text::has_suffix(type_url, "VectorIndexDetails"@),
    ensures
        index_type_of(type_url, details) == Err::<i32, error::Report>(
            error::not_supported("unsupported index_details type_url '"@ + type_url + "'"@),
        ),
{
}

/// Numbers are copied out if and only if there is a segment and where to put their
/// count, the buffer has room for all of them, and it is there unless there are none.
pub proof fn law_numbers_are_copied_where_they_fit(
    len: Option<nat>,
    count_is_null: bool,
    buffer_is_null: bool,
    capacity: usize,
    buffer: Seq<char>,
    count: Seq<char>,
)
    ensures
        ({
            let failed = copy_failure(
                len,
                count_is_null,
                buffer_is_null,
                capacity,
                buffer,
                count,
            );
            &&& failed is None <==> len is Some && !count_is_null && len->0 <= capacity && (len->0
                == 0 || !buffer_is_null)
            &&& len is None || count_is_null ==> failed == Some(
                error::invalid("metadata and out_count must not be NULL"@),
            )
            &&& len is Some && !count_is_null && len->0 > capacity ==> failed == Some(
                error::invalid(
                    "capacity "@ + text::decimal(capacity as nat) + " is smaller than "@ + count
                        + " "@ + text::decimal(len->0),
                ),
            )
            &&& len is Some && !count_is_null && 0 < len->0 <= capacity && buffer_is_null
                ==> failed == Some(
                error::invalid(
                    buffer + " is NULL but "@ + count + " is "@ + text::decimal(len->0),
                ),
            )
        }),
{
}

/// Ascending numbers are each smaller than every later one.
pub proof fn law_ascending_numbers_are_distinct(ids: Seq<u32>, i: int, j: int)
    requires
        ascending(ids),
        0 <= i < ids.len(),
        0 <= j < ids.len(),
    ensures
        ids[i] < ids[j] <==> i < j,
        ids[i] == ids[j] <==> i == j,
{
}

/// Numbers are ascending if and only if each is smaller than the next.
pub proof fn law_ascending_by_neighbours(ids: Seq<u32>)
    ensures
        ascending(ids) <==> forall|i: int|
            0 <= i < ids.len() - 1 ==> #[trigger] ids[i] < ids[i + 1],
    decreases ids.len(),
{
    if forall|i: int| 0 <= i < ids.len() - 1 ==> #[trigger] ids[i] < ids[i + 1] {
        assert forall|i: int, j: int| 0 <= i < j < ids.len() implies ids[i] < ids[j] by {
            lemma_neighbours(ids, i, j);
        }
    }
}

proof fn lemma_neighbours(ids: Seq<u32>, i: int, j: int)
    requires
        0 <= i < j < ids.len(),
        forall|k: int| 0 <= k < ids.len() - 1 ==> #[trigger] ids[k] < ids[k + 1],
    ensures
        ids[i] < ids[j],
    decreases j - i,
{
    if i + 1 < j {
        lemma_neighbours(ids, i, j - 1);
        assert(ids[j - 1] < ids[j - 1 + 1]);
    } else {
        assert(ids[i] < ids[i + 1]);
    }
}

/// Rejected metadata says what is wrong with it.
pub proof fn law_rejected_metadata_says_why(
    millis: u64,
    request: ParseRequest,
    decoded: Result<ConvertedMetadata, LanceError>,
    details: VectorDetails,
)
    ensures
        millis > i64::MAX ==> created_at_failure(Some(millis)) == Some(
            error::invalid(
                "IndexMetadata created_at "@ + text::decimal(millis as nat)
                    + " exceeds i64::MAX milliseconds"@,
            ),
        ),
        8210266876799999 < millis <= i64::MAX ==> created_at_failure(Some(millis)) == Some(
            error::invalid(
                "IndexMetadata created_at "@ + text::decimal(millis as nat)
                    + " is outside chrono's supported range"@,
            ),
        ),
        request.bytes_is_null || request.len == 0 || request.out_is_null ==> parse_failure(
            request,
            decoded,
        ) == Some(
            error::invalid(
                "bytes must be non-NULL, len must be > 0, and out_metadata must be non-NULL; bytes="@
                    + request.bytes_pointer@ + ", len="@ + text::decimal(request.len as nat)
                    + ", out_metadata="@ + request.out_pointer@,
            ),
        ),
        !request.bytes_is_null && !request.out_is_null && request.len > isize::MAX
            ==> parse_failure(request, decoded) == Some(
            error::invalid(
                "len "@ + text::decimal(request.len as nat)
                    + " exceeds the maximum addressable byte slice length"@,
            ),
        ),
        !request.bytes_is_null && !request.out_is_null && 0 < request.len <= isize::MAX
            && decoded is Ok && decoded->Ok_0.name@.contains('\0') ==> parse_failure(
            request,
            decoded,
        ) == Some(error::invalid("index metadata name contains an embedded NUL byte"@)),
        details.compression == Some(Compression::Rq) ==> vector_index_type(details) == Err::<
            i32,
            error::Report,
        >(
            error::not_supported(
                "Rabit-quantized vector metadata has no LanceVectorIndexType value"@,
            ),
        ),
{
}

} // verus!
