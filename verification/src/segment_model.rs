//! Precomputed models of index segments: foreign Arrow schemas and arrays, and
//! the provenance that their metadata records.
//!
//! Foreign memory is read by the caller and described here in plain values; a
//! schema that is reached through pointers is a node under its address.

use std::collections::{HashMap, HashSet};

use vstd::prelude::*;
use vstd::string::StringExecFns;

use crate::error;
use crate::error::LanceError;
use crate::text;

verus! {

broadcast use vstd::std_specs::hash::group_hash_axioms;

/// The deepest nesting of a schema.
pub const MAX_SCHEMA_DEPTH: usize = 64;

/// One foreign Arrow schema.
pub struct SchemaNode {
    /// It has no release callback: it is uninitialized or released.
    pub released: bool,
    pub format_is_null: bool,
    pub format_is_utf8: bool,
    /// True where the name is NULL.
    pub name_is_utf8: bool,
    pub n_children: i64,
    pub children_is_null: bool,
    /// The addresses of the children; zero is NULL.
    pub children: Vec<usize>,
    /// The address of the dictionary; zero is NULL.
    pub dictionary: usize,
}

/// What can be said of a schema without looking at its children.
#[derive(Clone, Copy, Debug, PartialEq, Eq, Structural)]
pub enum SchemaFault {
    Released,
    FormatNotUtf8,
    NameNotUtf8,
    NegativeChildren(i64),
    TooManyChildren(usize),
    ChildrenNull(usize),
}

/// How many pointers a list can hold.
pub open spec fn max_pointers() -> int {
    isize::MAX as int / (usize::BITS as int / 8)
}

/// The first fault of a schema itself.
pub open spec fn schema_fault(node: SchemaNode) -> Option<SchemaFault> {
    if node.released || node.format_is_null {
        Some(SchemaFault::Released)
    } else if !node.format_is_utf8 {
        Some(SchemaFault::FormatNotUtf8)
    } else if !node.name_is_utf8 {
        Some(SchemaFault::NameNotUtf8)
    } else if node.n_children < 0 || node.n_children > usize::MAX {
        Some(SchemaFault::NegativeChildren(node.n_children))
    } else if node.n_children > max_pointers() {
        Some(SchemaFault::TooManyChildren(node.n_children as usize))
    } else if node.n_children > 0 && node.children_is_null {
        Some(SchemaFault::ChildrenNull(node.n_children as usize))
    } else {
        None
    }
}

impl SchemaFault {
    /// The text of a fault at a place in a schema.
    pub open spec fn text(self, path: Seq<char>) -> Seq<char> {
        match self {
            SchemaFault::Released => path + " is uninitialized or already released"@,
            SchemaFault::FormatNotUtf8 => path + " format string is not valid UTF-8"@,
            SchemaFault::NameNotUtf8 => path + " name string is not valid UTF-8"@,
            SchemaFault::NegativeChildren(count) => path
                + ".n_children must be non-negative, got "@ + text::signed_decimal(count as int),
            SchemaFault::TooManyChildren(count) => path + ".n_children "@ + text::decimal(
                count as nat,
            ) + " exceeds the addressable pointer slice length"@,
            SchemaFault::ChildrenNull(count) => path + ".children is NULL while n_children is "@
                + text::decimal(count as nat),
        }
    }

    fn to_error(self, path: &str) -> (error: LanceError)
        ensures
            error@ == error::invalid(self.text(path@)),
    {
        let mut message: String = path.to_owned();
        match self {
            SchemaFault::Released => {
                message.append(" is uninitialized or already released");
            },
            SchemaFault::FormatNotUtf8 => {
                message.append(" format string is not valid UTF-8");
            },
            SchemaFault::NameNotUtf8 => {
                message.append(" name string is not valid UTF-8");
            },
            SchemaFault::NegativeChildren(count) => {
                message.append(".n_children must be non-negative, got ");
                text::push_signed(&mut message, count);
            },
            SchemaFault::TooManyChildren(count) => {
                message.append(".n_children ");
                text::push_decimal(&mut message, count as u64);
                message.append(" exceeds the addressable pointer slice length");
            },
            SchemaFault::ChildrenNull(count) => {
                message.append(".children is NULL while n_children is ");
                text::push_decimal(&mut message, count as u64);
            },
        }
        LanceError::invalid_text(message)
    }
}

/// Looks at a schema itself: how many children it has, or its first fault. The
/// children may be read where there is none.
pub fn inspect_schema(node: &SchemaNode) -> (result: Result<usize, SchemaFault>)
    ensures
        match result {
            Ok(count) => schema_fault(*node) is None && count == node.n_children,
            Err(fault) => schema_fault(*node) == Some(fault),
        },
{
    if node.released || node.format_is_null {
        return Err(SchemaFault::Released);
    }
    if !node.format_is_utf8 {
        return Err(SchemaFault::FormatNotUtf8);
    }
    if !node.name_is_utf8 {
        return Err(SchemaFault::NameNotUtf8);
    }
    if node.n_children < 0 || node.n_children as u64 > usize::MAX as u64 {
        return Err(SchemaFault::NegativeChildren(node.n_children));
    }
    let child_count: usize = node.n_children as usize;
    if child_count > isize::MAX as usize / (usize::BITS as usize / 8) {
        return Err(SchemaFault::TooManyChildren(child_count));
    }
    if child_count > 0 && node.children_is_null {
        return Err(SchemaFault::ChildrenNull(child_count));
    }
    Ok(child_count)
}

/// The place of child `index` of a schema.
pub open spec fn child_path(path: Seq<char>, index: nat) -> Seq<char> {
    path + ".children["@ + text::decimal(index) + "]"@
}

/// The place of the dictionary of a schema.
pub open spec fn dictionary_path(path: Seq<char>) -> Seq<char> {
    path + ".dictionary"@
}

/// The address of child `index`; zero where it was not read.
pub open spec fn child_address(node: SchemaNode, index: int) -> usize {
    if 0 <= index < node.children@.len() {
        node.children@[index]
    } else {
        0
    }
}

/// Walks a schema: itself, its children in order, then its dictionary. Gives the
/// addresses seen so far, or the text of the first failure. No address may be
/// seen twice, and nesting is limited.
pub open spec fn walked(
    graph: Map<usize, SchemaNode>,
    address: usize,
    path: Seq<char>,
    visited: Set<usize>,
    depth: int,
) -> Result<Set<usize>, Seq<char>>
    decreases 66 - depth, 1int, 0int,
{
    if address == 0 {
        Err(path + " must not be NULL"@)
    } else if depth > 64 {
        Err(path + " nesting depth exceeds the supported maximum of 64"@)
    } else if visited.contains(address) {
        Err(path + " contains a schema pointer cycle"@)
    } else if !graph.contains_key(address) {
        Err(SchemaFault::Released.text(path))
    } else {
        let node = graph[address];
        match schema_fault(node) {
            Some(fault) => Err(fault.text(path)),
            None => match walked_children(
                graph,
                node,
                path,
                0,
                visited.insert(address),
                depth,
            ) {
                Err(text) => Err(text),
                Ok(seen) => if node.dictionary == 0 {
                    Ok(seen)
                } else {
                    walked(graph, node.dictionary, dictionary_path(path), seen, depth + 1)
                },
            },
        }
    }
}

/// Walks the children of a schema from `index` on.
pub open spec fn walked_children(
    graph: Map<usize, SchemaNode>,
    node: SchemaNode,
    path: Seq<char>,
    index: int,
    visited: Set<usize>,
    depth: int,
) -> Result<Set<usize>, Seq<char>>
    decreases 66 - depth, 0int, node.n_children - index,
{
    if index >= node.n_children || index < 0 || depth > 64 {
        Ok(visited)
    } else {
        match walked(
            graph,
            child_address(node, index),
            child_path(path, index as nat),
            visited,
            depth + 1,
        ) {
            Err(text) => Err(text),
            Ok(seen) => walked_children(graph, node, path, index + 1, seen, depth),
        }
    }
}

fn preflight(
    graph: &HashMap<usize, SchemaNode>,
    address: usize,
    path: &str,
    visited: &mut HashSet<usize>,
    depth: usize,
) -> (result: Result<(), LanceError>)
    requires
        depth <= 65,
    ensures
        match walked(graph@, address, path@, old(visited)@, depth as int) {
            Ok(seen) => result is Ok && final(visited)@ == seen,
            Err(text) => result matches Err(error) && error@ == error::invalid(text),
        },
    decreases 66 - depth,
{
    if address == 0 {
        let mut message: String = path.to_owned();
        message.append(" must not be NULL");
        return Err(LanceError::invalid_text(message));
    }
    if depth > MAX_SCHEMA_DEPTH {
        let mut message: String = path.to_owned();
        message.append(" nesting depth exceeds the supported maximum of 64");
        return Err(LanceError::invalid_text(message));
    }
    if visited.contains(&address) {
        let mut message: String = path.to_owned();
        message.append(" contains a schema pointer cycle");
        return Err(LanceError::invalid_text(message));
    }
    visited.insert(address);
    let node: &SchemaNode = match graph.get(&address) {
        Some(node) => node,
        None => {
            return Err(SchemaFault::Released.to_error(path));
        },
    };
    let child_count: usize = match inspect_schema(node) {
        Ok(count) => count,
        Err(fault) => {
            return Err(fault.to_error(path));
        },
    };
    let ghost start = visited@;
    let mut index: usize = 0;
    while index < child_count
        invariant
            index <= child_count,
            child_count == node.n_children,
            depth <= 64,
            walked_children(graph@, *node, path@, 0, start, depth as int) == walked_children(
                graph@,
                *node,
                path@,
                index as int,
                visited@,
                depth as int,
            ),
            walked(graph@, address, path@, old(visited)@, depth as int) == (match walked_children(
                graph@,
                *node,
                path@,
                0,
                start,
                depth as int,
            ) {
                Err(text) => Err(text),
                Ok(seen) => if node.dictionary == 0 {
                    Ok(seen)
                } else {
                    walked(
                        graph@,
                        node.dictionary,
                        dictionary_path(path@),
                        seen,
                        depth + 1,
                    )
                },
            }),
        decreases child_count - index,
    {
        let child: usize = if index < node.children.len() {
            node.children[index]
        } else {
            0
        };
        let mut child_place: String = path.to_owned();
        child_place.append(".children[");
        text::push_decimal(&mut child_place, index as u64);
        child_place.append("]");
        if let Err(error) = preflight(graph, child, child_place.as_str(), visited, depth + 1) {
            return Err(error);
        }
        index += 1;
    }
    if node.dictionary != 0 {
        let mut place: String = path.to_owned();
        place.append(".dictionary");
        return preflight(graph, node.dictionary, place.as_str(), visited, depth + 1);
    }
    Ok(())
}

/// What Arrow made of a schema that was walked.
pub enum SchemaImport {
    /// It describes no type, with the reason.
    InvalidType(String),
    /// It describes no field, with the reason.
    InvalidField(String),
    /// It describes a field.
    Field,
}

/// The first failure of a model's schema.
pub open spec fn model_schema_failure(
    graph: Map<usize, SchemaNode>,
    address: usize,
    name: Seq<char>,
    import: SchemaImport,
) -> Option<error::Report> {
    match walked(graph, address, name + "_schema"@, Set::empty(), 0) {
        Err(text) => Some(error::invalid(text)),
        Ok(_) => match import {
            SchemaImport::InvalidType(reason) => Some(
                error::invalid(name + "_schema is not a valid Arrow type: "@ + reason@),
            ),
            SchemaImport::InvalidField(reason) => Some(
                error::invalid(name + "_schema is not a valid Arrow field: "@ + reason@),
            ),
            SchemaImport::Field => None,
        },
    }
}

/// Checks the schema of a model. `graph` holds the schemas that are reached from
/// `address`; `import` is what Arrow makes of the schema, which counts only
/// where the walk finds nothing wrong.
pub fn validate_model_schema(
    graph: &HashMap<usize, SchemaNode>,
    address: usize,
    name: &str,
    import: &SchemaImport,
) -> (result: Result<(), LanceError>)
    ensures
        error::failure(result) == model_schema_failure(graph@, address, name@, *import),
{
    let mut visited: HashSet<usize> = HashSet::new();
    let mut path: String = name.to_owned();
    path.append("_schema");
    if let Err(error) = preflight(graph, address, path.as_str(), &mut visited, 0) {
        return Err(error);
    }
    match import {
        SchemaImport::InvalidType(reason) => {
            let mut message: String = name.to_owned();
            message.append("_schema is not a valid Arrow type: ");
            message.append(reason.as_str());
            Err(LanceError::invalid_text(message))
        },
        SchemaImport::InvalidField(reason) => {
            let mut message: String = name.to_owned();
            message.append("_schema is not a valid Arrow field: ");
            message.append(reason.as_str());
            Err(LanceError::invalid_text(message))
        },
        SchemaImport::Field => Ok(()),
    }
}

/// What a walk has seen stays seen, and the schema that it starts from is new: in
/// an accepted schema no address is reached twice.
pub proof fn law_walk_reaches_each_address_once(
    graph: Map<usize, SchemaNode>,
    address: usize,
    path: Seq<char>,
    visited: Set<usize>,
    depth: int,
)
    requires
        0 <= depth,
        walked(graph, address, path, visited, depth) is Ok,
    ensures
        !visited.contains(address),
        walked(graph, address, path, visited, depth)->Ok_0.contains(address),
        visited.subset_of(walked(graph, address, path, visited, depth)->Ok_0),
    decreases 66 - depth, 1int, 0int,
{
    let node = graph[address];
    lemma_walk_of_children(graph, node, path, 0, visited.insert(address), depth);
    let seen = walked_children(graph, node, path, 0, visited.insert(address), depth)->Ok_0;
    assert(visited.insert(address).contains(address));
    if node.dictionary != 0 {
        law_walk_reaches_each_address_once(
            graph,
            node.dictionary,
            dictionary_path(path),
            seen,
            depth + 1,
        );
    }
}

proof fn lemma_walk_of_children(
    graph: Map<usize, SchemaNode>,
    node: SchemaNode,
    path: Seq<char>,
    index: int,
    visited: Set<usize>,
    depth: int,
)
    requires
        0 <= depth,
        walked_children(graph, node, path, index, visited, depth) is Ok,
    ensures
        visited.subset_of(walked_children(graph, node, path, index, visited, depth)->Ok_0),
    decreases 66 - depth, 0int, node.n_children - index,
{
    if !(index >= node.n_children || index < 0 || depth > 64) {
        let address = child_address(node, index);
        let place = child_path(path, index as nat);
        law_walk_reaches_each_address_once(graph, address, place, visited, depth + 1);
        let seen = walked(graph, address, place, visited, depth + 1)->Ok_0;
        lemma_walk_of_children(graph, node, path, index + 1, seen, depth);
    }
}

/// Where the metadata of a model's schema records what it was trained for.
pub const MODEL_KIND_KEY: &'static str = "lance:index_model:kind";

pub const MODEL_METRIC_KEY: &'static str = "lance:index_model:metric";

pub const MODEL_DIMENSION_KEY: &'static str = "lance:index_model:dimension";

pub const IVF_MODEL_ID_KEY: &'static str = "lance:index_model:ivf_id";

pub const PQ_SUB_VECTORS_KEY: &'static str = "lance:index_model:num_sub_vectors";

pub const PQ_BITS_KEY: &'static str = "lance:index_model:num_bits";

/// What a model was trained for.
pub struct ModelProvenance {
    pub kind: String,
    pub metric: i32,
    pub dimension: usize,
    pub ivf_id: [u8; 16],
    pub num_sub_vectors: Option<u32>,
    pub num_bits: Option<u32>,
}

/// What `Uuid::parse_str` of the `uuid` crate makes of a text: sixteen octets, or
/// the text of its error.
pub uninterp spec fn uuid_from_text(text: Seq<char>) -> Result<Seq<u8>, Seq<char>>;

/// Calls `Uuid::parse_str` of the `uuid` crate, which reads an identifier in any
/// of its usual forms. The result is a function of the text; which texts are
/// accepted is not stated.
#[verifier::external_body]
fn parse_uuid(text: &str) -> (result: Result<[u8; 16], String>)
    ensures
        match result {
            Ok(uuid) => uuid_from_text(text@) == Ok::<Seq<u8>, Seq<char>>(uuid@),
            Err(reason) => uuid_from_text(text@) == Err::<Seq<u8>, Seq<char>>(reason@),
        },
{
    match uuid::Uuid::parse_str(text) {
        Ok(uuid) => Ok(uuid.into_bytes()),
        Err(error) => Err(error.to_string()),
    }
}

/// The value of a key, from entry `from` on.
pub open spec fn value_of(metadata: Seq<(String, String)>, key: Seq<char>, from: int) -> Option<
    Seq<char>,
>
    decreases metadata.len() - from,
{
    if from >= metadata.len() || from < 0 {
        None
    } else if metadata[from].0@ == key {
        Some(metadata[from].1@)
    } else {
        value_of(metadata, key, from + 1)
    }
}

fn find_value<'a>(metadata: &'a Vec<(String, String)>, key: &str) -> (value: Option<&'a String>)
    ensures
        match value {
            Some(value) => value_of(metadata@, key@, 0) == Some(value@),
            None => value_of(metadata@, key@, 0) is None,
        },
{
    let mut i: usize = 0;
    while i < metadata.len()
        invariant
            i <= metadata@.len(),
            value_of(metadata@, key@, 0) == value_of(metadata@, key@, i as int),
        decreases metadata.len() - i,
    {
        if text::same_text(metadata[i].0.as_str(), key) {
            return Some(&metadata[i].1);
        }
        i += 1;
    }
    None
}

/// What a missing key reports.
pub open spec fn missing_key(name: Seq<char>, key: Seq<char>) -> error::Report {
    error::invalid(name + "_schema metadata is missing required key '"@ + key + "'"@)
}

/// What an invalid value reports.
pub open spec fn invalid_value(name: Seq<char>, key: Seq<char>, reason: Seq<char>) -> error::Report {
    error::invalid(name + "_schema metadata '"@ + key + "' is invalid: "@ + reason)
}

/// What an invalid optional value reports.
pub open spec fn invalid_optional(
    name: Seq<char>,
    key: Seq<char>,
    value: Seq<char>,
    reason: Seq<char>,
) -> error::Report {
    error::invalid(
        name + "_schema metadata '"@ + key + "' value '"@ + value + "' is invalid: "@ + reason,
    )
}

fn required<'a>(metadata: &'a Vec<(String, String)>, name: &str, key: &str) -> (result: Result<
    &'a String,
    LanceError,
>)
    ensures
        match result {
            Ok(value) => value_of(metadata@, key@, 0) == Some(value@),
            Err(error) => value_of(metadata@, key@, 0) is None && error@ == missing_key(
                name@,
                key@,
            ),
        },
{
    match find_value(metadata, key) {
        Some(value) => Ok(value),
        None => {
            let mut message: String = name.to_owned();
            message.append("_schema metadata is missing required key '");
            message.append(key);
            message.append("'");
            Err(LanceError::invalid_text(message))
        },
    }
}

fn invalid_metadata(name: &str, key: &str, reason: &str) -> (error: LanceError)
    ensures
        error@ == invalid_value(name@, key@, reason@),
{
    let mut message: String = name.to_owned();
    message.append("_schema metadata '");
    message.append(key);
    message.append("' is invalid: ");
    message.append(reason);
    LanceError::invalid_text(message)
}

/// What an optional number reports.
pub open spec fn optional_failure(
    metadata: Seq<(String, String)>,
    name: Seq<char>,
    key: Seq<char>,
) -> Option<error::Report> {
    match value_of(metadata, key, 0) {
        None => None,
        Some(value) => match text::parsed_unsigned(value, u32::MAX as nat) {
            Ok(_) => None,
            Err(reason) => Some(invalid_optional(name, key, value, reason.text())),
        },
    }
}

/// An optional number.
pub open spec fn optional_number(metadata: Seq<(String, String)>, key: Seq<char>) -> Option<u32> {
    match value_of(metadata, key, 0) {
        None => None,
        Some(value) => match text::parsed_unsigned(value, u32::MAX as nat) {
            Ok(number) => Some(number as u32),
            Err(_) => None,
        },
    }
}

fn optional_u32(metadata: &Vec<(String, String)>, name: &str, key: &str) -> (result: Result<
    Option<u32>,
    LanceError,
>)
    ensures
        match result {
            Ok(number) => optional_failure(metadata@, name@, key@) is None && number
                == optional_number(metadata@, key@),
            Err(error) => optional_failure(metadata@, name@, key@) == Some(error@),
        },
{
    match find_value(metadata, key) {
        None => Ok(None),
        Some(value) => match text::parse_unsigned(value.as_str(), u32::MAX as u64) {
            Ok(number) => Ok(Some(number as u32)),
            Err(reason) => {
                let mut message: String = name.to_owned();
                message.append("_schema metadata '");
                message.append(key);
                message.append("' value '");
                message.append(value.as_str());
                message.append("' is invalid: ");
                message.append(reason.message());
                Err(LanceError::invalid_text(message))
            },
        },
    }
}

/// The first failure of a model's metadata. `parsed` is what the identifier reads
/// as; it counts only where there is one.
pub open spec fn provenance_failure(
    metadata: Seq<(String, String)>,
    name: Seq<char>,
    parsed: Result<Seq<u8>, Seq<char>>,
) -> Option<error::Report> {
    let metric = value_of(metadata, MODEL_METRIC_KEY@, 0);
    let dimension = value_of(metadata, MODEL_DIMENSION_KEY@, 0);
    if metric is None {
        Some(missing_key(name, MODEL_METRIC_KEY@))
    } else if text::parsed_i32(metric->0) is Err {
        Some(
            invalid_value(name, MODEL_METRIC_KEY@, text::parsed_i32(metric->0)->Err_0.text()),
        )
    } else if dimension is None {
        Some(missing_key(name, MODEL_DIMENSION_KEY@))
    } else if text::parsed_unsigned(dimension->0, usize::MAX as nat) is Err {
        Some(
            invalid_value(
                name,
                MODEL_DIMENSION_KEY@,
                text::parsed_unsigned(dimension->0, usize::MAX as nat)->Err_0.text(),
            ),
        )
    } else if value_of(metadata, IVF_MODEL_ID_KEY@, 0) is None {
        Some(missing_key(name, IVF_MODEL_ID_KEY@))
    } else if parsed is Err {
        Some(invalid_value(name, IVF_MODEL_ID_KEY@, parsed->Err_0))
    } else if value_of(metadata, MODEL_KIND_KEY@, 0) is None {
        Some(missing_key(name, MODEL_KIND_KEY@))
    } else if optional_failure(metadata, name, PQ_SUB_VECTORS_KEY@) is Some {
        optional_failure(metadata, name, PQ_SUB_VECTORS_KEY@)
    } else {
        optional_failure(metadata, name, PQ_BITS_KEY@)
    }
}

/// Whether a provenance is what the metadata records.
pub open spec fn records(
    metadata: Seq<(String, String)>,
    parsed: Result<Seq<u8>, Seq<char>>,
    provenance: ModelProvenance,
) -> bool {
    &&& value_of(metadata, MODEL_KIND_KEY@, 0) == Some(provenance.kind@)
    &&& text::parsed_i32(value_of(metadata, MODEL_METRIC_KEY@, 0)->0) == Ok::<
        int,
        text::IntegerError,
    >(provenance.metric as int)
    &&& text::parsed_unsigned(value_of(metadata, MODEL_DIMENSION_KEY@, 0)->0, usize::MAX as nat)
        == Ok::<nat, text::IntegerError>(provenance.dimension as nat)
    &&& parsed == Ok::<Seq<u8>, Seq<char>>(provenance.ivf_id@)
    &&& provenance.num_sub_vectors == optional_number(metadata, PQ_SUB_VECTORS_KEY@)
    &&& provenance.num_bits == optional_number(metadata, PQ_BITS_KEY@)
}

/// What an identifier reads as, mathematically.
pub open spec fn parsed_of(parsed: Result<[u8; 16], String>) -> Result<Seq<u8>, Seq<char>> {
    match parsed {
        Ok(uuid) => Ok(uuid@),
        Err(reason) => Err(reason@),
    }
}

/// Reads what a model was trained for out of the metadata of its schema, given
/// what its identifier reads as.
pub fn provenance_with_id(
    metadata: &Vec<(String, String)>,
    name: &str,
    parsed: Result<[u8; 16], String>,
) -> (result: Result<ModelProvenance, LanceError>)
    ensures
        match result {
            Ok(provenance) => provenance_failure(metadata@, name@, parsed_of(parsed)) is None
                && records(metadata@, parsed_of(parsed), provenance),
            Err(error) => provenance_failure(metadata@, name@, parsed_of(parsed)) == Some(error@),
        },
{
    let metric: i32 = match required(metadata, name, MODEL_METRIC_KEY) {
        Ok(value) => match text::parse_i32(value.as_str()) {
            Ok(metric) => metric,
            Err(reason) => {
                return Err(invalid_metadata(name, MODEL_METRIC_KEY, reason.message()));
            },
        },
        Err(error) => {
            return Err(error);
        },
    };
    let dimension: usize = match required(metadata, name, MODEL_DIMENSION_KEY) {
        Ok(value) => match text::parse_unsigned(value.as_str(), usize::MAX as u64) {
            Ok(dimension) => dimension as usize,
            Err(reason) => {
                return Err(invalid_metadata(name, MODEL_DIMENSION_KEY, reason.message()));
            },
        },
        Err(error) => {
            return Err(error);
        },
    };
    if let Err(error) = required(metadata, name, IVF_MODEL_ID_KEY) {
        return Err(error);
    }
    let ivf_id: [u8; 16] = match parsed {
        Ok(uuid) => uuid,
        Err(reason) => {
            return Err(invalid_metadata(name, IVF_MODEL_ID_KEY, reason.as_str()));
        },
    };
    let kind: String = match required(metadata, name, MODEL_KIND_KEY) {
        Ok(kind) => kind.clone(),
        Err(error) => {
            return Err(error);
        },
    };
    let num_sub_vectors: Option<u32> = match optional_u32(metadata, name, PQ_SUB_VECTORS_KEY) {
        Ok(number) => number,
        Err(error) => {
            return Err(error);
        },
    };
    let num_bits: Option<u32> = match optional_u32(metadata, name, PQ_BITS_KEY) {
        Ok(number) => number,
        Err(error) => {
            return Err(error);
        },
    };
    Ok(ModelProvenance { kind, metric, dimension, ivf_id, num_sub_vectors, num_bits })
}

/// Reads what a model was trained for out of the metadata of its schema.
pub fn model_provenance(metadata: &Vec<(String, String)>, name: &str) -> (result: Result<
    ModelProvenance,
    LanceError,
>)
    ensures
        ({
            let parsed = uuid_from_text(value_of(metadata@, IVF_MODEL_ID_KEY@, 0)->0);
            match result {
                Ok(provenance) => provenance_failure(metadata@, name@, parsed) is None && records(
                    metadata@,
                    parsed,
                    provenance,
                ),
                Err(error) => provenance_failure(metadata@, name@, parsed) == Some(error@),
            }
        }),
{
    let parsed: Result<[u8; 16], String> = match find_value(metadata, IVF_MODEL_ID_KEY) {
        Some(value) => parse_uuid(value.as_str()),
        None => Err(String::new()),
    };
    provenance_with_id(metadata, name, parsed)
}

/// A schema is sound if and only if it was not released, has a format, its texts are
/// UTF-8, and its children are not negative in number, can be addressed, and are there
/// unless there are none.
pub proof fn law_schema_is_sound_for_its_fields(node: SchemaNode)
    ensures
        schema_fault(node) is None <==> {
            &&& !node.released && !node.format_is_null
            &&& node.format_is_utf8 && node.name_is_utf8
            &&& node.n_children >= 0
            &&& node.n_children * (usize::BITS as int / 8) <= isize::MAX
            &&& node.n_children > 0 ==> !node.children_is_null
        },
        schema_fault(node) is Some && schema_fault(node)->0 is Released <==> node.released
            || node.format_is_null,
        schema_fault(node) matches Some(SchemaFault::NegativeChildren(count)) ==> count
            == node.n_children,
        schema_fault(node) matches Some(SchemaFault::ChildrenNull(count)) ==> count
            == node.n_children && node.children_is_null,
        schema_fault(node) matches Some(SchemaFault::TooManyChildren(count)) ==> count
            == node.n_children,
{
    let width = usize::BITS as int / 8;
    let most = isize::MAX as int / width;
    assert(width == 4 || width == 8);
    vstd::arithmetic::div_mod::lemma_fundamental_div_mod(isize::MAX as int, width);
    vstd::arithmetic::div_mod::lemma_mod_bound(isize::MAX as int, width);
    if width == 4 {
        assert(node.n_children * 4 <= isize::MAX <==> node.n_children <= most);
    } else {
        assert(node.n_children * 8 <= isize::MAX <==> node.n_children <= most);
    }
}

/// A fault says what is wrong and where.
pub proof fn law_schema_faults_say_what_is_wrong(fault: SchemaFault, path: Seq<char>, index: nat)
    ensures
        fault.text(path) == match fault {
            SchemaFault::Released => path + " is uninitialized or already released"@,
            SchemaFault::FormatNotUtf8 => path + " format string is not valid UTF-8"@,
            SchemaFault::NameNotUtf8 => path + " name string is not valid UTF-8"@,
            SchemaFault::NegativeChildren(count) => path
                + ".n_children must be non-negative, got "@ + text::signed_decimal(count as int),
            SchemaFault::TooManyChildren(count) => path + ".n_children "@ + text::decimal(
                count as nat,
            ) + " exceeds the addressable pointer slice length"@,
            SchemaFault::ChildrenNull(count) => path + ".children is NULL while n_children is "@
                + text::decimal(count as nat),
        },
        child_path(path, index) == path + ".children["@ + text::decimal(index) + "]"@,
        dictionary_path(path) == path + ".dictionary"@,
{
}

/// A schema without children and dictionary is accepted at every depth down to 64 if it
/// is sound and was not met before, and no schema is accepted below that depth, at the
/// null address, where it was met before, or where there is none.
pub proof fn law_leaf_schema_is_accepted(
    graph: Map<usize, SchemaNode>,
    address: usize,
    path: Seq<char>,
    visited: Set<usize>,
    depth: int,
)
    requires
        0 <= depth,
    ensures
        address == 0 || depth > 64 || visited.contains(address) || !graph.contains_key(address)
            ==> walked(graph, address, path, visited, depth) is Err,
        graph.contains_key(address) && schema_fault(graph[address]) is Some ==> walked(
            graph,
            address,
            path,
            visited,
            depth,
        ) is Err,
        address != 0 && depth <= 64 && !visited.contains(address) && graph.contains_key(address)
            && schema_fault(graph[address]) is None && graph[address].n_children == 0
            && graph[address].dictionary == 0 ==> walked(graph, address, path, visited, depth)
            == Ok::<Set<usize>, Seq<char>>(visited.insert(address)),
        address == 0 ==> walked(graph, address, path, visited, depth) == Err::<
            Set<usize>,
            Seq<char>,
        >(path + " must not be NULL"@),
        address != 0 && depth > 64 ==> walked(graph, address, path, visited, depth) == Err::<
            Set<usize>,
            Seq<char>,
        >(path + " nesting depth exceeds the supported maximum of 64"@),
        address != 0 && depth <= 64 && visited.contains(address) ==> walked(
            graph,
            address,
            path,
            visited,
            depth,
        ) == Err::<Set<usize>, Seq<char>>(path + " contains a schema pointer cycle"@),
{
    let node = graph[address];
    if node.n_children == 0 {
        assert(walked_children(graph, node, path, 0, visited.insert(address), depth) == Ok::<
            Set<usize>,
            Seq<char>,
        >(visited.insert(address)));
    }
}

/// A schema whose one child is a leaf, or whose dictionary is, is accepted where the
/// leaf is: one level below it, with both noted.
pub proof fn law_schema_with_one_leaf_is_accepted(
    graph: Map<usize, SchemaNode>,
    address: usize,
    leaf: usize,
    path: Seq<char>,
    visited: Set<usize>,
    depth: int,
)
    requires
        0 <= depth < 64,
        address != 0 && leaf != 0 && address != leaf,
        !visited.contains(address) && !visited.contains(leaf),
        graph.contains_key(address) && graph.contains_key(leaf),
        schema_fault(graph[address]) is None && schema_fault(graph[leaf]) is None,
        graph[leaf].n_children == 0 && graph[leaf].dictionary == 0,
    ensures
        graph[address].n_children == 1 && graph[address].children@.len() == 1
            && graph[address].children@[0] == leaf && graph[address].dictionary == 0 ==> walked(
            graph,
            address,
            path,
            visited,
            depth,
        ) == Ok::<Set<usize>, Seq<char>>(visited.insert(address).insert(leaf)),
        graph[address].n_children == 0 && graph[address].dictionary == leaf ==> walked(
            graph,
            address,
            path,
            visited,
            depth,
        ) == Ok::<Set<usize>, Seq<char>>(visited.insert(address).insert(leaf)),
{
    let node = graph[address];
    let start = visited.insert(address);
    law_leaf_schema_is_accepted(
        graph,
        leaf,
        child_path(path, 0),
        visited.insert(address),
        depth + 1,
    );
    law_leaf_schema_is_accepted(
        graph,
        leaf,
        dictionary_path(path),
        visited.insert(address),
        depth + 1,
    );
    if node.n_children == 0 {
        assert(walked_children(graph, node, path, 0, start, depth) == Ok::<Set<usize>, Seq<char>>(
            start,
        ));
    }
    if node.n_children == 1 && node.children@.len() == 1 && node.children@[0] == leaf {
        assert(walked_children(graph, node, path, 1, start.insert(leaf), depth) == Ok::<
            Set<usize>,
            Seq<char>,
        >(start.insert(leaf)));
        assert(child_address(node, 0) == leaf);
        assert(walked_children(graph, node, path, 0, start, depth) == Ok::<Set<usize>, Seq<char>>(
            start.insert(leaf),
        ));
    }
}

/// Whether a schema that was met is sound, and its children and dictionary were met
/// too.
pub open spec fn is_complete(graph: Map<usize, SchemaNode>, address: usize, met: Set<usize>) -> bool {
    &&& graph.contains_key(address)
    &&& schema_fault(graph[address]) is None
    &&& graph[address].children@.len() >= graph[address].n_children
    &&& forall|k: int|
        0 <= k < graph[address].n_children ==> #[trigger] graph[address].children@[k] != 0
            && met.contains(graph[address].children@[k])
    &&& graph[address].dictionary == 0 || met.contains(graph[address].dictionary)
}

/// A walk that succeeds misses nothing: every schema that it met is sound, and it met
/// all children and the dictionary of each.
pub proof fn law_walk_misses_nothing(
    graph: Map<usize, SchemaNode>,
    address: usize,
    path: Seq<char>,
    visited: Set<usize>,
    depth: int,
    other: usize,
)
    requires
        0 <= depth,
        walked(graph, address, path, visited, depth) is Ok,
    ensures
        ({
            let met = walked(graph, address, path, visited, depth)->Ok_0;
            &&& visited.subset_of(met)
            &&& met.contains(address)
            &&& met.contains(other) && !visited.contains(other) ==> is_complete(graph, other, met)
        }),
    decreases 66 - depth, 1int, 0int,
{
    law_walk_reaches_each_address_once(graph, address, path, visited, depth);
    let node = graph[address];
    let start = visited.insert(address);
    lemma_walk_of_children(graph, node, path, 0, start, depth);
    let seen = walked_children(graph, node, path, 0, start, depth)->Ok_0;
    let met = walked(graph, address, path, visited, depth)->Ok_0;
    lemma_children_complete(graph, node, path, 0, start, depth, other);
    if node.dictionary != 0 {
        law_walk_misses_nothing(
            graph,
            node.dictionary,
            dictionary_path(path),
            seen,
            depth + 1,
            other,
        );
    }
    assert(seen.subset_of(met));
    if other == address {
        assert forall|k: int| 0 <= k < node.n_children implies #[trigger] node.children@[k] != 0
            && met.contains(node.children@[k]) by {
            lemma_child_met(graph, node, path, 0, start, depth, k);
        }
        if node.n_children > 0 {
            lemma_child_met(graph, node, path, 0, start, depth, node.n_children - 1);
        }
        assert(is_complete(graph, other, met));
    } else if met.contains(other) && !visited.contains(other) && seen.contains(other) {
        assert(is_complete(graph, other, seen));
    }
}

proof fn lemma_child_met(
    graph: Map<usize, SchemaNode>,
    node: SchemaNode,
    path: Seq<char>,
    index: int,
    visited: Set<usize>,
    depth: int,
    k: int,
)
    requires
        0 <= depth <= 64,
        0 <= index <= k < node.n_children,
        walked_children(graph, node, path, index, visited, depth) is Ok,
    ensures
        k < node.children@.len(),
        node.children@[k] != 0,
        walked_children(graph, node, path, index, visited, depth)->Ok_0.contains(node.children@[k]),
    decreases node.n_children - index,
{
    let address = child_address(node, index);
    let place = child_path(path, index as nat);
    let seen = walked(graph, address, place, visited, depth + 1)->Ok_0;
    law_walk_reaches_each_address_once(graph, address, place, visited, depth + 1);
    lemma_walk_of_children(graph, node, path, index + 1, seen, depth);
    if index < k {
        lemma_child_met(graph, node, path, index + 1, seen, depth, k);
    }
}

proof fn lemma_children_complete(
    graph: Map<usize, SchemaNode>,
    node: SchemaNode,
    path: Seq<char>,
    index: int,
    visited: Set<usize>,
    depth: int,
    other: usize,
)
    requires
        0 <= depth,
        walked_children(graph, node, path, index, visited, depth) is Ok,
    ensures
        ({
            let met = walked_children(graph, node, path, index, visited, depth)->Ok_0;
            met.contains(other) && !visited.contains(other) ==> is_complete(graph, other, met)
        }),
    decreases 66 - depth, 0int, node.n_children - index,
{
    if !(index >= node.n_children || index < 0 || depth > 64) {
        let address = child_address(node, index);
        let place = child_path(path, index as nat);
        let seen = walked(graph, address, place, visited, depth + 1)->Ok_0;
        let met = walked_children(graph, node, path, index, visited, depth)->Ok_0;
        law_walk_misses_nothing(graph, address, place, visited, depth + 1, other);
        lemma_children_complete(graph, node, path, index + 1, seen, depth, other);
        lemma_walk_of_children(graph, node, path, index + 1, seen, depth);
        if seen.contains(other) && !visited.contains(other) {
            assert(is_complete(graph, other, seen));
            assert(is_complete(graph, other, met));
        }
    }
}

/// A model schema is accepted if and only if the walk through it succeeds and it is an
/// Arrow field.
pub proof fn law_model_schema_is_accepted_as_a_field(
    graph: Map<usize, SchemaNode>,
    address: usize,
    name: Seq<char>,
    import: SchemaImport,
)
    ensures
        ({
            let walk = walked(graph, address, name + "_schema"@, Set::empty(), 0);
            let failed = model_schema_failure(graph, address, name, import);
            &&& failed is None <==> walk is Ok && import is Field
            &&& walk is Err ==> failed == Some(error::invalid(walk->Err_0))
            &&& walk is Ok && import is InvalidType ==> failed == Some(
                error::invalid(
                    name + "_schema is not a valid Arrow type: "@ + import->InvalidType_0@,
                ),
            )
            &&& walk is Ok && import is InvalidField ==> failed == Some(
                error::invalid(
                    name + "_schema is not a valid Arrow field: "@ + import->InvalidField_0@,
                ),
            )
        }),
{
}

proof fn lemma_value_of(metadata: Seq<(String, String)>, key: Seq<char>, from: int, at: int)
    requires
        0 <= from <= at < metadata.len(),
        metadata[at].0@ == key,
        forall|k: int| from <= k < at ==> (#[trigger] metadata[k]).0@ != key,
    ensures
        value_of(metadata, key, from) == Some(metadata[at].1@),
    decreases at - from,
{
    if from < at {
        assert(metadata[from].0@ != key);
        lemma_value_of(metadata, key, from + 1, at);
    }
}

proof fn lemma_no_value(metadata: Seq<(String, String)>, key: Seq<char>, from: int)
    requires
        0 <= from <= metadata.len(),
        forall|k: int| from <= k < metadata.len() ==> (#[trigger] metadata[k]).0@ != key,
    ensures
        value_of(metadata, key, from) is None,
    decreases metadata.len() - from,
{
    if from < metadata.len() {
        lemma_no_value(metadata, key, from + 1);
    }
}

/// The value of a key is that of the first entry under the key; a key without an entry
/// has none.
pub proof fn law_first_entry_gives_the_value(
    metadata: Seq<(String, String)>,
    key: Seq<char>,
    at: int,
)
    ensures
        0 <= at < metadata.len() && metadata[at].0@ == key && (forall|k: int|
            0 <= k < at ==> (#[trigger] metadata[k]).0@ != key) ==> value_of(metadata, key, 0)
            == Some(metadata[at].1@),
        (forall|k: int| 0 <= k < metadata.len() ==> (#[trigger] metadata[k]).0@ != key)
            ==> value_of(metadata, key, 0) is None,
{
    if 0 <= at < metadata.len() && metadata[at].0@ == key && (forall|k: int|
        0 <= k < at ==> (#[trigger] metadata[k]).0@ != key) {
        lemma_value_of(metadata, key, 0, at);
    }
    if forall|k: int| 0 <= k < metadata.len() ==> (#[trigger] metadata[k]).0@ != key {
        lemma_no_value(metadata, key, 0);
    }
}

/// An optional number is refused if and only if it is there and is no 32-bit number; it
/// is the number that its text spells.
pub proof fn law_optional_numbers_are_read(
    metadata: Seq<(String, String)>,
    name: Seq<char>,
    key: Seq<char>,
)
    ensures
        ({
            let value = value_of(metadata, key, 0);
            let read = text::parsed_unsigned(value->0, 4294967295);
            &&& value is None ==> optional_failure(metadata, name, key) is None && optional_number(
                metadata,
                key,
            ) is None
            &&& value is Some && read is Ok ==> optional_failure(metadata, name, key) is None
                && optional_number(metadata, key) is Some && (read->Ok_0 <= u32::MAX
                ==> optional_number(metadata, key)->0 == read->Ok_0)
            &&& value is Some && read is Err ==> optional_failure(metadata, name, key) == Some(
                error::invalid(
                    name + "_schema metadata '"@ + key + "' value '"@ + value->0
                        + "' is invalid: "@ + read->Err_0.text(),
                ),
            )
        }),
{
}

/// Provenance is read if and only if the metadata has a kind, a metric that is a 32-bit
/// number, a dimension that memory can address, and an identifier that is one, and its
/// optional numbers are numbers where they are there.
pub proof fn law_provenance_is_read_for_its_keys(
    metadata: Seq<(String, String)>,
    name: Seq<char>,
    parsed: Result<Seq<u8>, Seq<char>>,
)
    ensures
        provenance_failure(metadata, name, parsed) is None <==> {
            let metric = value_of(metadata, "lance:index_model:metric"@, 0);
            let dimension = value_of(metadata, "lance:index_model:dimension"@, 0);
            let sub_vectors = value_of(metadata, "lance:index_model:num_sub_vectors"@, 0);
            let bits = value_of(metadata, "lance:index_model:num_bits"@, 0);
            &&& metric is Some && text::parsed_i32(metric->0) is Ok
            &&& dimension is Some && text::parsed_unsigned(dimension->0, usize::MAX as nat) is Ok
            &&& value_of(metadata, "lance:index_model:ivf_id"@, 0) is Some && parsed is Ok
            &&& value_of(metadata, "lance:index_model:kind"@, 0) is Some
            &&& sub_vectors is Some ==> text::parsed_unsigned(sub_vectors->0, 4294967295) is Ok
            &&& bits is Some ==> text::parsed_unsigned(bits->0, 4294967295) is Ok
        },
        provenance_failure(metadata, name, parsed) matches Some(report) ==> report.0
            == error::LanceErrorCode::InvalidArgument,
{
}

/// Recorded provenance is what the metadata says under each key.
pub proof fn law_provenance_records_its_keys(
    metadata: Seq<(String, String)>,
    parsed: Result<Seq<u8>, Seq<char>>,
    provenance: ModelProvenance,
)
    requires
        records(metadata, parsed, provenance),
    ensures
        value_of(metadata, "lance:index_model:kind"@, 0) == Some(provenance.kind@),
        text::parsed_i32(value_of(metadata, "lance:index_model:metric"@, 0)->0) == Ok::<
            int,
            text::IntegerError,
        >(provenance.metric as int),
        text::parsed_unsigned(
            value_of(metadata, "lance:index_model:dimension"@, 0)->0,
            usize::MAX as nat,
        ) == Ok::<nat, text::IntegerError>(provenance.dimension as nat),
        parsed is Ok && parsed->Ok_0 == provenance.ivf_id@,
        provenance.num_sub_vectors == optional_number(
            metadata,
            "lance:index_model:num_sub_vectors"@,
        ),
        provenance.num_bits == optional_number(metadata, "lance:index_model:num_bits"@),
{
}

/// A parsed identifier is its octets, or the reason why it is none.
pub proof fn law_parsed_identifier_is_its_octets(parsed: Result<[u8; 16], String>)
    ensures
        parsed is Ok ==> parsed_of(parsed) == Ok::<Seq<u8>, Seq<char>>(parsed->Ok_0@),
        parsed is Err ==> parsed_of(parsed) == Err::<Seq<u8>, Seq<char>>(parsed->Err_0@),
{
}

/// Provenance that cannot be read names the first key that is missing or wrong.
pub proof fn law_unreadable_provenance_names_its_key(
    metadata: Seq<(String, String)>,
    name: Seq<char>,
    parsed: Result<Seq<u8>, Seq<char>>,
)
    ensures
        ({
            let failed = provenance_failure(metadata, name, parsed);
            let metric = value_of(metadata, "lance:index_model:metric"@, 0);
            let dimension = value_of(metadata, "lance:index_model:dimension"@, 0);
            let id = value_of(metadata, "lance:index_model:ivf_id"@, 0);
            let has_metric = metric is Some && text::parsed_i32(metric->0) is Ok;
            let has_dimension = dimension is Some && text::parsed_unsigned(
                dimension->0,
                usize::MAX as nat,
            ) is Ok;
            &&& metric is None ==> failed == Some(
                error::invalid(
                    name + "_schema metadata is missing required key '"@
                        + "lance:index_model:metric"@ + "'"@,
                ),
            )
            &&& metric is Some && !has_metric ==> failed == Some(
                error::invalid(
                    name + "_schema metadata '"@ + "lance:index_model:metric"@ + "' is invalid: "@
                        + text::parsed_i32(metric->0)->Err_0.text(),
                ),
            )
            &&& has_metric && dimension is None ==> failed == Some(
                error::invalid(
                    name + "_schema metadata is missing required key '"@
                        + "lance:index_model:dimension"@ + "'"@,
                ),
            )
            &&& has_metric && has_dimension && id is None ==> failed == Some(
                error::invalid(
                    name + "_schema metadata is missing required key '"@
                        + "lance:index_model:ivf_id"@ + "'"@,
                ),
            )
            &&& has_metric && has_dimension && id is Some && parsed is Err ==> failed == Some(
                error::invalid(
                    name + "_schema metadata '"@ + "lance:index_model:ivf_id"@ + "' is invalid: "@
                        + parsed->Err_0,
                ),
            )
        }),
{
}

} // verus!
