//! Foreign Arrow arrays that hold models.

use vstd::prelude::*;
use vstd::string::StringExecFns;

use crate::error;
use crate::error::LanceError;
use crate::text;

verus! {

/// One foreign Arrow array, without its children.
#[derive(Clone, Copy, Debug, PartialEq, Eq, Structural)]
pub struct ArrayHeader {
    /// It has no release callback: it is uninitialized or released.
    pub released: bool,
    pub length: i64,
    pub null_count: i64,
    pub offset: i64,
    pub n_buffers: i64,
    pub n_children: i64,
    pub buffers_is_null: bool,
    /// The first buffer is NULL.
    pub validity_is_null: bool,
    /// The second buffer is NULL.
    pub values_is_null: bool,
    pub children_is_null: bool,
    pub dictionary_is_null: bool,
}

/// The type of a model's schema; `text` shows it in messages.
pub enum ModelType {
    FixedSizeList { list_size: i32, child_is_float32: bool, text: String },
    Other { text: String },
}

/// What is wrong with the numbers of an array.
pub open spec fn common_failure(array: ArrayHeader, path: Seq<char>) -> Option<error::Report> {
    if array.length < 0 || array.offset < 0 {
        Some(
            error::invalid(
                path + " length and offset must be non-negative; length="@ + text::signed_decimal(
                    array.length as int,
                ) + ", offset="@ + text::signed_decimal(array.offset as int),
            ),
        )
    } else if array.null_count < -1 || array.null_count > array.length {
        Some(
            error::invalid(
                path + ".null_count "@ + text::signed_decimal(array.null_count as int)
                    + " is invalid for length "@ + text::signed_decimal(array.length as int),
            ),
        )
    } else if array.n_buffers < 0 || array.n_children < 0 {
        Some(
            error::invalid(
                path + ".n_buffers and n_children must be non-negative; n_buffers="@
                    + text::signed_decimal(array.n_buffers as int) + ", n_children="@
                    + text::signed_decimal(array.n_children as int),
            ),
        )
    } else {
        None
    }
}

fn validate_common(array: &ArrayHeader, path: &str) -> (result: Result<(), LanceError>)
    ensures
        error::failure(result) == common_failure(*array, path@),
{
    let mut message: String = path.to_owned();
    if array.length < 0 || array.offset < 0 {
        message.append(" length and offset must be non-negative; length=");
        text::push_signed(&mut message, array.length);
        message.append(", offset=");
        text::push_signed(&mut message, array.offset);
        return Err(LanceError::invalid_text(message));
    }
    if array.null_count < -1 || array.null_count > array.length {
        message.append(".null_count ");
        text::push_signed(&mut message, array.null_count);
        message.append(" is invalid for length ");
        text::push_signed(&mut message, array.length);
        return Err(LanceError::invalid_text(message));
    }
    if array.n_buffers < 0 || array.n_children < 0 {
        message.append(".n_buffers and n_children must be non-negative; n_buffers=");
        text::push_signed(&mut message, array.n_buffers);
        message.append(", n_children=");
        text::push_signed(&mut message, array.n_children);
        return Err(LanceError::invalid_text(message));
    }
    Ok(())
}

/// What is wrong with the type of a model.
pub open spec fn type_failure(name: Seq<char>, model: ModelType) -> Option<error::Report> {
    match model {
        ModelType::Other { text } => Some(
            error::invalid(name + "_schema must describe FixedSizeList, got "@ + text@),
        ),
        ModelType::FixedSizeList { list_size, child_is_float32, text } => if list_size <= 0
            || !child_is_float32 {
            Some(
                error::invalid(
                    name
                        + "_schema must describe FixedSizeList<Float32> with positive list_size, got "@
                        + text@,
                ),
            )
        } else {
            None
        },
    }
}

fn check_type(name: &str, model: &ModelType) -> (result: Result<usize, LanceError>)
    ensures
        match result {
            Ok(list_size) => type_failure(name@, *model) is None && (
            *model matches ModelType::FixedSizeList { list_size: size, .. } && size == list_size
                && size > 0),
            Err(error) => type_failure(name@, *model) == Some(error@),
        },
{
    match model {
        ModelType::Other { text } => {
            let mut message: String = name.to_owned();
            message.append("_schema must describe FixedSizeList, got ");
            message.append(text.as_str());
            Err(LanceError::invalid_text(message))
        },
        ModelType::FixedSizeList { list_size, child_is_float32, text } => {
            if *list_size <= 0 || !*child_is_float32 {
                let mut message: String = name.to_owned();
                message.append(
                    "_schema must describe FixedSizeList<Float32> with positive list_size, got ",
                );
                message.append(text.as_str());
                return Err(LanceError::invalid_text(message));
            }
            Ok(*list_size as usize)
        },
    }
}

/// What is wrong with the list array of a model.
pub open spec fn list_failure(name: Seq<char>, array: ArrayHeader) -> Option<error::Report> {
    if array.released {
        Some(error::invalid(name + " is uninitialized or already released"@))
    } else if common_failure(array, name) is Some {
        common_failure(array, name)
    } else if array.n_buffers != 1 || array.buffers_is_null {
        Some(
            error::invalid(
                name
                    + " FixedSizeList must have one buffer and a non-NULL buffers pointer; n_buffers="@
                    + text::signed_decimal(array.n_buffers as int),
            ),
        )
    } else if array.n_children != 1 || array.children_is_null {
        Some(
            error::invalid(
                name
                    + " FixedSizeList must have one child and a non-NULL children pointer; n_children="@
                    + text::signed_decimal(array.n_children as int),
            ),
        )
    } else if !array.dictionary_is_null {
        Some(error::invalid(name + " FixedSizeList dictionary must be NULL"@))
    } else if array.null_count > 0 && array.validity_is_null {
        Some(
            error::invalid(
                name + " has null_count "@ + text::signed_decimal(array.null_count as int)
                    + " but no validity buffer"@,
            ),
        )
    } else {
        None
    }
}

/// Checks the list array of a model. Its child may be looked at afterwards.
pub fn check_list(name: &str, array: &ArrayHeader) -> (result: Result<(), LanceError>)
    ensures
        error::failure(result) == list_failure(name@, *array),
{
    let mut message: String = name.to_owned();
    if array.released {
        message.append(" is uninitialized or already released");
        return Err(LanceError::invalid_text(message));
    }
    if let Err(error) = validate_common(array, name) {
        return Err(error);
    }
    if array.n_buffers != 1 || array.buffers_is_null {
        message.append(
            " FixedSizeList must have one buffer and a non-NULL buffers pointer; n_buffers=",
        );
        text::push_signed(&mut message, array.n_buffers);
        return Err(LanceError::invalid_text(message));
    }
    if array.n_children != 1 || array.children_is_null {
        message.append(
            " FixedSizeList must have one child and a non-NULL children pointer; n_children=",
        );
        text::push_signed(&mut message, array.n_children);
        return Err(LanceError::invalid_text(message));
    }
    if !array.dictionary_is_null {
        message.append(" FixedSizeList dictionary must be NULL");
        return Err(LanceError::invalid_text(message));
    }
    if array.null_count > 0 && array.validity_is_null {
        message.append(" has null_count ");
        text::push_signed(&mut message, array.null_count);
        message.append(" but no validity buffer");
        return Err(LanceError::invalid_text(message));
    }
    Ok(())
}

/// The place of the child of a list array.
pub open spec fn child_of(name: Seq<char>) -> Seq<char> {
    name + ".children[0]"@
}

/// What is wrong with the value array of a model.
pub open spec fn values_failure(name: Seq<char>, child: Option<ArrayHeader>) -> Option<
    error::Report,
> {
    let path = child_of(name);
    match child {
        None => Some(error::invalid(path + " is NULL"@)),
        Some(child) => if child.released {
            Some(error::invalid(path + " is uninitialized or already released"@))
        } else if common_failure(child, path) is Some {
            common_failure(child, path)
        } else if child.n_buffers != 2 || child.buffers_is_null {
            Some(
                error::invalid(
                    path
                        + " Float32 must have two buffers and a non-NULL buffers pointer; n_buffers="@
                        + text::signed_decimal(child.n_buffers as int),
                ),
            )
        } else if child.n_children != 0 || !child.dictionary_is_null {
            Some(error::invalid(path + " must have no children or dictionary"@))
        } else if child.null_count > 0 && child.validity_is_null {
            Some(
                error::invalid(
                    path + " has null_count "@ + text::signed_decimal(child.null_count as int)
                        + " but no validity buffer"@,
                ),
            )
        } else if child.length > 0 && child.values_is_null {
            Some(
                error::invalid(
                    path + " has length "@ + text::signed_decimal(child.length as int)
                        + " but a NULL values buffer"@,
                ),
            )
        } else {
            None
        },
    }
}

fn check_values(name: &str, child: &Option<ArrayHeader>) -> (result: Result<(), LanceError>)
    ensures
        error::failure(result) == values_failure(name@, *child),
{
    let mut path: String = name.to_owned();
    path.append(".children[0]");
    let mut message: String = path.clone();
    let child: &ArrayHeader = match child {
        Some(child) => child,
        None => {
            message.append(" is NULL");
            return Err(LanceError::invalid_text(message));
        },
    };
    if child.released {
        message.append(" is uninitialized or already released");
        return Err(LanceError::invalid_text(message));
    }
    if let Err(error) = validate_common(child, path.as_str()) {
        return Err(error);
    }
    if child.n_buffers != 2 || child.buffers_is_null {
        message.append(
            " Float32 must have two buffers and a non-NULL buffers pointer; n_buffers=",
        );
        text::push_signed(&mut message, child.n_buffers);
        return Err(LanceError::invalid_text(message));
    }
    if child.n_children != 0 || !child.dictionary_is_null {
        message.append(" must have no children or dictionary");
        return Err(LanceError::invalid_text(message));
    }
    if child.null_count > 0 && child.validity_is_null {
        message.append(" has null_count ");
        text::push_signed(&mut message, child.null_count);
        message.append(" but no validity buffer");
        return Err(LanceError::invalid_text(message));
    }
    if child.length > 0 && child.values_is_null {
        message.append(" has length ");
        text::push_signed(&mut message, child.length);
        message.append(" but a NULL values buffer");
        return Err(LanceError::invalid_text(message));
    }
    Ok(())
}

/// What is wrong with the extent of the value array: it must hold every element
/// of the lists, counted from its start.
pub open spec fn extent_failure(
    name: Seq<char>,
    array: ArrayHeader,
    child: ArrayHeader,
    list_size: int,
) -> Option<error::Report> {
    let required = (array.offset + array.length) * list_size;
    if array.offset > usize::MAX {
        Some(error::invalid(name + ".offset does not fit usize"@))
    } else if array.length > usize::MAX {
        Some(error::invalid(name + ".length does not fit usize"@))
    } else if array.offset + array.length > usize::MAX || required > usize::MAX {
        Some(error::invalid(name + " (offset + length) * list_size overflows usize"@))
    } else if child.offset > usize::MAX {
        Some(error::invalid(child_of(name) + ".offset does not fit usize"@))
    } else if child.length > usize::MAX {
        Some(error::invalid(child_of(name) + ".length does not fit usize"@))
    } else if (if child.offset + child.length > usize::MAX {
        0
    } else {
        child.offset + child.length
    }) < required {
        Some(
            error::invalid(
                child_of(name) + " does not cover the parent range: child offset="@
                    + text::signed_decimal(child.offset as int) + ", length="@
                    + text::signed_decimal(child.length as int) + ", required elements="@
                    + text::decimal(required as nat),
            ),
        )
    } else {
        None
    }
}

fn check_extent(name: &str, array: &ArrayHeader, child: &ArrayHeader, list_size: usize) -> (result:
    Result<(), LanceError>)
    requires
        array.offset >= 0,
        array.length >= 0,
        child.offset >= 0,
        child.length >= 0,
    ensures
        error::failure(result) == extent_failure(name@, *array, *child, list_size as int),
{
    let mut message: String = name.to_owned();
    if array.offset as u64 > usize::MAX as u64 {
        message.append(".offset does not fit usize");
        return Err(LanceError::invalid_text(message));
    }
    if array.length as u64 > usize::MAX as u64 {
        message.append(".length does not fit usize");
        return Err(LanceError::invalid_text(message));
    }
    let parent_offset: usize = array.offset as usize;
    let parent_len: usize = array.length as usize;
    let required: Option<usize> = match parent_offset.checked_add(parent_len) {
        Some(sum) => sum.checked_mul(list_size),
        None => None,
    };
    let required_child_len: usize = match required {
        Some(required) => required,
        None => {
            message.append(" (offset + length) * list_size overflows usize");
            return Err(LanceError::invalid_text(message));
        },
    };
    message.append(".children[0]");
    if child.offset as u64 > usize::MAX as u64 {
        message.append(".offset does not fit usize");
        return Err(LanceError::invalid_text(message));
    }
    if child.length as u64 > usize::MAX as u64 {
        message.append(".length does not fit usize");
        return Err(LanceError::invalid_text(message));
    }
    let child_offset: usize = child.offset as usize;
    let child_len: usize = child.length as usize;
    let available: usize = match child_offset.checked_add(child_len) {
        Some(sum) => sum,
        None => 0,
    };
    if available < required_child_len {
        message.append(" does not cover the parent range: child offset=");
        text::push_signed(&mut message, child.offset);
        message.append(", length=");
        text::push_signed(&mut message, child.length);
        message.append(", required elements=");
        text::push_decimal(&mut message, required_child_len as u64);
        return Err(LanceError::invalid_text(message));
    }
    Ok(())
}

/// The first failure of a model array. `schema` is the checked type of its
/// schema, or the failure of the schema.
pub open spec fn model_array_failure(
    name: Seq<char>,
    array: Option<ArrayHeader>,
    child: Option<ArrayHeader>,
    schema: Result<ModelType, LanceError>,
) -> Option<error::Report> {
    match array {
        None => Some(error::invalid(name + " must not be NULL"@)),
        Some(array) => match schema {
            Err(error) => Some(error@),
            Ok(model) => if type_failure(name, model) is Some {
                type_failure(name, model)
            } else if list_failure(name, array) is Some {
                list_failure(name, array)
            } else if values_failure(name, child) is Some {
                values_failure(name, child)
            } else {
                match model {
                    ModelType::FixedSizeList { list_size, .. } => extent_failure(
                        name,
                        array,
                        child->0,
                        list_size as int,
                    ),
                    ModelType::Other { .. } => None,
                }
            },
        },
    }
}

/// Checks a model array before it is taken over from foreign memory: nothing
/// that the import would read lies outside what the array declares.
pub fn borrow_model_array(
    name: &str,
    array: &Option<ArrayHeader>,
    child: &Option<ArrayHeader>,
    schema: Result<ModelType, LanceError>,
) -> (result: Result<(), LanceError>)
    ensures
        error::failure(result) == model_array_failure(name@, *array, *child, schema),
{
    let array: &ArrayHeader = match array {
        Some(array) => array,
        None => {
            let mut message: String = name.to_owned();
            message.append(" must not be NULL");
            return Err(LanceError::invalid_text(message));
        },
    };
    let model: ModelType = match schema {
        Ok(model) => model,
        Err(error) => {
            return Err(error);
        },
    };
    let list_size: usize = match check_type(name, &model) {
        Ok(list_size) => list_size,
        Err(error) => {
            return Err(error);
        },
    };
    if let Err(error) = check_list(name, array) {
        return Err(error);
    }
    if let Err(error) = check_values(name, child) {
        return Err(error);
    }
    match child {
        Some(child) => check_extent(name, array, child, list_size),
        None => Ok(()),
    }
}

/// An accepted model array has one list per element and a value array that holds
/// every element of every list.
pub proof fn law_accepted_model_is_covered(
    name: Seq<char>,
    array: ArrayHeader,
    child: Option<ArrayHeader>,
    list_size: i32,
    shown: String,
)
    requires
        model_array_failure(
            name,
            Some(array),
            child,
            Ok(ModelType::FixedSizeList { list_size, child_is_float32: true, text: shown }),
        ) is None,
    ensures
        list_size > 0,
        child is Some,
        0 <= (array.offset + array.length) * list_size <= child->0.offset + child->0.length,
        child->0.length > 0 ==> !child->0.values_is_null,
        array.null_count > 0 ==> !array.validity_is_null,
{
    assert(0 <= (array.offset + array.length) * list_size) by (nonlinear_arith)
        requires
            array.offset >= 0,
            array.length >= 0,
            list_size > 0,
    ;
}

/// A model array after its import.
pub struct ModelArray {
    /// It is a fixed-size list array.
    pub is_list: bool,
    /// Its type, for messages.
    pub type_text: String,
    pub null_count: usize,
    pub value_length: i32,
    pub offset: usize,
    pub len: usize,
}

/// What is wrong with an imported model.
pub open spec fn window_failure(name: Seq<char>, model: ModelArray) -> Option<error::Report> {
    if !model.is_list {
        Some(error::invalid(name + " must be FixedSizeList<Float32>, got "@ + model.type_text@))
    } else if model.null_count != 0 {
        Some(
            error::invalid(
                name + " must not contain NULL lists; null_count is "@ + text::decimal(
                    model.null_count as nat,
                ),
            ),
        )
    } else if model.value_length < 0 {
        Some(
            error::invalid(
                name + " has invalid negative list_size "@ + text::signed_decimal(
                    model.value_length as int,
                ),
            ),
        )
    } else if model.offset * model.value_length > usize::MAX {
        Some(
            error::invalid(
                name + " offset "@ + text::decimal(model.offset as nat) + " * list_size "@
                    + text::decimal(model.value_length as nat) + " overflows usize"@,
            ),
        )
    } else if model.len * model.value_length > usize::MAX {
        Some(
            error::invalid(
                name + " length "@ + text::decimal(model.len as nat) + " * list_size "@
                    + text::decimal(model.value_length as nat) + " overflows usize"@,
            ),
        )
    } else {
        None
    }
}

/// Where the values of an imported model lie in its value array: offset and
/// length.
pub fn fixed_size_list_model(name: &str, model: &ModelArray) -> (result: Result<
    (usize, usize),
    LanceError,
>)
    ensures
        match result {
            Ok(window) => window_failure(name@, *model) is None && window.0 == model.offset
                * model.value_length && window.1 == model.len * model.value_length,
            Err(error) => window_failure(name@, *model) == Some(error@),
        },
{
    let mut message: String = name.to_owned();
    if !model.is_list {
        message.append(" must be FixedSizeList<Float32>, got ");
        message.append(model.type_text.as_str());
        return Err(LanceError::invalid_text(message));
    }
    if model.null_count != 0 {
        message.append(" must not contain NULL lists; null_count is ");
        text::push_decimal(&mut message, model.null_count as u64);
        return Err(LanceError::invalid_text(message));
    }
    if model.value_length < 0 {
        message.append(" has invalid negative list_size ");
        text::push_signed(&mut message, model.value_length as i64);
        return Err(LanceError::invalid_text(message));
    }
    let list_size: usize = model.value_length as usize;
    let values_offset: usize = match model.offset.checked_mul(list_size) {
        Some(offset) => offset,
        None => {
            message.append(" offset ");
            text::push_decimal(&mut message, model.offset as u64);
            message.append(" * list_size ");
            text::push_decimal(&mut message, list_size as u64);
            message.append(" overflows usize");
            return Err(LanceError::invalid_text(message));
        },
    };
    let values_len: usize = match model.len.checked_mul(list_size) {
        Some(len) => len,
        None => {
            message.append(" length ");
            text::push_decimal(&mut message, model.len as u64);
            message.append(" * list_size ");
            text::push_decimal(&mut message, list_size as u64);
            message.append(" overflows usize");
            return Err(LanceError::invalid_text(message));
        },
    };
    Ok((values_offset, values_len))
}

/// Checks the values of an imported model, of which `null_count` are NULL.
pub fn check_model_values(name: &str, null_count: usize) -> (result: Result<(), LanceError>)
    ensures
        error::failure(result) == (if null_count == 0 {
            None
        } else {
            Some(
                error::invalid(
                    name@ + " values must not contain NULLs; null_count is "@ + text::decimal(
                        null_count as nat,
                    ),
                ),
            )
        }),
{
    if null_count != 0 {
        let mut message: String = name.to_owned();
        message.append(" values must not contain NULLs; null_count is ");
        text::push_decimal(&mut message, null_count as u64);
        return Err(LanceError::invalid_text(message));
    }
    Ok(())
}

/// A model array is accepted if and only if it and its schema are there; the schema
/// describes lists of 32-bit floats of a positive size; the array is a list with one
/// buffer, one child and no dictionary; the child is a flat array with two buffers;
/// neither was released, has a negative length or offset, or claims nulls that no
/// validity buffer shows; and the child covers all lists of the array, within what
/// memory can address.
pub proof fn law_model_array_is_accepted_for_its_shape(
    name: Seq<char>,
    array: Option<ArrayHeader>,
    child: Option<ArrayHeader>,
    schema: Result<ModelType, LanceError>,
)
    ensures
        model_array_failure(name, array, child, schema) is None <==> {
            let list = array->0;
            let values = child->0;
            &&& array is Some && child is Some && schema is Ok
            &&& schema->Ok_0 is FixedSizeList && schema->Ok_0->list_size > 0
                && schema->Ok_0->child_is_float32
            &&& !list.released && list.length >= 0 && list.offset >= 0
            &&& -1 <= list.null_count <= list.length
            &&& list.n_buffers == 1 && !list.buffers_is_null
            &&& list.n_children == 1 && !list.children_is_null && list.dictionary_is_null
            &&& list.null_count > 0 ==> !list.validity_is_null
            &&& !values.released && values.length >= 0 && values.offset >= 0
            &&& -1 <= values.null_count <= values.length
            &&& values.n_buffers == 2 && !values.buffers_is_null
            &&& values.n_children == 0 && values.dictionary_is_null
            &&& values.null_count > 0 ==> !values.validity_is_null
            &&& values.length > 0 ==> !values.values_is_null
            &&& list.offset + list.length <= usize::MAX
            &&& (list.offset + list.length) * schema->Ok_0->list_size <= usize::MAX
            &&& values.offset <= usize::MAX && values.length <= usize::MAX
            &&& (list.offset + list.length) * schema->Ok_0->list_size <= values.offset
                + values.length
            &&& values.offset + values.length > usize::MAX ==> list.offset + list.length == 0
        },
        array is None ==> model_array_failure(name, array, child, schema) == Some(
            error::invalid(name + " must not be NULL"@),
        ),
        array is Some && schema is Err ==> model_array_failure(name, array, child, schema) == Some(
            schema->Err_0@,
        ),
{
    if array is Some && schema is Ok && schema->Ok_0 is FixedSizeList {
        let count = array->0.offset + array->0.length;
        let size = schema->Ok_0->list_size as int;
        if count >= 0 && size > 0 {
            assert(0 <= count * size && (count * size == 0 <==> count == 0)) by (nonlinear_arith)
                requires
                    count >= 0,
                    size > 0,
            ;
        }
    }
}

/// A rejected model array is an invalid argument, unless its schema failed on its own.
pub proof fn law_rejected_model_array_is_an_invalid_argument(
    name: Seq<char>,
    array: Option<ArrayHeader>,
    child: Option<ArrayHeader>,
    schema: Result<ModelType, LanceError>,
)
    requires
        schema is Ok,
    ensures
        model_array_failure(name, array, child, schema) matches Some(report) ==> report.0
            == error::LanceErrorCode::InvalidArgument,
{
}

/// The values of a model are found if and only if it is a list without null lists, of a
/// size that is not negative, and memory can address where its values start and how
/// many they are.
pub proof fn law_model_window_is_found_for_its_shape(name: Seq<char>, model: ModelArray)
    ensures
        window_failure(name, model) is None <==> {
            &&& model.is_list
            &&& model.null_count == 0
            &&& model.value_length >= 0
            &&& model.offset * model.value_length <= usize::MAX
            &&& model.len * model.value_length <= usize::MAX
        },
        !model.is_list ==> window_failure(name, model) == Some(
            error::invalid(name + " must be FixedSizeList<Float32>, got "@ + model.type_text@),
        ),
        model.is_list && model.null_count > 0 ==> window_failure(name, model) == Some(
            error::invalid(
                name + " must not contain NULL lists; null_count is "@ + text::decimal(
                    model.null_count as nat,
                ),
            ),
        ),
{
}

} // verus!
