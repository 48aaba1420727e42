//! Arguments as they arrive from C.

use vstd::prelude::*;

use crate::error;
use crate::error::LanceError;

verus! {

/// A C string argument: a pointer to text, or NULL.
pub enum CStringArg {
    /// The pointer is NULL.
    Null,
    /// The octets are no UTF-8 text.
    Malformed,
    /// The text.
    Text(String),
}

/// What a malformed C string reports.
pub open spec fn malformed_text() -> error::Report {
    error::invalid("C string is not valid UTF-8"@)
}

impl CStringArg {
    /// The text of an argument that is not NULL and well formed.
    pub open spec fn text(self) -> Option<Seq<char>> {
        match self {
            CStringArg::Text(text) => Some(text@),
            _ => None,
        }
    }

    /// The failure of an argument that must be a text: malformed octets, or NULL
    /// with the given report.
    pub open spec fn required(self, when_null: Seq<char>) -> Option<error::Report> {
        match self {
            CStringArg::Null => Some(error::invalid(when_null)),
            CStringArg::Malformed => Some(malformed_text()),
            CStringArg::Text(_) => None,
        }
    }

    /// The failure of an argument that must be a text that is not empty:
    /// malformed octets, or NULL or no character with the given report.
    pub open spec fn nonempty(self, when_absent: Seq<char>) -> Option<error::Report> {
        match self {
            CStringArg::Null => Some(error::invalid(when_absent)),
            CStringArg::Malformed => Some(malformed_text()),
            CStringArg::Text(text) => if text@.len() == 0 {
                Some(error::invalid(when_absent))
            } else {
                None
            },
        }
    }

    /// The failure of an argument that may be NULL: malformed octets.
    pub open spec fn optional(self) -> Option<error::Report> {
        match self {
            CStringArg::Malformed => Some(malformed_text()),
            _ => None,
        }
    }
}

/// An optional text, mathematically.
pub open spec fn text_of(text: Option<String>) -> Option<Seq<char>> {
    match text {
        Some(text) => Some(text@),
        None => None,
    }
}

/// Reads an optional C string: `None` for NULL.
pub fn parse_c_string(arg: &CStringArg) -> (result: Result<Option<&str>, LanceError>)
    ensures
        match result {
            Ok(Some(text)) => arg.text() == Some(text@),
            Ok(None) => *arg is Null,
            Err(error) => *arg is Malformed && error@ == malformed_text(),
        },
{
    match arg {
        CStringArg::Null => Ok(None),
        CStringArg::Malformed => Err(LanceError::invalid("C string is not valid UTF-8")),
        CStringArg::Text(text) => Ok(Some(text.as_str())),
    }
}

/// Reads a C string that must not be NULL.
pub fn require_c_string<'a>(arg: &'a CStringArg, when_null: &str) -> (result: Result<
    &'a str,
    LanceError,
>)
    ensures
        match result {
            Ok(text) => arg.text() == Some(text@),
            Err(error) => arg.required(when_null@) == Some(error@),
        },
{
    match parse_c_string(arg) {
        Ok(Some(text)) => Ok(text),
        Ok(None) => Err(LanceError::invalid(when_null)),
        Err(error) => Err(error),
    }
}

/// Reads a C string that must be a text that is not empty.
pub fn nonempty_c_string(arg: &CStringArg, when_absent: &str) -> (result: Result<
    String,
    LanceError,
>)
    ensures
        match result {
            Ok(text) => arg.text() == Some(text@) && arg.nonempty(when_absent@) is None,
            Err(error) => arg.nonempty(when_absent@) == Some(error@),
        },
{
    match parse_c_string(arg) {
        Ok(Some(text)) => {
            if text.is_empty() {
                Err(LanceError::invalid(when_absent))
            } else {
                Ok(text.to_owned())
            }
        },
        Ok(None) => Err(LanceError::invalid(when_absent)),
        Err(error) => Err(error),
    }
}

/// Reads a C string that may be NULL.
pub fn optional_c_string(arg: &CStringArg) -> (result: Result<Option<String>, LanceError>)
    ensures
        match result {
            Ok(text) => text_of(text) == arg.text() && arg.optional() is None,
            Err(error) => arg.optional() == Some(error@),
        },
{
    match parse_c_string(arg) {
        Ok(Some(text)) => Ok(Some(text.to_owned())),
        Ok(None) => Ok(None),
        Err(error) => Err(error),
    }
}

/// A C string is refused for what it is: where it must be given, the null pointer and
/// a malformed string are refused; where it must not be empty, the empty string too;
/// where it may be missing, only a malformed one. The null pointer and the empty
/// string are refused in the caller's words.
pub proof fn law_c_strings_are_refused_for_what_they_are(arg: CStringArg, words: Seq<char>)
    ensures
        arg.text() is Some <==> arg is Text,
        arg matches CStringArg::Text(text) ==> arg.text() == Some(text@),
        arg.required(words) is None <==> arg is Text,
        arg.nonempty(words) is None <==> (arg matches CStringArg::Text(text) && text@.len() > 0),
        arg.optional() is None <==> !(arg is Malformed),
        arg is Null ==> arg.required(words) == Some(error::invalid(words)) && arg.nonempty(words)
            == Some(error::invalid(words)),
        arg is Malformed ==> {
            let report = error::invalid("C string is not valid UTF-8"@);
            arg.required(words) == Some(report) && arg.nonempty(words) == Some(report)
                && arg.optional() == Some(report)
        },
        (arg matches CStringArg::Text(text) && text@.len() == 0) ==> arg.nonempty(words) == Some(
            error::invalid(words),
        ),
{
}

/// An optional string has a text if and only if it is there, and the text is its own.
pub proof fn law_optional_text_is_the_string(text: Option<String>)
    ensures
        text is None ==> text_of(text) is None,
        text matches Some(string) ==> text_of(text) == Some(string@),
{
}

} // verus!
