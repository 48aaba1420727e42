//! Errors of the C interface and the per-thread slot that keeps the last one.
//!
//! A rejected call fails with an error of Lance, and C reads that error as Lance
//! displays it: the bare message between words of its kind and the place in the
//! source where the error was made. Other failures are reported in their own words.

use vstd::prelude::*;
use vstd::string::StringExecFns;

use crate::text;

verus! {

/// The code under which the C interface reports an outcome.
#[derive(Clone, Copy, Debug, PartialEq, Eq, Structural)]
pub enum LanceErrorCode {
    /// The last call succeeded.
    Success,
    /// An argument was rejected.
    InvalidArgument,
    /// Reading or writing failed.
    IoError,
    /// The dataset or version does not exist.
    NotFound,
    /// A dataset already stands at the target.
    DatasetAlreadyExists,
    /// An index is missing or cannot be used.
    IndexError,
    /// An internal invariant was broken.
    Internal,
    /// The operation is not supported.
    NotSupported,
    /// A concurrent commit won.
    CommitConflict,
    /// A panic was caught at the boundary of the interface.
    Panic,
}

/// In which words a failure is reported.
#[derive(Clone, Copy, Debug, PartialEq, Eq, Structural)]
pub enum Wording {
    /// In its own words.
    Plain,
    /// As an error of Lance on invalid input.
    InvalidInput,
    /// As an error of Lance on reading or writing.
    Io,
    /// As an error of Lance on something that is not supported.
    NotSupported,
    /// As an internal error of Lance.
    Internal,
    /// As an error of Lance on an index that is missing.
    IndexNotFound,
}

/// What a failure reports: its code, its bare message, and the words around it.
pub type Report = (LanceErrorCode, Seq<char>, Wording);

/// The words before the message of an error of Lance.
pub open spec fn opening(wording: Wording) -> Seq<char> {
    match wording {
        Wording::Plain => ""@,
        Wording::InvalidInput => "Invalid user input: "@,
        Wording::Io => "LanceError(IO): "@,
        Wording::NotSupported => "Not supported: "@,
        Wording::Internal =>
            "Encountered internal error. Please file a bug report at https://github.com/lance-format/lance/issues. "@,
        Wording::IndexNotFound => "Lance index not found: "@,
    }
}

/// Whether a text is what C reads of a report. Behind the message of an error of
/// Lance stands the place where it was made, which is left open.
pub open spec fn shows(report: Report, shown: Seq<char>) -> bool {
    if report.2 == Wording::Plain {
        shown == report.1
    } else {
        text::has_prefix(shown, opening(report.2) + report.1 + ", "@)
    }
}

/// Displays what `lance_core::Error::invalid_input` makes of a message. The text
/// starts with the words of the kind, the message and a comma; the place in the
/// source that follows is left open.
#[verifier::external_body]
fn display_invalid_input(message: &str) -> (shown: String)
    ensures
        text::has_prefix(shown@, opening(Wording::InvalidInput) + message@ + ", "@),
{
    lance_core::Error::invalid_input(message).to_string()
}

/// Displays what `lance_core::Error::io` makes of a message. The text starts with
/// the words of the kind, the message and a comma; the place in the source that
/// follows is left open.
#[verifier::external_body]
fn display_io(message: &str) -> (shown: String)
    ensures
        text::has_prefix(shown@, opening(Wording::Io) + message@ + ", "@),
{
    lance_core::Error::io(message).to_string()
}

/// Displays what `lance_core::Error::not_supported` makes of a message. The text
/// starts with the words of the kind, the message and a comma; the place in the
/// source that follows is left open.
#[verifier::external_body]
fn display_not_supported(message: &str) -> (shown: String)
    ensures
        text::has_prefix(shown@, opening(Wording::NotSupported) + message@ + ", "@),
{
    lance_core::Error::not_supported(message).to_string()
}

/// Displays what `lance_core::Error::internal` makes of a message. The text starts
/// with the words of the kind, the message and a comma; the place in the source
/// that follows is left open.
#[verifier::external_body]
fn display_internal(message: &str) -> (shown: String)
    ensures
        text::has_prefix(shown@, opening(Wording::Internal) + message@ + ", "@),
{
    lance_core::Error::internal(message).to_string()
}

/// Displays what `lance_core::Error::index_not_found` makes of a message. The text
/// starts with the words of the kind, the message and a comma; the place in the
/// source that follows is left open.
#[verifier::external_body]
fn display_index_not_found(message: &str) -> (shown: String)
    ensures
        text::has_prefix(shown@, opening(Wording::IndexNotFound) + message@ + ", "@),
{
    lance_core::Error::index_not_found(message).to_string()
}

fn worded(message: &str, wording: Wording) -> (shown: String)
    ensures
        forall|code: LanceErrorCode| #[trigger] shows((code, message@, wording), shown@),
{
    match wording {
        Wording::Plain => message.to_owned(),
        Wording::InvalidInput => display_invalid_input(message),
        Wording::Io => display_io(message),
        Wording::NotSupported => display_not_supported(message),
        Wording::Internal => display_internal(message),
        Wording::IndexNotFound => display_index_not_found(message),
    }
}

/// A failure.
#[derive(Debug)]
pub struct LanceError {
    /// The code.
    pub code: LanceErrorCode,
    /// The bare message.
    pub message: String,
    /// The words around the message.
    pub wording: Wording,
}

impl View for LanceError {
    type V = Report;

    open spec fn view(&self) -> Report {
        (self.code, self.message@, self.wording)
    }
}

/// What a failure reports in its own words.
pub open spec fn plain(code: LanceErrorCode, text: Seq<char>) -> Report {
    (code, text, Wording::Plain)
}

/// What a rejected argument reports.
pub open spec fn invalid(text: Seq<char>) -> Report {
    (LanceErrorCode::InvalidArgument, text, Wording::InvalidInput)
}

/// What a failure of reading or writing reports.
pub open spec fn io(text: Seq<char>) -> Report {
    (LanceErrorCode::IoError, text, Wording::Io)
}

/// What an unsupported operation reports.
pub open spec fn not_supported(text: Seq<char>) -> Report {
    (LanceErrorCode::NotSupported, text, Wording::NotSupported)
}

/// What a broken invariant reports.
pub open spec fn internal(text: Seq<char>) -> Report {
    (LanceErrorCode::Internal, text, Wording::Internal)
}

/// What a missing index reports.
pub open spec fn index_not_found(text: Seq<char>) -> Report {
    (LanceErrorCode::IndexError, text, Wording::IndexNotFound)
}

/// What the last error slot holds after a success.
pub open spec fn no_error() -> Report {
    plain(LanceErrorCode::Success, Seq::empty())
}

impl LanceError {
    /// A failure that is reported in its own words.
    pub fn new(code: LanceErrorCode, message: String) -> (error: LanceError)
        ensures
            error@ == plain(code, message@),
    {
        LanceError { code, message, wording: Wording::Plain }
    }

    /// A rejected argument.
    pub fn invalid(text: &str) -> (error: LanceError)
        ensures
            error@ == invalid(text@),
    {
        LanceError::invalid_text(text.to_owned())
    }

    /// A rejected argument.
    pub fn invalid_text(message: String) -> (error: LanceError)
        ensures
            error@ == invalid(message@),
    {
        LanceError {
            code: LanceErrorCode::InvalidArgument,
            message,
            wording: Wording::InvalidInput,
        }
    }

    /// A failure of reading or writing.
    pub fn io(message: String) -> (error: LanceError)
        ensures
            error@ == io(message@),
    {
        LanceError { code: LanceErrorCode::IoError, message, wording: Wording::Io }
    }

    /// An unsupported operation.
    pub fn not_supported(message: String) -> (error: LanceError)
        ensures
            error@ == not_supported(message@),
    {
        LanceError { code: LanceErrorCode::NotSupported, message, wording: Wording::NotSupported }
    }

    /// A broken invariant.
    pub fn internal(message: String) -> (error: LanceError)
        ensures
            error@ == internal(message@),
    {
        LanceError { code: LanceErrorCode::Internal, message, wording: Wording::Internal }
    }

    /// A missing index.
    pub fn index_not_found(message: String) -> (error: LanceError)
        ensures
            error@ == index_not_found(message@),
    {
        LanceError { code: LanceErrorCode::IndexError, message, wording: Wording::IndexNotFound }
    }

    /// The text that C reads of this failure.
    pub fn text(&self) -> (shown: String)
        ensures
            shows(self@, shown@),
    {
        let shown: String = worded(self.message.as_str(), self.wording);
        assert(shows((self.code, self.message@, self.wording), shown@));
        shown
    }
}

/// The last error of a thread, as the C interface shows it.
pub struct LastError {
    code: LanceErrorCode,
    message: String,
    wording: Wording,
}

impl View for LastError {
    type V = Report;

    closed spec fn view(&self) -> Report {
        (self.code, self.message@, self.wording)
    }
}

impl LastError {
    /// The slot of a thread that has made no call yet.
    pub fn new() -> (last: LastError)
        ensures
            last@ == no_error(),
    {
        LastError {
            code: LanceErrorCode::Success,
            message: String::new(),
            wording: Wording::Plain,
        }
    }

    /// The code of the last error.
    pub fn code(&self) -> (code: LanceErrorCode)
        ensures
            code == self@.0,
    {
        self.code
    }

    /// The text that C reads of the last error.
    pub fn message(&self) -> (message: String)
        ensures
            shows(self@, message@),
    {
        let message: String = worded(self.message.as_str(), self.wording);
        assert(shows((self.code, self.message@, self.wording), message@));
        message
    }

    /// Hands out the text that C reads of the last error and forgets the error; `None` where
    /// there is none.
    pub fn take_message(&mut self) -> (message: Option<String>)
        ensures
            match message {
                Some(text) => old(self)@.0 != LanceErrorCode::Success && shows(old(self)@, text@)
                    && final(self)@ == no_error(),
                None => old(self)@.0 == LanceErrorCode::Success && final(self)@ == old(self)@,
            },
    {
        match self.code {
            LanceErrorCode::Success => None,
            _ => {
                let message: String = self.message();
                self.clear_last_error();
                Some(message)
            },
        }
    }

    /// Forgets the last error.
    pub fn clear_last_error(&mut self)
        ensures
            final(self)@ == no_error(),
    {
        self.code = LanceErrorCode::Success;
        self.message = String::new();
        self.wording = Wording::Plain;
    }

    /// Keeps an error that is reported in its own words.
    pub fn set_last_error(&mut self, code: LanceErrorCode, message: &str)
        ensures
            final(self)@ == plain(code, message@),
    {
        self.code = code;
        self.message = message.to_owned();
        self.wording = Wording::Plain;
    }

    /// Keeps a failure.
    pub fn set_lance_error(&mut self, error: LanceError)
        ensures
            final(self)@ == error@,
    {
        self.code = error.code;
        self.message = error.message;
        self.wording = error.wording;
    }
}

/// The failure of an outcome, as specifications state it: `None` for success.
pub open spec fn failure<T>(outcome: Result<T, LanceError>) -> Option<Report> {
    match outcome {
        Ok(_) => None,
        Err(error) => Some(error@),
    }
}

/// What a C function returns and leaves in the last error slot: zero and no
/// error on success, minus one and the failure otherwise.
pub open spec fn reports(status: i32, last: Report, failed: Option<Report>) -> bool {
    match failed {
        None => status == 0 && last == no_error(),
        Some(report) => status == -1 && last == report,
    }
}

/// Turns an outcome into the status of a C function and notes a failure.
pub fn ffi_try(last: &mut LastError, outcome: Result<(), LanceError>) -> (status: i32)
    ensures
        reports(status, final(last)@, failure(outcome)),
{
    match outcome {
        Ok(_) => {
            last.clear_last_error();
            0
        },
        Err(error) => {
            last.set_lance_error(error);
            -1
        },
    }
}

/// An error keeps its text and tells its kind by its code and by the words it is
/// shown in.
pub proof fn law_every_kind_of_error_has_its_code(code: LanceErrorCode, text: Seq<char>)
    ensures
        plain(code, text).0 == code && plain(code, text).1 == text && plain(code, text).2
            == Wording::Plain,
        invalid(text).0 == LanceErrorCode::InvalidArgument && invalid(text).1 == text && invalid(
            text,
        ).2 == Wording::InvalidInput,
        io(text).0 == LanceErrorCode::IoError && io(text).1 == text && io(text).2 == Wording::Io,
        not_supported(text).0 == LanceErrorCode::NotSupported && not_supported(text).1 == text
            && not_supported(text).2 == Wording::NotSupported,
        internal(text).0 == LanceErrorCode::Internal && internal(text).1 == text && internal(
            text,
        ).2 == Wording::Internal,
        index_not_found(text).0 == LanceErrorCode::IndexError && index_not_found(text).1 == text
            && index_not_found(text).2 == Wording::IndexNotFound,
        no_error().0 == LanceErrorCode::Success && no_error().1.len() == 0 && no_error().2
            == Wording::Plain,
{
}

/// An error shows its code, its text and its wording; an outcome has a report if and
/// only if it failed, and that report is its error's.
pub proof fn law_outcome_reports_its_own_error<T>(outcome: Result<T, LanceError>)
    ensures
        failure(outcome) is None <==> outcome is Ok,
        outcome is Err ==> failure(outcome) == Some(
            (
                outcome->Err_0.code,
                outcome->Err_0.message@,
                outcome->Err_0.wording,
            ),
        ),
{
}

/// A call returns zero and leaves no error if it succeeds; else it returns minus one
/// and leaves its error.
pub proof fn law_status_tells_success(status: i32, last: Report, report: Report)
    ensures
        reports(status, last, None) <==> status == 0 && last.0 == LanceErrorCode::Success
            && last.1 =~= Seq::empty() && last.2 == Wording::Plain,
        reports(status, last, Some(report)) <==> status == -1 && last == report,
{
}

/// What C reads of a plain report is its text, and of any other report a line that
/// opens with the words of its kind and the text.
pub proof fn law_shown_text_opens_with_its_kind(report: Report, shown: Seq<char>)
    requires
        shows(report, shown),
    ensures
        report.2 == Wording::Plain ==> shown == report.1,
        report.2 != Wording::Plain ==> {
            let words = match report.2 {
                Wording::Plain => Seq::empty(),
                Wording::InvalidInput => "Invalid user input: "@,
                Wording::Io => "LanceError(IO): "@,
                Wording::NotSupported => "Not supported: "@,
                Wording::Internal =>
                    "Encountered internal error. Please file a bug report at https://github.com/lance-format/lance/issues. "@,
                Wording::IndexNotFound => "Lance index not found: "@,
            };
            &&& shown.len() >= words.len() + report.1.len()
            &&& shown.take(words.len() as int) == words
            &&& shown.subrange(words.len() as int, (words.len() + report.1.len()) as int)
                == report.1
        },
{
    if report.2 != Wording::Plain {
        let words = opening(report.2);
        let line = words + report.1 + ", "@;
        assert(shown.take(line.len() as int) =~= line);
        assert(shown.take(words.len() as int) =~= line.take(words.len() as int));
        assert(line.take(words.len() as int) =~= words);
        assert(shown.subrange(words.len() as int, (words.len() + report.1.len()) as int)
            =~= line.subrange(words.len() as int, (words.len() + report.1.len()) as int));
        assert(line.subrange(words.len() as int, (words.len() + report.1.len()) as int)
            =~= report.1);
    }
}

} // verus!
