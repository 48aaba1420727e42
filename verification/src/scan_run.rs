//! Running a scan: iteration, export and asynchronous completion.
//!
//! The stream itself is driven by the caller. Each call of the C interface has
//! a first half, which looks at the arguments and says whether the stream may
//! be driven, and a second half, which takes what the stream returned and says
//! what the call returns. The functions that carry the names of the C interface
//! put the halves together.

use vstd::prelude::*;
use vstd::string::StringExecFns;

use crate::error;
use crate::error::{LanceError, LanceErrorCode, LastError};
use crate::helpers::CStringArg;
use crate::scanner;
use crate::scanner::{note_panic, LanceScanner, ScannerModel};

verus! {

/// Poll status of a batch-wise iteration.
#[derive(Clone, Copy, Debug, PartialEq, Eq, Structural)]
pub enum LancePollStatus {
    /// A batch is available.
    Ready,
    /// I/O in progress; the waker will fire when ready.
    Pending,
    /// End of stream.
    Finished,
    /// An error occurred.
    Error,
}

/// What driving the stream for the next batch returned.
pub enum NextEvent<B> {
    /// The stream could not be made.
    MaterializeFailed(LanceError),
    /// A batch.
    Batch(B),
    /// The stream failed.
    StreamFailed(LanceError),
    /// The stream has ended.
    End,
    /// The stream is still being opened. Only a poll sees this.
    Opening,
    /// The stream has no batch yet. Only a poll sees this.
    Pending,
    /// A panic was caught, with its message. `stream_open` says whether the
    /// stream was open by then.
    Panicked { message: String, stream_open: bool },
}

/// What a missing argument of a call that runs a scan reports.
pub open spec fn missing(text: Seq<char>) -> error::Report {
    error::plain(LanceErrorCode::InvalidArgument, text)
}

/// The failure of the handle argument of a call that runs a scan.
pub open spec fn run_handle_failure(
    scanner: Option<ScannerModel>,
    when_null: Seq<char>,
) -> Option<error::Report> {
    if scanner is None {
        Some(missing(when_null))
    } else {
        scanner::handle_failure(scanner, when_null)
    }
}

/// The first failure among the arguments of an iteration call.
pub open spec fn iteration_failure(
    scanner: Option<ScannerModel>,
    out_is_null: bool,
) -> Option<error::Report> {
    if run_handle_failure(scanner, "scanner must not be NULL"@) is Some {
        run_handle_failure(scanner, "scanner must not be NULL"@)
    } else if out_is_null {
        Some(missing("out must not be NULL"@))
    } else {
        None
    }
}

/// The model of a shared handle argument.
pub open spec fn shared_model(scanner: Option<&LanceScanner>) -> Option<ScannerModel> {
    match scanner {
        Some(scanner) => Some(scanner@),
        None => None,
    }
}

/// Looks at the arguments of an iteration call. Says whether the stream may be
/// driven; if not, the failure is kept.
pub fn begin_iteration(
    last: &mut LastError,
    scanner: Option<&LanceScanner>,
    out_is_null: bool,
) -> (go: bool)
    ensures
        match iteration_failure(shared_model(scanner), out_is_null) {
            Some(report) => !go && final(last)@ == report,
            None => go && final(last)@ == old(last)@,
        },
{
    match scanner {
        None => {
            last.set_last_error(LanceErrorCode::InvalidArgument, "scanner must not be NULL");
            false
        },
        Some(handle) => {
            if handle.poisoned {
                last.set_last_error(
                    LanceErrorCode::Panic,
                    "scanner is poisoned by an earlier panic",
                );
                false
            } else if out_is_null {
                last.set_last_error(LanceErrorCode::InvalidArgument, "out must not be NULL");
                false
            } else {
                true
            }
        },
    }
}

/// The scanner after the stream was driven.
pub open spec fn after_driving<B>(scanner: ScannerModel, event: NextEvent<B>) -> ScannerModel {
    let started = ScannerModel { scan_started: scanner.scan_started || !scanner.stream_open, ..scanner };
    match event {
        NextEvent::MaterializeFailed(_) => started,
        NextEvent::Opening => started,
        NextEvent::Panicked { stream_open, .. } => ScannerModel {
            poisoned: true,
            stream_open: scanner.stream_open || stream_open,
            ..started
        },
        _ => ScannerModel { stream_open: true, ..started },
    }
}

/// What the last error slot holds after the stream was driven.
pub open spec fn report_of<B>(event: NextEvent<B>) -> error::Report {
    match event {
        NextEvent::MaterializeFailed(error) => error@,
        NextEvent::StreamFailed(error) => error@,
        NextEvent::Panicked { message, .. } => scanner::panic_report(message@),
        _ => error::no_error(),
    }
}

/// What the caller's slot holds after the stream was driven.
pub open spec fn batch_of<B>(event: NextEvent<B>) -> Option<B> {
    match event {
        NextEvent::Batch(batch) => Some(batch),
        _ => None,
    }
}

/// The status of a poll.
pub open spec fn poll_status<B>(event: NextEvent<B>) -> LancePollStatus {
    match event {
        NextEvent::Batch(_) => LancePollStatus::Ready,
        NextEvent::Opening => LancePollStatus::Pending,
        NextEvent::Pending => LancePollStatus::Pending,
        NextEvent::End => LancePollStatus::Finished,
        _ => LancePollStatus::Error,
    }
}

/// Ends an iteration call with what driving the stream returned.
pub fn finish_iteration<B>(
    last: &mut LastError,
    scanner: &mut LanceScanner,
    out: &mut Option<B>,
    event: NextEvent<B>,
) -> (status: LancePollStatus)
    ensures
        status == poll_status(event),
        final(last)@ == report_of(event),
        final(scanner)@ == after_driving(old(scanner)@, event),
        *final(out) == batch_of(event),
{
    if !scanner.stream_open {
        scanner.scan_started = true;
    }
    *out = None;
    match event {
        NextEvent::MaterializeFailed(error) => {
            last.set_lance_error(error);
            LancePollStatus::Error
        },
        NextEvent::Batch(batch) => {
            scanner.stream_open = true;
            last.clear_last_error();
            *out = Some(batch);
            LancePollStatus::Ready
        },
        NextEvent::StreamFailed(error) => {
            scanner.stream_open = true;
            last.set_lance_error(error);
            LancePollStatus::Error
        },
        NextEvent::End => {
            scanner.stream_open = true;
            last.clear_last_error();
            LancePollStatus::Finished
        },
        NextEvent::Opening => {
            last.clear_last_error();
            LancePollStatus::Pending
        },
        NextEvent::Pending => {
            scanner.stream_open = true;
            last.clear_last_error();
            LancePollStatus::Pending
        },
        NextEvent::Panicked { message, stream_open } => {
            if stream_open {
                scanner.stream_open = true;
            }
            note_panic(last, Some(scanner), message.as_str());
            LancePollStatus::Error
        },
    }
}

/// Reads the next batch, given what driving the stream returned: zero with a
/// batch, one at the end, minus one on failure. The slot holds a batch only
/// where the status is zero.
pub fn lance_scanner_next<B>(
    last: &mut LastError,
    scanner: Option<&mut LanceScanner>,
    out: Option<&mut Option<B>>,
    event: NextEvent<B>,
) -> (status: i32)
    requires
        !(event is Pending) && !(event is Opening),
    ensures
        match iteration_failure(scanner::model_of(scanner), out is None) {
            Some(report) => {
                &&& status == -1
                &&& final(last)@ == report
                &&& scanner matches Some(handle) ==> final(handle)@ == handle@
                &&& out matches Some(slot) ==> *final(slot) == None::<B>
            },
            None => {
                &&& status == (match poll_status(event) {
                    LancePollStatus::Ready => 0i32,
                    LancePollStatus::Finished => 1i32,
                    _ => -1i32,
                })
                &&& final(last)@ == report_of(event)
                &&& scanner matches Some(handle) ==> final(handle)@ == after_driving(
                    handle@,
                    event,
                )
                &&& out matches Some(slot) ==> *final(slot) == batch_of(event)
            },
        },
{
    match (scanner, out) {
        (Some(handle), Some(slot)) => {
            if !begin_iteration(last, Some(&*handle), false) {
                *slot = None;
                return -1;
            }
            match finish_iteration(last, handle, slot, event) {
                LancePollStatus::Ready => 0,
                LancePollStatus::Finished => 1,
                _ => -1,
            }
        },
        (Some(handle), None) => {
            begin_iteration(last, Some(&*handle), true);
            -1
        },
        (None, Some(slot)) => {
            *slot = None;
            begin_iteration(last, None, false);
            -1
        },
        (None, None) => {
            begin_iteration(last, None, true);
            -1
        },
    }
}

/// The first failure among the arguments of a poll.
pub open spec fn poll_failure(
    scanner: Option<ScannerModel>,
    out_is_null: bool,
    waker_is_null: bool,
) -> Option<error::Report> {
    if iteration_failure(scanner, out_is_null) is Some {
        iteration_failure(scanner, out_is_null)
    } else if waker_is_null {
        Some(missing("waker must not be NULL"@))
    } else {
        None
    }
}

/// Looks at the arguments of a poll. Says whether the stream may be polled; if
/// not, the failure is kept.
pub fn begin_poll(
    last: &mut LastError,
    scanner: Option<&LanceScanner>,
    out_is_null: bool,
    waker_is_null: bool,
) -> (go: bool)
    ensures
        match poll_failure(shared_model(scanner), out_is_null, waker_is_null) {
            Some(report) => !go && final(last)@ == report,
            None => go && final(last)@ == old(last)@,
        },
{
    if !begin_iteration(last, scanner, out_is_null) {
        return false;
    }
    if waker_is_null {
        last.set_last_error(LanceErrorCode::InvalidArgument, "waker must not be NULL");
        return false;
    }
    true
}

/// Polls for the next batch, given what polling the stream returned. The slot
/// holds a batch only where the status is ready.
pub fn lance_scanner_poll_next<B>(
    last: &mut LastError,
    scanner: Option<&mut LanceScanner>,
    waker_is_null: bool,
    out: Option<&mut Option<B>>,
    event: NextEvent<B>,
) -> (status: LancePollStatus)
    ensures
        match poll_failure(scanner::model_of(scanner), out is None, waker_is_null) {
            Some(report) => {
                &&& status == LancePollStatus::Error
                &&& final(last)@ == report
                &&& scanner matches Some(handle) ==> final(handle)@ == handle@
                &&& out matches Some(slot) ==> *final(slot) == None::<B>
            },
            None => {
                &&& status == poll_status(event)
                &&& final(last)@ == report_of(event)
                &&& scanner matches Some(handle) ==> final(handle)@ == after_driving(
                    handle@,
                    event,
                )
                &&& out matches Some(slot) ==> *final(slot) == batch_of(event)
            },
        },
{
    match (scanner, out) {
        (Some(handle), Some(slot)) => {
            if !begin_poll(last, Some(&*handle), false, waker_is_null) {
                *slot = None;
                return LancePollStatus::Error;
            }
            finish_iteration(last, handle, slot, event)
        },
        (Some(handle), None) => {
            begin_poll(last, Some(&*handle), true, waker_is_null);
            LancePollStatus::Error
        },
        (None, Some(slot)) => {
            *slot = None;
            begin_poll(last, None, false, waker_is_null);
            LancePollStatus::Error
        },
        (None, None) => {
            begin_poll(last, None, true, waker_is_null);
            LancePollStatus::Error
        },
    }
}

/// What making a stream for export returned.
pub enum ExportEvent<S> {
    /// The stream.
    Exported(S),
    /// The stream could not be made.
    Failed(LanceError),
    /// A panic was caught, with its message.
    Panicked(String),
}

/// The failure of an export.
pub open spec fn export_failure<S>(event: ExportEvent<S>) -> Option<error::Report> {
    match event {
        ExportEvent::Exported(_) => None,
        ExportEvent::Failed(error) => Some(error@),
        ExportEvent::Panicked(message) => Some(scanner::panic_report(message@)),
    }
}

/// Ends an export with what making the stream returned. The caller's slot is
/// written on success alone.
pub fn finish_export<S>(
    last: &mut LastError,
    scanner: &mut LanceScanner,
    out: &mut Option<S>,
    event: ExportEvent<S>,
) -> (status: i32)
    ensures
        error::reports(status, final(last)@, export_failure(event)),
        final(scanner)@ == (ScannerModel {
            scan_started: true,
            poisoned: old(scanner)@.poisoned || event is Panicked,
            ..old(scanner)@
        }),
        *final(out) == (match event {
            ExportEvent::Exported(stream) => Some(stream),
            _ => *old(out),
        }),
{
    scanner.scan_started = true;
    match event {
        ExportEvent::Exported(stream) => {
            *out = Some(stream);
            last.clear_last_error();
            0
        },
        ExportEvent::Failed(error) => {
            last.set_lance_error(error);
            -1
        },
        ExportEvent::Panicked(message) => note_panic(last, Some(scanner), message.as_str()),
    }
}

/// Exports the scan as a stream, given what making the stream returned.
pub fn lance_scanner_to_arrow_stream<S>(
    last: &mut LastError,
    scanner: Option<&mut LanceScanner>,
    out: Option<&mut Option<S>>,
    event: ExportEvent<S>,
) -> (status: i32)
    ensures
        match iteration_failure(scanner::model_of(scanner), out is None) {
            Some(report) => {
                &&& status == -1
                &&& final(last)@ == report
                &&& scanner matches Some(handle) ==> final(handle)@ == handle@
                &&& out matches Some(slot) ==> *final(slot) == *slot
            },
            None => {
                &&& error::reports(status, final(last)@, export_failure(event))
                &&& scanner matches Some(handle) ==> final(handle)@ == (ScannerModel {
                    scan_started: true,
                    poisoned: event is Panicked,
                    ..handle@
                })
                &&& out matches Some(slot) ==> *final(slot) == (match event {
                    ExportEvent::Exported(stream) => Some(stream),
                    _ => *slot,
                })
            },
        },
{
    match (scanner, out) {
        (Some(handle), Some(slot)) => {
            if !begin_iteration(last, Some(&*handle), false) {
                return -1;
            }
            finish_export(last, handle, slot, event)
        },
        (Some(handle), None) => {
            begin_iteration(last, Some(&*handle), true);
            -1
        },
        (None, out) => {
            begin_iteration(last, None, out.is_none());
            -1
        },
    }
}

/// How far the setup of an asynchronous scan had come when it panicked.
pub enum SetupStage {
    /// Its arguments were being checked; no build had begun.
    Checking,
    /// The scan was being built or handed to its task.
    Building,
    /// This failure was kept as the caller's last error, and its completion was
    /// being dispatched.
    Reporting(LanceError),
}

/// What the setup of an asynchronous scan returned.
pub enum SetupEvent {
    /// The scan was built and handed to a task.
    Built,
    /// The scan could not be built.
    Failed(LanceError),
    /// A panic was caught, with its message.
    Panicked { message: String, stage: SetupStage },
}

/// What the task of an asynchronous scan returned.
pub enum TaskEvent<S> {
    /// The stream.
    Stream(S),
    /// The stream could not be made.
    Failed(LanceError),
    /// A panic was caught, with its message.
    Panicked(String),
}

/// One call of the completion callback.
pub struct Completion<S> {
    /// Zero on success, minus one on failure.
    pub status: i32,
    /// The stream on success.
    pub result: Option<S>,
    /// The failure, which the callback's thread keeps as its last error.
    pub error: Option<LanceError>,
}

/// The failure of a completion.
pub open spec fn completion_report<S>(completion: Completion<S>) -> Option<error::Report> {
    match completion.error {
        Some(error) => Some(error@),
        None => None,
    }
}

/// A completion that reports a failure.
pub open spec fn fails_with<S>(completion: Completion<S>, report: error::Report) -> bool {
    &&& completion.status == -1
    &&& completion.result is None
    &&& completion_report(completion) == Some(report)
}

fn failed_completion<S>(error: LanceError) -> (completion: Completion<S>)
    ensures
        fails_with(completion, error@),
{
    Completion { status: -1, result: None, error: Some(error) }
}

fn copy_error(error: &LanceError) -> (copy: LanceError)
    ensures
        copy@ == error@,
{
    LanceError { code: error.code, message: error.message.clone(), wording: error.wording }
}

/// What follows the setup of an asynchronous scan.
pub enum AsyncStep<S> {
    /// The completion callback is called at once.
    Complete(Completion<S>),
    /// A task makes the stream and calls the completion callback.
    Spawn,
}

/// The failure that the setup of an asynchronous scan reports. A panic is reported
/// whatever scanner was passed.
pub open spec fn setup_failure(scanner: Option<ScannerModel>, event: SetupEvent) -> Option<
    error::Report,
> {
    match event {
        SetupEvent::Panicked { message, .. } => Some(scanner::panic_report(message@)),
        _ => if run_handle_failure(scanner, "scanner is NULL"@) is Some {
            run_handle_failure(scanner, "scanner is NULL"@)
        } else {
            match event {
                SetupEvent::Failed(error) => Some(error@),
                _ => None,
            }
        },
    }
}

/// What the caller's last error slot holds after the setup of an asynchronous
/// scan. A panic leaves in it what the setup had put there.
pub open spec fn last_after_setup(
    last: error::Report,
    scanner: Option<ScannerModel>,
    event: SetupEvent,
) -> error::Report {
    match event {
        SetupEvent::Panicked { stage: SetupStage::Reporting(error), .. } => error@,
        SetupEvent::Panicked { .. } => last,
        _ => match setup_failure(scanner, event) {
            Some(report) => report,
            None => last,
        },
    }
}

/// The scanner after the setup of an asynchronous scan. The scan has started once
/// its build has begun, and a build begins only on a scanner that is not poisoned.
pub open spec fn after_setup(scanner: ScannerModel, event: SetupEvent) -> ScannerModel {
    match event {
        SetupEvent::Panicked { stage, .. } => ScannerModel {
            poisoned: true,
            scan_started: scanner.scan_started || (!scanner.poisoned && !(stage is Checking)),
            ..scanner
        },
        _ => if scanner.poisoned {
            scanner
        } else {
            ScannerModel { scan_started: true, ..scanner }
        },
    }
}

/// Ends the setup of an asynchronous scan. A failure is reported to the
/// completion callback, and is kept as the caller's last error unless it is a
/// panic.
pub fn scan_async_setup<S>(
    last: &mut LastError,
    scanner: Option<&mut LanceScanner>,
    event: SetupEvent,
) -> (step: AsyncStep<S>)
    ensures
        match setup_failure(scanner::model_of(scanner), event) {
            Some(report) => step matches AsyncStep::Complete(completion) && fails_with(
                completion,
                report,
            ),
            None => step is Spawn,
        },
        final(last)@ == last_after_setup(old(last)@, scanner::model_of(scanner), event),
        scanner matches Some(handle) ==> final(handle)@ == after_setup(handle@, event),
{
    let failed: Option<LanceError> = match event {
        SetupEvent::Panicked { message, stage } => {
            let mut building: bool = true;
            match stage {
                SetupStage::Checking => {
                    building = false;
                },
                SetupStage::Building => {},
                SetupStage::Reporting(error) => {
                    last.set_lance_error(error);
                },
            }
            if let Some(handle) = scanner {
                if building && !handle.poisoned {
                    handle.scan_started = true;
                }
                handle.poisoned = true;
            }
            return AsyncStep::Complete(failed_completion(panic_error(message.as_str())));
        },
        SetupEvent::Failed(error) => Some(error),
        SetupEvent::Built => None,
    };
    match scanner {
        None => {
            last.set_last_error(LanceErrorCode::InvalidArgument, "scanner is NULL");
            AsyncStep::Complete(
                failed_completion(
                    LanceError::new(
                        LanceErrorCode::InvalidArgument,
                        "scanner is NULL".to_owned(),
                    ),
                ),
            )
        },
        Some(handle) => {
            if handle.poisoned {
                last.set_last_error(
                    LanceErrorCode::Panic,
                    "scanner is poisoned by an earlier panic",
                );
                return AsyncStep::Complete(
                    failed_completion(
                        LanceError::new(
                            LanceErrorCode::Panic,
                            "scanner is poisoned by an earlier panic".to_owned(),
                        ),
                    ),
                );
            }
            handle.scan_started = true;
            match failed {
                None => AsyncStep::Spawn,
                Some(error) => {
                    let copy: LanceError = copy_error(&error);
                    last.set_lance_error(error);
                    AsyncStep::Complete(failed_completion(copy))
                },
            }
        },
    }
}

fn panic_error(message: &str) -> (error: LanceError)
    ensures
        error@ == scanner::panic_report(message@),
{
    let mut text: String = "panic in FFI call: ".to_owned();
    text.append(message);
    LanceError::new(LanceErrorCode::Panic, text)
}

/// Ends the task of an asynchronous scan: what the completion callback gets. A
/// panic poisons the scanner.
pub fn finish_task<S>(scanner: &mut LanceScanner, event: TaskEvent<S>) -> (completion: Completion<
    S,
>)
    ensures
        match event {
            TaskEvent::Stream(stream) => completion.status == 0 && completion.result == Some(stream)
                && completion.error is None,
            TaskEvent::Failed(error) => fails_with(completion, error@),
            TaskEvent::Panicked(message) => fails_with(
                completion,
                scanner::panic_report(message@),
            ),
        },
        final(scanner)@ == (ScannerModel {
            poisoned: old(scanner)@.poisoned || event is Panicked,
            ..old(scanner)@
        }),
{
    match event {
        TaskEvent::Stream(stream) => Completion { status: 0, result: Some(stream), error: None },
        TaskEvent::Failed(error) => failed_completion(error),
        TaskEvent::Panicked(message) => {
            scanner.poisoned = true;
            failed_completion(panic_error(message.as_str()))
        },
    }
}

/// Runs an asynchronous scan, given what its setup and its task returned. The
/// completion callback is called exactly once, whatever happened; without a
/// callback nothing is done but to keep the failure.
pub fn lance_scanner_scan_async<S>(
    last: &mut LastError,
    scanner: Option<&mut LanceScanner>,
    callback_is_null: bool,
    setup: SetupEvent,
    task: TaskEvent<S>,
) -> (completions: Vec<Completion<S>>)
    ensures
        completions@.len() == (if callback_is_null {
            0int
        } else {
            1int
        }),
        callback_is_null ==> final(last)@ == missing("callback must not be NULL"@) && (
        scanner matches Some(handle) ==> final(handle)@ == handle@),
        !callback_is_null ==> match setup_failure(scanner::model_of(scanner), setup) {
            Some(report) => fails_with(completions@[0], report),
            None => match task {
                TaskEvent::Stream(stream) => completions@[0].status == 0 && completions@[0].result
                    == Some(stream) && completions@[0].error is None,
                TaskEvent::Failed(error) => fails_with(completions@[0], error@),
                TaskEvent::Panicked(message) => fails_with(
                    completions@[0],
                    scanner::panic_report(message@),
                ),
            },
        },
        !callback_is_null ==> final(last)@ == last_after_setup(
            old(last)@,
            scanner::model_of(scanner),
            setup,
        ),
        !callback_is_null ==> (scanner matches Some(handle) ==> final(handle)@ == (
        if setup_failure(Some(handle@), setup) is None && task is Panicked {
            ScannerModel { poisoned: true, ..after_setup(handle@, setup) }
        } else {
            after_setup(handle@, setup)
        })),
{
    let mut completions: Vec<Completion<S>> = Vec::new();
    if callback_is_null {
        last.set_last_error(LanceErrorCode::InvalidArgument, "callback must not be NULL");
        return completions;
    }
    match scanner {
        None => {
            match scan_async_setup(last, None, setup) {
                AsyncStep::Complete(completion) => {
                    completions.push(completion);
                },
                AsyncStep::Spawn => {},
            }
        },
        Some(handle) => {
            match scan_async_setup(last, Some(&mut *handle), setup) {
                AsyncStep::Complete(completion) => {
                    completions.push(completion);
                },
                AsyncStep::Spawn => {
                    completions.push(finish_task(handle, task));
                },
            }
        },
    }
    completions
}

/// A poisoned scanner refuses every call with the same report, whatever the other
/// arguments are, and stays poisoned. The setup of an asynchronous scan that panics
/// reports its own panic.
pub proof fn law_poisoned_scanner_refuses_every_call(
    model: ScannerModel,
    when_null: Seq<char>,
    flag: bool,
    other: bool,
    len: usize,
    bytes: Option<Seq<u8>>,
    argument: CStringArg,
    number: i32,
    k: u32,
    columns: Result<Option<Vec<String>>, LanceError>,
    accepted: Result<(), LanceError>,
    context: Result<scanner::FtsContext, LanceError>,
    segments: Result<Vec<[u8; 16]>, LanceError>,
    event: SetupEvent,
)
    requires
        model.poisoned,
    ensures
        ({
            let handle = Some(model);
            let refused = Some(scanner::poison_report());
            &&& scanner::handle_failure(handle, when_null) == refused
            &&& scanner::fragment_ids_failure(handle, flag, len) == refused
            &&& scanner::substrait_failure(handle, bytes) == refused
            &&& scanner::additional_filter_failure(handle, argument) == refused
            &&& scanner::statistics_failure(handle, flag) == refused
            &&& scanner::metric_failure(handle, number) == refused
            &&& scanner::index_segments_failure(handle, flag, len) == refused
            &&& scanner::nearest_failure(handle, argument, flag, number, k) == refused
            &&& scanner::fts_failure(handle, argument, columns, accepted) == refused
            &&& scanner::fts_context_failure(handle, context, accepted) == refused
            &&& scanner::fts_segments_failure(handle, segments, len) == refused
            &&& iteration_failure(handle, flag) == refused
            &&& poll_failure(handle, flag, other) == refused
            &&& !(event is Panicked) ==> setup_failure(handle, event) == refused
            &&& after_setup(model, event) == model
        }),
{
}

/// Once a scan has started, no filter can be added and no statistics callback
/// registered.
pub proof fn law_started_scan_is_fixed(
    model: ScannerModel,
    filter: CStringArg,
    callback_is_null: bool,
)
    requires
        model.scan_started,
    ensures
        scanner::additional_filter_failure(Some(model), filter) is Some,
        scanner::statistics_failure(Some(model), callback_is_null) is Some,
{
}

/// What was driven, exported or started stays started, and a poisoned scanner
/// stays poisoned.
pub proof fn law_scan_never_unstarts<B>(
    model: ScannerModel,
    event: NextEvent<B>,
    setup: SetupEvent,
)
    ensures
        model.scan_started ==> after_setup(model, setup).scan_started,
        model.poisoned ==> after_setup(model, setup).poisoned,
        setup is Panicked ==> after_setup(model, setup).poisoned,
        !model.poisoned && setup is Built ==> after_setup(model, setup).scan_started,
        model.stream_open ==> after_driving(model, event).stream_open,
        model.scan_started ==> after_driving(model, event).scan_started,
        model.poisoned ==> after_driving(model, event).poisoned,
        !model.stream_open ==> after_driving(model, event).scan_started,
        event is Panicked ==> after_driving(model, event).poisoned,
{
}

/// A scan can be driven if and only if the scanner is there and can be used, there is
/// where to put the result and, for a poll, a waker. What is missing is reported in
/// plain words as an invalid argument.
pub proof fn law_scan_is_driven_for_its_arguments(
    model: Option<ScannerModel>,
    out_is_null: bool,
    waker_is_null: bool,
    words: Seq<char>,
    handle: Option<&LanceScanner>,
)
    ensures
        run_handle_failure(model, words) is None <==> model is Some && !model->0.poisoned,
        iteration_failure(model, out_is_null) is None <==> model is Some && !model->0.poisoned
            && !out_is_null,
        poll_failure(model, out_is_null, waker_is_null) is None <==> model is Some
            && !model->0.poisoned && !out_is_null && !waker_is_null,
        missing(words) == (LanceErrorCode::InvalidArgument, words, error::Wording::Plain),
        model is None ==> run_handle_failure(model, words) == Some(
            (LanceErrorCode::InvalidArgument, words, error::Wording::Plain),
        ),
        model is None ==> iteration_failure(model, out_is_null) == Some(
            (
                LanceErrorCode::InvalidArgument,
                "scanner must not be NULL"@,
                error::Wording::Plain,
            ),
        ),
        model is Some && !model->0.poisoned && out_is_null ==> iteration_failure(model, out_is_null)
            == Some(
            (LanceErrorCode::InvalidArgument, "out must not be NULL"@, error::Wording::Plain),
        ),
        model is Some && !model->0.poisoned && !out_is_null && waker_is_null ==> poll_failure(
            model,
            out_is_null,
            waker_is_null,
        ) == Some(
            (LanceErrorCode::InvalidArgument, "waker must not be NULL"@, error::Wording::Plain),
        ),
        handle is None ==> shared_model(handle) is None,
        handle is Some ==> shared_model(handle) == Some(handle->0@),
{
}

/// A call that drives the stream hands out a batch if and only if the stream gave one.
/// It is ready with a batch, finished at the end, pending while the stream opens or
/// waits, and in error otherwise: then, and only then, it reports the failure.
pub proof fn law_event_decides_the_answer<B>(event: NextEvent<B>)
    ensures
        batch_of(event) is Some <==> event is Batch,
        event is Batch ==> batch_of(event) == Some(event->Batch_0),
        poll_status(event) == LancePollStatus::Ready <==> event is Batch,
        poll_status(event) == LancePollStatus::Finished <==> event is End,
        poll_status(event) == LancePollStatus::Pending <==> event is Opening || event is Pending,
        poll_status(event) == LancePollStatus::Error <==> event is MaterializeFailed
            || event is StreamFailed || event is Panicked,
        poll_status(event) != LancePollStatus::Error ==> report_of(event).0
            == LanceErrorCode::Success && report_of(event).1.len() == 0,
        event is MaterializeFailed ==> report_of(event) == event->MaterializeFailed_0@,
        event is StreamFailed ==> report_of(event) == event->StreamFailed_0@,
        event is Panicked ==> report_of(event) == (
            LanceErrorCode::Panic,
            "panic in FFI call: "@ + event->message@,
            error::Wording::Plain,
        ),
{
}

/// Driving a stream opens it unless it could not be made or is still opening, starts
/// the scan where no stream was open, poisons the scanner if and only if it panicked,
/// and changes nothing else.
pub proof fn law_driving_changes_only_the_run<B>(model: ScannerModel, event: NextEvent<B>)
    ensures
        ({
            let after = after_driving(model, event);
            &&& after.scan_started <==> model.scan_started || !model.stream_open
            &&& after.poisoned <==> model.poisoned || event is Panicked
            &&& event is Batch || event is StreamFailed || event is End || event is Pending
                ==> after.stream_open
            &&& event is MaterializeFailed || event is Opening ==> after.stream_open
                == model.stream_open
            &&& event is Panicked ==> after.stream_open == (model.stream_open
                || event->stream_open)
            &&& after == (ScannerModel {
                scan_started: after.scan_started,
                poisoned: after.poisoned,
                stream_open: after.stream_open,
                ..model
            })
        }),
{
}

/// An export fails if and only if no stream was exported, with the failure's own
/// report.
pub proof fn law_export_reports_its_failure<S>(event: ExportEvent<S>)
    ensures
        export_failure(event) is None <==> event is Exported,
        event is Failed ==> export_failure(event) == Some(event->Failed_0@),
        event is Panicked ==> export_failure(event) == Some(
            (
                LanceErrorCode::Panic,
                "panic in FFI call: "@ + event->Panicked_0@,
                error::Wording::Plain,
            ),
        ),
{
}

/// A completion that fails has the status of a failure, no result, and the report as
/// its error.
pub proof fn law_failed_completion_carries_its_error<S>(
    completion: Completion<S>,
    report: error::Report,
)
    ensures
        fails_with(completion, report) <==> completion.status == -1 && completion.result is None
            && completion.error is Some && completion.error->0@ == report,
        completion.error is None ==> completion_report(completion) is None,
        completion.error is Some ==> completion_report(completion) == Some(completion.error->0@),
{
}

/// The set-up of an asynchronous scan succeeds if and only if the scanner is there and
/// can be used, and the stream could be built. A panic is reported as one, whatever
/// else is wrong, and reaches the caller's last error only with the failure that was
/// being reported when it came.
pub proof fn law_setup_reports_once(
    last: error::Report,
    model: Option<ScannerModel>,
    event: SetupEvent,
)
    ensures
        setup_failure(model, event) is None <==> model is Some && !model->0.poisoned
            && event is Built,
        event is Panicked ==> setup_failure(model, event) == Some(
            (
                LanceErrorCode::Panic,
                "panic in FFI call: "@ + event->message@,
                error::Wording::Plain,
            ),
        ),
        model is Some && !model->0.poisoned && event is Failed ==> setup_failure(model, event)
            == Some(event->Failed_0@),
        model is None && !(event is Panicked) ==> setup_failure(model, event) == Some(
            (LanceErrorCode::InvalidArgument, "scanner is NULL"@, error::Wording::Plain),
        ),
        event is Panicked && event->stage is Reporting ==> last_after_setup(last, model, event)
            == event->stage->Reporting_0@,
        event is Panicked && !(event->stage is Reporting) ==> last_after_setup(last, model, event)
            == last,
        !(event is Panicked) && setup_failure(model, event) is Some ==> last_after_setup(
            last,
            model,
            event,
        ) == setup_failure(model, event)->0,
        setup_failure(model, event) is None ==> last_after_setup(last, model, event) == last,
{
}

/// The set-up of an asynchronous scan starts the scan of a usable scanner, except where
/// it panicked before it began to build the stream; a panic poisons the scanner; and
/// nothing else changes.
pub proof fn law_setup_changes_only_the_run(model: ScannerModel, event: SetupEvent)
    ensures
        ({
            let after = after_setup(model, event);
            &&& after.poisoned <==> model.poisoned || event is Panicked
            &&& after.scan_started <==> model.scan_started || (!model.poisoned && !(
            event is Panicked && event->stage is Checking))
            &&& after == (ScannerModel {
                scan_started: after.scan_started,
                poisoned: after.poisoned,
                ..model
            })
        }),
{
}

} // verus!
