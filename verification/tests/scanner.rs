//! Scanner handles: setters, poisoning, iteration and asynchronous completion.

use lance_c::error::{LanceError, LanceErrorCode, LastError};
use lance_c::helpers::CStringArg;
use lance_c::index::LanceMetricType;
use lance_c::scan_run::{
    lance_scanner_next, lance_scanner_poll_next, lance_scanner_scan_async,
    lance_scanner_to_arrow_stream, ExportEvent, LancePollStatus, NextEvent, SetupEvent, SetupStage,
    TaskEvent,
};
use lance_c::scanner::{
    lance_scanner_additional_sql_filter, lance_scanner_full_text_search, lance_scanner_nearest,
    lance_scanner_set_batch_size, lance_scanner_set_ef, lance_scanner_set_fragment_ids,
    lance_scanner_set_fts_index_segments, lance_scanner_set_fts_query_context,
    lance_scanner_set_index_segments, lance_scanner_set_limit, lance_scanner_set_metric,
    lance_scanner_set_nprobes, lance_scanner_set_offset, lance_scanner_set_prefilter,
    lance_scanner_set_refine_factor, lance_scanner_set_statistics_callback,
    lance_scanner_set_substrait_filter, lance_scanner_set_use_index, lance_scanner_with_row_id,
    note_panic, scanner_new_inner, split_uuids, FtsContext, LanceDataType, LanceScanner,
};
use lance_c::wakers::{CWakerState, PollWakerRegistry};

fn text(value: &str) -> CStringArg {
    CStringArg::Text(value.to_owned())
}

fn open_scanner() -> LanceScanner {
    scanner_new_inner(false, Ok(None), &CStringArg::Null).ok().unwrap()
}

fn poison(scanner: &mut LanceScanner) {
    scanner.poison();
}

/// Asserts that the pending error is the poison error, and takes it.
fn assert_poison_error_pending(last: &mut LastError) {
    assert_eq!(last.code(), LanceErrorCode::Panic);
    let message = last.take_message().unwrap();
    assert!(message.contains("poisoned by an earlier panic"), "unexpected message: {message}");
    assert_eq!(last.code(), LanceErrorCode::Success);
}

fn assert_invalid(last: &mut LastError, expected: &str) {
    assert_eq!(last.code(), LanceErrorCode::InvalidArgument);
    let message = last.take_message().unwrap();
    assert!(message.starts_with(&format!("Invalid user input: {expected}, ")), "got: {message}");
}

fn assert_missing(last: &mut LastError, expected: &str) {
    assert_eq!(last.code(), LanceErrorCode::InvalidArgument);
    assert_eq!(last.take_message().unwrap(), expected);
}

fn failure(message: &str) -> LanceError {
    LanceError::new(LanceErrorCode::IoError, message.to_owned())
}

#[test]
fn null_async_callback_is_rejected_without_poisoning_scanner() {
    let mut last = LastError::new();
    let mut scanner = open_scanner();
    let completions = lance_scanner_scan_async::<()>(
        &mut last,
        Some(&mut scanner),
        true,
        SetupEvent::Built,
        TaskEvent::Stream(()),
    );
    assert!(completions.is_empty());
    assert_eq!(last.code(), LanceErrorCode::InvalidArgument);
    let message = last.take_message().unwrap();
    assert!(message.contains("callback must not be NULL"), "got: {message}");
    assert!(!scanner.is_poisoned());
}

#[test]
fn null_poll_waker_is_rejected_and_clears_out() {
    let mut last = LastError::new();
    let mut scanner = open_scanner();
    let mut batch = Some(7);
    let status = lance_scanner_poll_next(
        &mut last,
        Some(&mut scanner),
        true,
        Some(&mut batch),
        NextEvent::Batch(8),
    );
    assert_eq!(status, LancePollStatus::Error);
    assert!(batch.is_none());
    assert_eq!(last.code(), LanceErrorCode::InvalidArgument);
    assert!(!scanner.is_poisoned());
}

#[test]
fn the_first_wake_before_a_cancel_enters() {
    let mut state = CWakerState::default();
    assert!(state.wake_once());
    assert!(!state.wake_once());
    let mut cancelled = CWakerState::default();
    cancelled.cancel();
    assert!(!cancelled.wake_once());
}

#[test]
fn raw_waker_clones_share_one_shot_gate() {
    let mut wakes = 0;
    let mut state = CWakerState::default();
    for _clone in 0..2 {
        if state.wake_once() {
            wakes += 1;
            state.callback_returned();
        }
    }
    assert_eq!(wakes, 1);
}

#[test]
fn scanner_close_cancels_a_retained_poll_waker() {
    let mut states = vec![CWakerState::default()];
    let mut registry: PollWakerRegistry<usize> = PollWakerRegistry::new();
    assert!(!registry.register(0, &vec![]));
    for index in registry.retire() {
        states[index].cancel();
    }
    let mut calls = 0;
    if states[0].wake_once() {
        calls += 1;
    }
    assert_eq!(calls, 0, "a retained waker invoked its callback after scanner close");
}

#[test]
fn scanner_close_waits_for_an_active_poll_waker() {
    let mut states = vec![CWakerState::default()];
    let mut registry: PollWakerRegistry<usize> = PollWakerRegistry::new();
    registry.register(0, &vec![]);
    let mut calls = 0;
    if states[0].wake_once() {
        calls += 1;
    }
    for index in registry.retire() {
        states[index].cancel();
    }
    assert!(!states[0].is_quiescent(), "scanner close must wait for the callback");
    states[0].callback_returned();
    assert!(states[0].is_quiescent());
    assert_eq!(calls, 1);
}

#[test]
fn wakers_registered_after_close_are_cancelled() {
    let mut registry: PollWakerRegistry<u8> = PollWakerRegistry::new();
    assert!(!registry.register(1, &vec![]));
    assert!(!registry.register(2, &vec![true]));
    assert!(!registry.register(3, &vec![false, true]));
    assert_eq!(registry.registrations(), &vec![2, 3]);
    assert_eq!(registry.retire(), vec![2, 3]);
    assert!(registry.register(4, &vec![]));
    assert!(registry.registrations().is_empty());
}

#[test]
fn scanner_setter_panic_poisons_handle() {
    let mut last = LastError::new();
    let mut scanner = open_scanner();
    let status = note_panic(&mut last, Some(&mut scanner), "simulated panic in scanner setter");
    assert_eq!(status, -1);
    assert!(scanner.is_poisoned());
    assert_eq!(last.code(), LanceErrorCode::Panic);
    let message = last.take_message().unwrap();
    assert!(message.contains("simulated panic in scanner setter"), "got: {message}");

    let status = lance_scanner_set_limit(&mut last, Some(&mut scanner), 10);
    assert_eq!(status, -1);
    assert_poison_error_pending(&mut last);
}

#[test]
fn poisoned_scanner_rejects_setters_with_panic_code() {
    let mut last = LastError::new();
    let mut scanner = open_scanner();
    poison(&mut scanner);

    assert_eq!(lance_scanner_set_limit(&mut last, Some(&mut scanner), 10), -1);
    assert_poison_error_pending(&mut last);
    assert_eq!(lance_scanner_set_nprobes(&mut last, Some(&mut scanner), 4), -1);
    assert_poison_error_pending(&mut last);
    assert_eq!(lance_scanner_set_prefilter(&mut last, Some(&mut scanner), true), -1);
    assert_poison_error_pending(&mut last);

    let mut stream = None;
    let status = lance_scanner_to_arrow_stream(
        &mut last,
        Some(&mut scanner),
        Some(&mut stream),
        ExportEvent::Exported(1),
    );
    assert_eq!(status, -1);
    assert!(stream.is_none());
    assert_poison_error_pending(&mut last);
}

#[test]
fn poisoned_scanner_next_returns_panic_code() {
    let mut last = LastError::new();
    let mut scanner = open_scanner();
    poison(&mut scanner);

    let mut batch = Some(7);
    let status = lance_scanner_next(
        &mut last,
        Some(&mut scanner),
        Some(&mut batch),
        NextEvent::Batch(8),
    );
    assert_eq!(status, -1);
    assert!(batch.is_none(), "error path must leave the output empty");
    assert_poison_error_pending(&mut last);

    let status = lance_scanner_next(&mut last, Some(&mut scanner), None, NextEvent::Batch(8));
    assert_eq!(status, -1);
    assert_poison_error_pending(&mut last);
}

#[test]
fn poisoned_scanner_poll_next_returns_error_status() {
    let mut last = LastError::new();
    let mut scanner = open_scanner();
    poison(&mut scanner);

    let mut batch = Some(7);
    let status = lance_scanner_poll_next(
        &mut last,
        Some(&mut scanner),
        false,
        Some(&mut batch),
        NextEvent::Batch(8),
    );
    assert_eq!(status, LancePollStatus::Error);
    assert!(batch.is_none(), "error path must leave the output empty");
    assert_poison_error_pending(&mut last);

    let status =
        lance_scanner_poll_next(&mut last, Some(&mut scanner), false, None, NextEvent::Batch(8));
    assert_eq!(status, LancePollStatus::Error);
    assert_poison_error_pending(&mut last);
}

#[test]
fn poisoned_scanner_scan_async_dispatches_error_callback() {
    let mut last = LastError::new();
    let mut scanner = open_scanner();
    poison(&mut scanner);

    let completions = lance_scanner_scan_async(
        &mut last,
        Some(&mut scanner),
        false,
        SetupEvent::Built,
        TaskEvent::Stream(1),
    );
    assert_poison_error_pending(&mut last);
    assert_eq!(completions.len(), 1);
    assert_eq!(completions[0].status, -1);
    assert!(completions[0].result.is_none());
    let error = completions[0].error.as_ref().unwrap();
    assert_eq!(error.code, LanceErrorCode::Panic);
    assert!(
        error.message.contains("poisoned by an earlier panic"),
        "unexpected callback-thread message: {}",
        error.message
    );
}

#[test]
fn fresh_scanner_is_not_poisoned() {
    let mut last = LastError::new();
    let mut scanner = open_scanner();
    assert_eq!(lance_scanner_set_limit(&mut last, Some(&mut scanner), 10), 0);
    assert_eq!(last.code(), LanceErrorCode::Success);

    let mut batches = 0;
    let mut events = vec![NextEvent::End, NextEvent::Batch("batch")];
    loop {
        let mut batch = None;
        let event = events.pop().unwrap();
        let status = lance_scanner_next(&mut last, Some(&mut scanner), Some(&mut batch), event);
        assert!(status >= 0, "lance_scanner_next failed with {status}");
        if status == 1 {
            break;
        }
        assert!(batch.is_some());
        batches += 1;
    }
    assert!(batches > 0, "dataset must yield at least one batch");
}

#[test]
fn scan_async_setup_panic_poisons_and_dispatches_exactly_one_completion() {
    let mut last = LastError::new();
    let mut scanner = open_scanner();
    let completions = lance_scanner_scan_async(
        &mut last,
        Some(&mut scanner),
        false,
        SetupEvent::Panicked {
            message: "injected setup panic".to_owned(),
            stage: SetupStage::Checking,
        },
        TaskEvent::Stream(1),
    );
    assert!(scanner.is_poisoned(), "a setup panic must poison the scanner handle");
    assert_eq!(
        completions.len(),
        1,
        "a setup panic must dispatch exactly one callback completion"
    );
    assert_eq!(completions[0].status, -1);
    let error = completions[0].error.as_ref().unwrap();
    assert_eq!(error.code, LanceErrorCode::Panic);
    assert!(
        error.message.contains("injected setup panic"),
        "panic payload must reach the callback, got: {:?}",
        error.message
    );
}

#[test]
fn asynchronous_scans_complete_once() {
    let mut last = LastError::new();
    let mut scanner = open_scanner();
    let completions = lance_scanner_scan_async(
        &mut last,
        Some(&mut scanner),
        false,
        SetupEvent::Built,
        TaskEvent::Stream("stream"),
    );
    assert_eq!(completions.len(), 1);
    assert_eq!(completions[0].status, 0);
    assert_eq!(completions[0].result, Some("stream"));
    assert!(completions[0].error.is_none());

    let completions = lance_scanner_scan_async::<()>(
        &mut last,
        Some(&mut scanner),
        false,
        SetupEvent::Built,
        TaskEvent::Failed(failure("disk")),
    );
    assert_eq!(completions.len(), 1);
    assert_eq!(completions[0].status, -1);
    assert_eq!(completions[0].error.as_ref().unwrap().message, "disk");
    assert!(!scanner.is_poisoned());

    let completions = lance_scanner_scan_async::<()>(
        &mut last,
        Some(&mut scanner),
        false,
        SetupEvent::Built,
        TaskEvent::Panicked("late".to_owned()),
    );
    assert_eq!(completions.len(), 1);
    assert_eq!(completions[0].error.as_ref().unwrap().code, LanceErrorCode::Panic);
    assert!(scanner.is_poisoned());

    let completions = lance_scanner_scan_async::<()>(
        &mut last,
        None,
        false,
        SetupEvent::Built,
        TaskEvent::Stream(()),
    );
    assert_eq!(completions.len(), 1);
    assert_eq!(completions[0].error.as_ref().unwrap().message, "scanner is NULL");
}

#[test]
fn polls_report_every_state_of_the_stream() {
    let mut last = LastError::new();
    let mut scanner = open_scanner();
    let mut out = None;
    for (event, status) in [
        (NextEvent::Opening, LancePollStatus::Pending),
        (NextEvent::Pending, LancePollStatus::Pending),
        (NextEvent::Batch(1), LancePollStatus::Ready),
        (NextEvent::End, LancePollStatus::Finished),
        (NextEvent::StreamFailed(failure("io")), LancePollStatus::Error),
        (NextEvent::MaterializeFailed(failure("plan")), LancePollStatus::Error),
    ] {
        let got =
            lance_scanner_poll_next(&mut last, Some(&mut scanner), false, Some(&mut out), event);
        assert_eq!(got, status);
        assert_eq!(out.is_some(), status == LancePollStatus::Ready);
    }
    assert_eq!(last.code(), LanceErrorCode::IoError);
    assert_eq!(last.message(), "plan");
    let got = lance_scanner_poll_next(
        &mut last,
        Some(&mut scanner),
        false,
        Some(&mut out),
        NextEvent::Panicked { message: "boom".to_owned(), stream_open: true },
    );
    assert_eq!(got, LancePollStatus::Error);
    assert!(scanner.is_poisoned());
    assert_eq!(last.code(), LanceErrorCode::Panic);
}

#[test]
fn a_panicked_drive_keeps_what_it_opened() {
    for stream_open in [false, true] {
        let mut last = LastError::new();
        let mut scanner = open_scanner();
        let event: NextEvent<u8> = NextEvent::Panicked { message: "boom".to_owned(), stream_open };
        let mut out = Some(1);
        assert_eq!(lance_scanner_next(&mut last, Some(&mut scanner), Some(&mut out), event), -1);
        assert!(out.is_none());
        assert!(scanner.is_poisoned());
        assert!(scanner.scan_started);
        assert_eq!(scanner.stream_open, stream_open);
    }
    let mut last = LastError::new();
    let mut scanner = open_scanner();
    let event: NextEvent<u8> = NextEvent::Opening;
    let mut out = None;
    let status =
        lance_scanner_poll_next(&mut last, Some(&mut scanner), false, Some(&mut out), event);
    assert_eq!(status, LancePollStatus::Pending);
    assert!(scanner.scan_started);
    assert!(!scanner.stream_open);
}

#[test]
fn a_panicked_setup_reports_its_panic_first() {
    let panicked = |stage: SetupStage| SetupEvent::Panicked { message: "boom".to_owned(), stage };
    let mut last = LastError::new();
    let completions = lance_scanner_scan_async(
        &mut last,
        None,
        false,
        panicked(SetupStage::Checking),
        TaskEvent::Stream(1),
    );
    assert_eq!(completions.len(), 1);
    assert_eq!(completions[0].error.as_ref().unwrap().message, "panic in FFI call: boom");
    assert_eq!(last.code(), LanceErrorCode::Success);

    let reporting = SetupStage::Reporting(LanceError::invalid("scanner is NULL"));
    let completions =
        lance_scanner_scan_async(&mut last, None, false, panicked(reporting), TaskEvent::Stream(1));
    assert_eq!(completions[0].error.as_ref().unwrap().code, LanceErrorCode::Panic);
    assert_eq!(last.code(), LanceErrorCode::InvalidArgument);

    for (stage, started) in [(SetupStage::Checking, false), (SetupStage::Building, true)] {
        let mut scanner = open_scanner();
        lance_scanner_scan_async(
            &mut last,
            Some(&mut scanner),
            false,
            panicked(stage),
            TaskEvent::Stream(1),
        );
        assert!(scanner.is_poisoned());
        assert_eq!(scanner.scan_started, started);
        let completions = lance_scanner_scan_async(
            &mut last,
            Some(&mut scanner),
            false,
            panicked(SetupStage::Building),
            TaskEvent::Stream(1),
        );
        assert_eq!(completions[0].error.as_ref().unwrap().message, "panic in FFI call: boom");
        assert_eq!(scanner.scan_started, started);
    }
}

#[test]
fn iteration_needs_its_arguments() {
    let mut last = LastError::new();
    let mut scanner = open_scanner();
    assert_eq!(lance_scanner_next(&mut last, None, Some(&mut None), NextEvent::Batch(1)), -1);
    assert_missing(&mut last, "scanner must not be NULL");
    assert_eq!(lance_scanner_next(&mut last, Some(&mut scanner), None, NextEvent::Batch(1)), -1);
    assert_missing(&mut last, "out must not be NULL");
}

#[test]
fn setters_keep_what_they_are_given() {
    let mut last = LastError::new();
    let mut scanner =
        scanner_new_inner(false, Ok(Some(vec!["id".to_owned()])), &text("id > 1")).ok().unwrap();
    assert_eq!(scanner.columns.as_ref().unwrap()[0], "id");
    assert_eq!(scanner.filter.as_deref(), Some("id > 1"));
    assert_eq!(lance_scanner_set_limit(&mut last, Some(&mut scanner), -3), 0);
    assert_eq!(lance_scanner_set_offset(&mut last, Some(&mut scanner), 4), 0);
    assert_eq!(lance_scanner_set_batch_size(&mut last, Some(&mut scanner), 5), 0);
    assert_eq!(lance_scanner_with_row_id(&mut last, Some(&mut scanner), true), 0);
    assert_eq!(lance_scanner_set_nprobes(&mut last, Some(&mut scanner), 6), 0);
    assert_eq!(lance_scanner_set_refine_factor(&mut last, Some(&mut scanner), 7), 0);
    assert_eq!(lance_scanner_set_ef(&mut last, Some(&mut scanner), 8), 0);
    assert_eq!(lance_scanner_set_use_index(&mut last, Some(&mut scanner), false), 0);
    assert_eq!(lance_scanner_set_prefilter(&mut last, Some(&mut scanner), true), 0);
    assert_eq!(lance_scanner_set_metric(&mut last, Some(&mut scanner), 1), 0);
    assert_eq!(scanner.limit, Some(-3));
    assert_eq!(scanner.offset, Some(4));
    assert_eq!(scanner.batch_size, Some(5));
    assert!(scanner.with_row_id);
    assert_eq!(scanner.nprobes, Some(6));
    assert_eq!(scanner.refine_factor, Some(7));
    assert_eq!(scanner.ef, Some(8));
    assert_eq!(scanner.use_index, Some(false));
    assert!(scanner.prefilter);
    assert_eq!(scanner.metric_override, Some(LanceMetricType::Cosine));
    assert_eq!(lance_scanner_set_limit(&mut last, None, 1), -1);
    assert_invalid(&mut last, "scanner is NULL");
    assert_eq!(lance_scanner_set_metric(&mut last, Some(&mut scanner), 9), -1);
    assert_invalid(&mut last, "invalid metric: 9");
    assert_eq!(scanner.metric_override, Some(LanceMetricType::Cosine));
}

#[test]
fn new_scanners_reject_bad_arguments() {
    let error = scanner_new_inner(true, Ok(None), &CStringArg::Null).err().unwrap();
    assert_eq!(error.message, "dataset must not be NULL");
    let error = scanner_new_inner(false, Ok(None), &CStringArg::Malformed).err().unwrap();
    assert_eq!(error.code, LanceErrorCode::InvalidArgument);
    let error =
        scanner_new_inner(false, Err(LanceError::invalid("columns")), &text("f")).err().unwrap();
    assert_eq!(error.message, "columns");
}

#[test]
fn fragment_ids_replace_each_other() {
    let mut last = LastError::new();
    let mut scanner = open_scanner();
    let status =
        lance_scanner_set_fragment_ids(&mut last, Some(&mut scanner), Some(vec![3, 1]), 2);
    assert_eq!(status, 0);
    assert_eq!(scanner.fragment_ids, Some(vec![3, 1]));
    assert_eq!(lance_scanner_set_fragment_ids(&mut last, Some(&mut scanner), None, 2), -1);
    assert_invalid(&mut last, "ids is NULL but len > 0");
    assert_eq!(scanner.fragment_ids, Some(vec![3, 1]));
    assert_eq!(lance_scanner_set_fragment_ids(&mut last, Some(&mut scanner), None, 0), 0);
    assert_eq!(scanner.fragment_ids, Some(vec![]));
}

#[test]
fn filters_are_checked() {
    let mut last = LastError::new();
    let mut scanner = open_scanner();
    assert_eq!(lance_scanner_set_substrait_filter(&mut last, Some(&mut scanner), None), -1);
    assert_invalid(&mut last, "bytes is NULL");
    assert_eq!(
        lance_scanner_set_substrait_filter(&mut last, Some(&mut scanner), Some(vec![])),
        -1
    );
    assert_invalid(&mut last, "Substrait filter bytes must be non-empty");
    assert_eq!(
        lance_scanner_set_substrait_filter(&mut last, Some(&mut scanner), Some(vec![1])),
        0
    );
    assert_eq!(scanner.substrait_filter, Some(vec![1]));

    let mut add = |filter: &CStringArg, last: &mut LastError| {
        lance_scanner_additional_sql_filter(last, Some(&mut scanner), filter)
    };
    assert_eq!(add(&CStringArg::Null, &mut last), -1);
    assert_invalid(&mut last, "filter must not be NULL");
    assert_eq!(add(&text(""), &mut last), -1);
    assert_invalid(&mut last, "additional SQL filter must be non-empty");
    assert_eq!(add(&text("a = 1"), &mut last), 0);
    assert_eq!(add(&text("b = 2"), &mut last), 0);
    assert_eq!(scanner.additional_sql_filters, vec!["a = 1", "b = 2"]);
    scanner.scan_started = true;
    let status =
        lance_scanner_additional_sql_filter(&mut last, Some(&mut scanner), &text("c = 3"));
    assert_eq!(status, -1);
    assert_invalid(&mut last, "additional SQL filter must be set before the scan starts");
}

#[test]
fn statistics_callbacks_come_before_the_scan() {
    let mut last = LastError::new();
    let mut scanner = open_scanner();
    assert_eq!(lance_scanner_set_statistics_callback(&mut last, Some(&mut scanner), None), -1);
    assert_invalid(&mut last, "statistics callback is NULL");
    assert_eq!(lance_scanner_set_statistics_callback(&mut last, Some(&mut scanner), Some(5)), 0);
    assert_eq!(scanner.statistics_callback, Some(5));
    scanner.scan_started = true;
    assert_eq!(lance_scanner_set_statistics_callback(&mut last, Some(&mut scanner), Some(6)), -1);
    assert_invalid(&mut last, "statistics callback must be registered before the scan starts");
    assert_eq!(scanner.statistics_callback, Some(5));
}

#[test]
fn segment_uuids_are_split_in_order() {
    let octets: Vec<u8> = (0..32).collect();
    let uuids = split_uuids(&octets, 2);
    assert_eq!(uuids[0].to_vec(), (0..16).collect::<Vec<u8>>());
    assert_eq!(uuids[1].to_vec(), (16..32).collect::<Vec<u8>>());

    let mut last = LastError::new();
    let mut scanner = open_scanner();
    let status =
        lance_scanner_set_index_segments(&mut last, Some(&mut scanner), Some(&octets), 2);
    assert_eq!(status, 0);
    assert_eq!(scanner.index_segments.as_ref().unwrap().len(), 2);
    assert_eq!(lance_scanner_set_index_segments(&mut last, Some(&mut scanner), None, 1), -1);
    assert_invalid(&mut last, "segment_uuids is NULL but len > 0");
    assert_eq!(lance_scanner_set_index_segments(&mut last, Some(&mut scanner), None, 0), 0);
    assert!(scanner.index_segments.is_none());
}

#[test]
fn a_scanner_holds_one_search() {
    let mut last = LastError::new();
    let mut scanner = open_scanner();
    let nearest = |last: &mut LastError, scanner: &mut LanceScanner, kind: i32, k: u32| {
        lance_scanner_nearest(last, Some(scanner), &text("v"), Some(vec![0; 8]), 2, kind, k)
    };
    assert_eq!(nearest(&mut last, &mut scanner, 0, 0), -1);
    assert_invalid(&mut last, "k must be > 0");
    assert_eq!(nearest(&mut last, &mut scanner, 99, 1), -1);
    assert_invalid(&mut last, "invalid element_type: 99");
    assert_eq!(nearest(&mut last, &mut scanner, 0, 3), 0);
    let query = scanner.nearest.as_ref().unwrap();
    assert_eq!((query.column.as_str(), query.k), ("v", 3));
    assert_eq!(query.element_type, LanceDataType::Float32);

    let search = |last: &mut LastError, scanner: &mut LanceScanner| {
        lance_scanner_full_text_search(last, Some(scanner), &text("q"), Ok(None), Ok(()), 2)
    };
    assert_eq!(search(&mut last, &mut scanner), -1);
    assert_invalid(
        &mut last,
        "cannot call full_text_search after nearest; they are mutually exclusive",
    );
    let context = FtsContext { segments: vec![[1; 16]], dataset_version: 3 };
    let status =
        lance_scanner_set_fts_query_context(&mut last, Some(&mut scanner), Ok(context), Ok(()));
    assert_eq!(status, -1);
    assert_invalid(
        &mut last,
        "cannot attach an FTS query context after nearest; they are mutually exclusive",
    );

    let mut scanner = open_scanner();
    assert_eq!(search(&mut last, &mut scanner), 0);
    assert_eq!(scanner.fts_query.as_ref().unwrap().query, "q");
    assert_eq!(nearest(&mut last, &mut scanner, 0, 3), -1);
    assert_eq!(last.code(), LanceErrorCode::InvalidArgument);
    assert!(scanner.nearest.is_none());
}

#[test]
fn contexts_must_belong_to_the_dataset() {
    let mut last = LastError::new();
    let mut scanner = open_scanner();
    let context = || FtsContext { segments: vec![[1; 16]], dataset_version: 3 };
    let status = lance_scanner_set_fts_query_context(
        &mut last,
        Some(&mut scanner),
        Ok(context()),
        Err(failure("other dataset")),
    );
    assert_eq!(status, -1);
    assert_eq!(last.take_message().unwrap(), "other dataset");
    assert!(scanner.fts_context.is_none());
    let status =
        lance_scanner_set_fts_query_context(&mut last, Some(&mut scanner), Ok(context()), Ok(()));
    assert_eq!(status, 0);
    assert_eq!(scanner.fts_context.as_ref().unwrap().dataset_version, 3);
    let status = lance_scanner_set_fts_index_segments(
        &mut last,
        Some(&mut scanner),
        Ok(vec![[1; 16]]),
        1,
    );
    assert_eq!(status, 0);
    assert_eq!(scanner.fts_index_segments, Some(vec![[1; 16]]));
    let status =
        lance_scanner_set_fts_index_segments(&mut last, Some(&mut scanner), Ok(vec![]), 0);
    assert_eq!(status, 0);
    assert_eq!(scanner.fts_index_segments, None);
}

#[test]
fn element_types_have_widths() {
    let widths: Vec<usize> =
        (0..5).map(|raw| LanceDataType::from_raw(raw).unwrap().element_width()).collect();
    assert_eq!(widths, vec![4, 2, 8, 1, 1]);
    assert!(LanceDataType::from_raw(5).is_none());
    assert!(LanceDataType::from_raw(-1).is_none());
}

#[test]
fn errors_are_taken_once() {
    let mut last = LastError::new();
    assert_eq!(last.take_message(), None);
    last.set_last_error(LanceErrorCode::NotFound, "gone");
    assert_eq!(last.code(), LanceErrorCode::NotFound);
    assert_eq!(last.take_message().unwrap(), "gone");
    assert_eq!(last.take_message(), None);
    assert_eq!(last.code(), LanceErrorCode::Success);
}
