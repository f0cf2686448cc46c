use requests_native::admission::{
    continue_admission, AdmissionRefusal, AdmissionStop, AdmitCall, AdmitEvent, PoolSettings,
    ProxyKind, SelectedProxy,
};
use requests_native::drive::{
    cancelled_task_event, drop_quarantined_origin, finish_affinity_probe, finish_error_probe,
    finish_nested_probe, outcome_error, probe_worker, ready_error_fault, AffinityLost,
    AffinityReport, DriveEvent, DriveStep, NestedReport, OriginQuarantine, Probe, ProbeAction,
    ProbeFault, ProbeOutcome, ProbeReply, ProbeResult, ProbeStep, PythonCallContext,
    QuarantineDrop,
};
use requests_native::bridge::BridgeClosed;
use requests_native::errors::{
    begins_with, canonical_response_error, decoder_error_message, map_typed_message, trial_kind,
    trial_site, urllib3_v2, CanonicalResponseError, ErrorKind, MappingSite, TargetClass,
};
use requests_native::heap::Failure;
use requests_native::pools::PoolRealm;
use requests_native::raw::{
    decode_started_message, decoder_is_wanted, piece, read_size,
    suppresses_urllib3_126_incomplete, DecoderKind, RawAnswer, RawBody, RawCall, RawStream,
    StreamStep,
};
use requests_native::registry::PoolRefusal;
use requests_native::retry::{core_history, retry_reason, HistoryRow, RetryReason, RetryRefusal};
use requests_native::sending::{
    admission_event, canonical_adapter_surrogate, commitment_message, new_connection_message,
    has_retry_after, recording_event, redirect_location, selection_event, simulate_adapter_handlers,
    too_many_message, CommitCall, CommitEvent, CommitState, HandlerAnswer, HandlerCall,
    RaisedClass, SendCall, SendEvent, SendState, Surrogate,
};
use requests_native::sorting::{comes_first, sorted_codes, sorted_texts};

fn follow(owned: bool, events: &[DriveEvent]) -> Vec<DriveStep> {
    let mut step = DriveStep::first();
    let mut steps = vec![step];
    for event in events {
        step = step.drive(owned, *event);
        steps.push(step);
    }
    steps
}

#[test]
fn a_result_is_returned_after_signals_were_looked_at() {
    let events = [DriveEvent::Done, DriveEvent::Done, DriveEvent::Done, DriveEvent::Ready];
    assert_eq!(
        follow(false, &events),
        vec![
            DriveStep::CheckEntry,
            DriveStep::Reap,
            DriveStep::CheckSignals,
            DriveStep::PollTask,
            DriveStep::Return
        ]
    );
}

#[test]
fn a_signal_wins_over_a_ready_result() {
    let events = [
        DriveEvent::Done,
        DriveEvent::Done,
        DriveEvent::Failed,
        DriveEvent::Done,
        DriveEvent::Done,
    ];
    assert_eq!(
        follow(false, &events),
        vec![
            DriveStep::CheckEntry,
            DriveStep::Reap,
            DriveStep::CheckSignals,
            DriveStep::Cancel,
            DriveStep::PollCancelled,
            DriveStep::RaiseSignal
        ]
    );
}

#[test]
fn actions_run_after_the_thread_was_checked() {
    let events = [
        DriveEvent::Done,
        DriveEvent::Done,
        DriveEvent::Done,
        DriveEvent::Pending,
        DriveEvent::Request,
        DriveEvent::Done,
        DriveEvent::Done,
    ];
    let steps = follow(true, &events);
    assert_eq!(
        &steps[4..],
        &[
            DriveStep::Receive,
            DriveStep::CheckAction,
            DriveStep::Execute,
            DriveStep::CheckSignals
        ]
    );
    assert_eq!(
        DriveStep::CheckAction.drive(true, DriveEvent::Failed),
        DriveStep::RaiseAffinity
    );
    assert_eq!(DriveStep::Receive.drive(true, DriveEvent::Disconnected), DriveStep::Sleep);
    assert_eq!(DriveStep::Receive.drive(true, DriveEvent::Timeout), DriveStep::CheckSignals);
    assert_eq!(DriveStep::PollTask.drive(true, DriveEvent::Failed), DriveStep::RaiseTask);
    assert_eq!(DriveStep::RaiseTask.drive(true, DriveEvent::Done), DriveStep::RaiseTask);
}

#[test]
fn only_kept_owners_are_put_aside() {
    assert_eq!(
        DriveStep::PollCancelled.drive(true, DriveEvent::Overdue),
        DriveStep::Quarantine
    );
    assert_eq!(
        DriveStep::PollCancelled.drive(false, DriveEvent::Overdue),
        DriveStep::WaitCancelled
    );
    assert_eq!(DriveStep::Quarantine.drive(true, DriveEvent::Done), DriveStep::RaiseSignal);
    assert_eq!(cancelled_task_event(true, true), DriveEvent::Pending);
    assert_eq!(cancelled_task_event(true, false), DriveEvent::Overdue);
    assert_eq!(cancelled_task_event(false, false), DriveEvent::Done);
}

#[test]
fn owners_are_let_go_once_their_tasks_have_ended() {
    let mut quarantine = OriginQuarantine::new();
    quarantine.quarantine_origin_until_terminal("first");
    quarantine.quarantine_origin_until_terminal("second");
    quarantine.quarantine_origin_until_terminal("third");
    let released = quarantine.reap_origin_quarantine(&vec![false, true, false]);
    assert_eq!(released, vec!["second"]);
    assert_eq!(quarantine.entries, vec!["first", "third"]);
    assert_eq!(drop_quarantined_origin(true), QuarantineDrop::Release);
    assert_eq!(drop_quarantined_origin(false), QuarantineDrop::Keep);
}

#[test]
fn a_call_stays_on_its_thread_and_interpreter() {
    let context = PythonCallContext { origin_thread: 3, interpreter: 90 };
    assert_eq!(context.ensure_affinity(3, 90), None);
    assert_eq!(context.ensure_affinity(4, 91), Some(AffinityLost::Thread));
    assert_eq!(context.ensure_affinity(3, 91), Some(AffinityLost::Interpreter));
    assert_eq!(
        AffinityLost::Thread.message(),
        "Python action moved off its entering OS thread"
    );
    assert_eq!(
        AffinityLost::Interpreter.message(),
        "Python action moved to a different interpreter"
    );
}

fn affinity() -> AffinityReport {
    AffinityReport {
        observer_ran: true,
        action_thread: String::from("ThreadId(1)"),
        action_interpreter: 5,
    }
}

fn nested() -> NestedReport {
    NestedReport {
        value: "nested",
        generation: 2,
        action_thread: String::from("ThreadId(1)"),
        action_interpreter: 5,
    }
}

#[test]
fn probes_go_from_action_to_action() {
    assert!(matches!(
        probe_worker(ProbeAction::SetStarted, Ok(ProbeReply::Ack)),
        ProbeStep::RestThenRequest(ProbeAction::ObserveAffinity)
    ));
    assert!(matches!(
        probe_worker(ProbeAction::ObserveAffinity, Ok(ProbeReply::Affinity(affinity()))),
        ProbeStep::Finish(ProbeOutcome::Affinity(_))
    ));
    assert!(matches!(
        probe_worker(ProbeAction::RaiseOriginal, Ok(ProbeReply::Ack)),
        ProbeStep::Finish(ProbeOutcome::OriginalRaised)
    ));
    assert!(matches!(
        probe_worker(ProbeAction::RunNested, Ok(ProbeReply::Nested(nested()))),
        ProbeStep::Finish(ProbeOutcome::Nested(_))
    ));
    assert!(matches!(
        probe_worker(ProbeAction::RunNested, Ok(ProbeReply::Ack)),
        ProbeStep::Finish(ProbeOutcome::HandlerFailed)
    ));
    assert!(matches!(
        probe_worker(ProbeAction::CancellationPoint, Ok(ProbeReply::Ack)),
        ProbeStep::Pend
    ));
    assert!(matches!(
        probe_worker(ProbeAction::SetStarted, Err(BridgeClosed::ReplySender)),
        ProbeStep::Finish(ProbeOutcome::BridgeClosed(BridgeClosed::ReplySender))
    ));
    for probe in [
        Probe::Affinity,
        Probe::OriginalError,
        Probe::OuterNested,
        Probe::InnerNested,
        Probe::CancelOwnership,
    ] {
        assert!(probe.serves(probe.first_action()));
    }
    assert!(Probe::Affinity.serves(ProbeAction::ObserveAffinity));
    assert!(!Probe::OuterNested.serves(ProbeAction::ObserveNested));
}

#[test]
fn probes_end_with_what_was_seen() {
    assert!(matches!(
        finish_affinity_probe(None, ProbeOutcome::Affinity(affinity())),
        ProbeResult::Affinity(report) if report.observer_ran
    ));
    assert!(matches!(
        finish_affinity_probe(Some(4), ProbeOutcome::Affinity(affinity())),
        ProbeResult::Raise(4)
    ));
    assert!(matches!(
        finish_nested_probe(None, ProbeOutcome::Nested(nested())),
        ProbeResult::Nested(report) if report.generation == 2
    ));
    assert!(matches!(
        finish_error_probe(Some(6), ProbeOutcome::OriginalRaised),
        ProbeResult::Raise(6)
    ));
    assert!(matches!(
        finish_error_probe(None, ProbeOutcome::OriginalRaised),
        ProbeResult::Fault(ProbeFault::LostOriginal)
    ));
    assert_eq!(outcome_error(&ProbeOutcome::Ready), ProbeFault::UnexpectedOutcome);
    assert_eq!(ready_error_fault(true, false), None);
    assert_eq!(ready_error_fault(true, true), Some(ProbeFault::PolledBeforeSignal));
    assert_eq!(ready_error_fault(false, true), Some(ProbeFault::AcceptedOverSignal));
}

#[test]
fn faults_of_probes_are_told_apart() {
    let messages = [
        (ProbeFault::UnexpectedAction, "runtime probe received an unexpected action"),
        (ProbeFault::LostOriginal, "runtime probe lost its original exception"),
        (
            ProbeFault::PolledBeforeSignal,
            "runtime probe polled a ready result before its signal",
        ),
        (
            ProbeFault::AcceptedOverSignal,
            "runtime probe accepted a ready result over its signal",
        ),
        (
            ProbeFault::HandlerFailed,
            "runtime probe action handler failed without a Python exception",
        ),
        (ProbeFault::UnexpectedOutcome, "runtime probe returned an unexpected outcome"),
        (
            ProbeFault::Closed(BridgeClosed::ActionReceiver),
            "Python action receiver closed",
        ),
        (ProbeFault::WorkerStopped, "native requests worker stopped unexpectedly"),
    ];
    for (fault, message) in messages {
        assert_eq!(fault.message(), message);
    }
}

fn send(respect: bool, raise: bool, events: &[SendEvent]) -> SendCall {
    let mut state = SendState::new(respect, raise);
    for event in events {
        state.adapter_send(*event);
    }
    state.call
}

#[test]
fn a_response_that_is_no_retry_is_built() {
    let events = [
        SendEvent::Responded { status: 200, has_retry_after: false },
        SendEvent::No,
    ];
    assert_eq!(send(true, true, &events), SendCall::BuildResponse);
}

#[test]
fn a_counted_failure_is_tried_again() {
    let events = [
        SendEvent::Failed(ErrorKind::Connect),
        SendEvent::Done,
        SendEvent::Done,
    ];
    assert_eq!(send(true, true, &events[..1]), SendCall::CountFailure(RetryReason::Connect));
    assert_eq!(send(true, true, &events[..2]), SendCall::SleepBackoff);
    assert_eq!(send(true, true, &events), SendCall::Attempt);
    let refused = [SendEvent::Failed(ErrorKind::Connect), SendEvent::Exhausted];
    assert_eq!(send(true, true, &refused), SendCall::RaiseTransport);
}

#[test]
fn a_failed_read_is_repeated_only_for_allowed_methods() {
    let events = [SendEvent::Failed(ErrorKind::ReadTimeout), SendEvent::No];
    assert_eq!(send(true, true, &events[..1]), SendCall::AllowsMethod);
    assert_eq!(send(true, true, &events), SendCall::RaiseTransport);
}

#[test]
fn a_retry_after_is_respected_where_it_is_asked_for() {
    let events = [
        SendEvent::Responded { status: 503, has_retry_after: true },
        SendEvent::Yes,
        SendEvent::Done,
        SendEvent::Done,
    ];
    assert_eq!(send(true, true, &events), SendCall::ReadRetryAfter);
    assert_eq!(send(false, true, &events), SendCall::SleepBackoff);
}

#[test]
fn too_many_statuses_are_raised_or_given_back() {
    let events = [
        SendEvent::Responded { status: 503, has_retry_after: false },
        SendEvent::Yes,
        SendEvent::Exhausted,
        SendEvent::Done,
    ];
    assert_eq!(send(true, true, &events), SendCall::RaiseTooMany);
    assert_eq!(send(true, false, &events[..3]), SendCall::BuildResponse);
    assert_eq!(too_many_message(503), "too many 503 responses");
}

#[test]
fn redirects_name_their_location() {
    assert_eq!(redirect_location(302, Some("/next")), Some(String::from("/next")));
    assert_eq!(redirect_location(302, Some("")), None);
    assert_eq!(redirect_location(304, Some("/next")), None);
    assert_eq!(redirect_location(308, None), None);
}

#[test]
fn transport_failures_take_the_shape_of_urllib3_errors() {
    assert_eq!(
        canonical_adapter_surrogate(ErrorKind::ReadTimeout, None, true),
        Surrogate::ReadTimeout
    );
    assert!(matches!(
        canonical_adapter_surrogate(ErrorKind::Connect, Some(111), true),
        Surrogate::NewConnection { errno: 111, .. }
    ));
    assert_eq!(
        new_connection_message("refused"),
        "Failed to establish a new connection: refused"
    );
    assert_ne!(commitment_message(true), commitment_message(false));
}

#[test]
fn the_first_handler_that_catches_decides() {
    assert_eq!(
        simulate_adapter_handlers(HandlerCall::CatchConnection, HandlerAnswer::Yes),
        HandlerCall::Raise { class: RaisedClass::ConnectionError, with_request: true }
    );
    assert_eq!(
        simulate_adapter_handlers(HandlerCall::CatchConnection, HandlerAnswer::No),
        HandlerCall::CatchMaxRetry
    );
    assert_eq!(
        simulate_adapter_handlers(HandlerCall::CatchConnection, HandlerAnswer::Raised),
        HandlerCall::RaiseCurrent
    );
    assert_eq!(
        simulate_adapter_handlers(HandlerCall::CatchLast, HandlerAnswer::No),
        HandlerCall::RaiseOriginal
    );
    assert_eq!(RaisedClass::SslError.name(), "SSLError");
}

#[test]
fn failures_are_counted_by_reason() {
    assert_eq!(retry_reason(ErrorKind::Dns), RetryReason::Connect);
    assert_eq!(retry_reason(ErrorKind::ChunkedEncoding), RetryReason::Read);
    assert_eq!(retry_reason(ErrorKind::Tls), RetryReason::Other);
    let rows = vec![
        HistoryRow {
            method: String::from("GET"),
            url: String::from("/a"),
            status: Some(302),
            redirect_location: Some(String::from("/b")),
        },
        HistoryRow {
            method: String::from("GET"),
            url: String::from("/b"),
            status: Some(500),
            redirect_location: None,
        },
        HistoryRow {
            method: String::from("GET"),
            url: String::from("/c"),
            status: None,
            redirect_location: None,
        },
    ];
    assert_eq!(
        core_history(&rows),
        vec![
            RetryReason::Redirect { status: 302 },
            RetryReason::Status { status: 500 },
            RetryReason::Other
        ]
    );
    assert_eq!(
        RetryRefusal::RetryAfterMax.message(),
        "retry_after_max is not a nonnegative int"
    );
}

#[test]
fn a_plain_body_is_read_to_its_end() {
    let mut raw = RawBody::new();
    assert!(matches!(raw.read_amount(Some(0), false), RawCall::Finished(bytes) if bytes.is_empty()));
    assert!(matches!(raw.read_amount(Some(3), false), RawCall::Read(3)));
    assert!(matches!(
        raw.proceed(RawAnswer::Wire(vec![1, 2])),
        RawCall::Finished(bytes) if bytes == [1, 2]
    ));
    assert!(matches!(raw.read_amount(None, false), RawCall::ReadAll));
    assert!(matches!(
        raw.proceed(RawAnswer::Wire(Vec::new())),
        RawCall::Finished(bytes) if bytes.is_empty()
    ));
    assert!(raw.closed);
    assert!(matches!(raw.read_amount(None, false), RawCall::Finished(bytes) if bytes.is_empty()));
}

#[test]
fn decoded_bytes_are_kept_until_they_are_asked_for() {
    let mut raw = RawBody::new();
    assert!(matches!(raw.read_amount(Some(2), true), RawCall::FetchDecoder));
    assert!(matches!(
        raw.proceed(RawAnswer::Decoder(DecoderKind::Bounded)),
        RawCall::FetchDecoder
    ));
    assert!(matches!(
        raw.proceed(RawAnswer::Decoder(DecoderKind::Bounded)),
        RawCall::AskTail
    ));
    assert!(matches!(raw.proceed(RawAnswer::Tail(false)), RawCall::Read(_)));
    assert!(matches!(
        raw.proceed(RawAnswer::Wire(vec![9])),
        RawCall::Decompress { maximum: Some(2), .. }
    ));
    assert!(matches!(
        raw.proceed(RawAnswer::Decoded(vec![1, 2, 3])),
        RawCall::Finished(bytes) if bytes == [1, 2]
    ));
    assert_eq!(raw.retained_decoded_bytes(), 1);
    assert!(matches!(raw.read_amount(Some(1), false), RawCall::RaiseStarted));
    assert_eq!(
        decode_started_message(),
        "Calling read(decode_content=False) is not supported after read(decode_content=True) was called."
    );
    assert!(raw.close());
    assert!(!raw.close());
}

#[test]
fn a_failed_decoder_is_remembered() {
    let mut raw = RawBody::new();
    raw.read_amount(None, true);
    assert!(matches!(
        raw.proceed(RawAnswer::Decoder(DecoderKind::Unbounded)),
        RawCall::ReadAll
    ));
    assert!(matches!(
        raw.proceed(RawAnswer::Wire(vec![1])),
        RawCall::Decompress { maximum: None, .. }
    ));
    assert!(matches!(raw.proceed(RawAnswer::DecodeFailed), RawCall::RaiseDecode));
    assert!(raw.decode_failed);
}

#[test]
fn a_failed_wire_ends_the_body() {
    let mut raw = RawBody::new();
    raw.read_amount(None, false);
    assert!(matches!(
        raw.proceed(RawAnswer::IoFailed { suppressed: false }),
        RawCall::RaiseIo
    ));
    assert!(raw.closed);
    assert!(suppresses_urllib3_126_incomplete(true, Some("1.26.18")));
    assert!(!suppresses_urllib3_126_incomplete(true, Some("2.0.7")));
    assert!(!suppresses_urllib3_126_incomplete(false, Some("1.26.18")));
    assert!(!suppresses_urllib3_126_incomplete(true, None));
}

#[test]
fn decoders_are_wanted_for_known_encodings() {
    let decoders = vec![String::from("gzip"), String::from("deflate")];
    assert!(decoder_is_wanted(Some("GZip"), &decoders));
    assert!(decoder_is_wanted(Some("br, deflate"), &decoders));
    assert!(!decoder_is_wanted(Some("br"), &decoders));
    assert!(!decoder_is_wanted(None, &decoders));
    assert_eq!(read_size(Some(-1)), None);
    assert_eq!(read_size(Some(7)), Some(7));
    assert_eq!(piece(&vec![1, 2, 3, 4], 1, 3), vec![2, 3]);
}

#[test]
fn a_stream_of_a_body_stops_when_it_is_closed() {
    let mut stream = RawStream { amount: Some(4), decode_content: true, done: false };
    assert_eq!(stream.begin_next(), StreamStep::Read);
    assert_eq!(stream.after_read(4, false), StreamStep::Yield);
    assert_eq!(stream.after_read(0, false), StreamStep::Read);
    assert_eq!(stream.after_read(0, true), StreamStep::Stop);
    assert_eq!(stream.begin_next(), StreamStep::Stop);
}

#[test]
fn the_least_recently_used_pool_is_given_up() {
    let mut realm = PoolRealm::new();
    assert_eq!(realm.obtain("a", 2, Some(10)), (10, vec![]));
    assert_eq!(realm.obtain("b", 2, Some(11)), (11, vec![]));
    assert_eq!(realm.obtain("a", 2, None), (10, vec![]));
    assert_eq!(realm.obtain("c", 2, Some(12)), (12, vec![11]));
    assert_eq!(realm.pool("b"), None);
    assert_eq!(realm.pool("a"), Some(10));
    assert_eq!(realm.pools().len(), 2);
    assert_eq!(realm.obtain("d", 1, Some(13)), (13, vec![10, 12]));
    assert_eq!(realm.pools(), vec![13]);
    let mut none_kept = PoolRealm::new();
    assert_eq!(none_kept.obtain("a", 0, Some(1)), (1, vec![]));
    assert_eq!(none_kept.pool("a"), None);
    let mut unlisted = PoolRealm::new();
    assert_eq!(unlisted.obtain("a", 1, Some(1)), (1, vec![]));
    assert_eq!(unlisted.obtain("a", 0, None), (1, vec![]));
    assert_eq!(unlisted.obtain("b", 1, Some(2)), (2, vec![]));
    assert_eq!(unlisted.pools(), vec![1, 2]);
}

#[test]
fn records_are_sorted() {
    assert!(comes_first("GET", "POST"));
    assert!(!comes_first("b", "a"));
    let methods = vec![String::from("PUT"), String::from("DELETE"), String::from("GET")];
    assert_eq!(sorted_texts(&methods), vec!["DELETE", "GET", "PUT"]);
    assert_eq!(sorted_codes(&vec![503, 413, 429]), vec![413, 429, 503]);
}

#[test]
fn error_kinds_are_mapped_by_site() {
    assert_eq!(
        map_typed_message(MappingSite::AdapterTransport, ErrorKind::ConnectTimeout),
        Some(TargetClass::ConnectTimeout)
    );
    assert_eq!(map_typed_message(MappingSite::Passthrough, ErrorKind::ConnectTimeout), None);
    assert_eq!(TargetClass::SslError.name(), "SSLError");
    assert!(urllib3_v2("2.1.0"));
    assert!(!urllib3_v2("1.26.0"));
    assert!(begins_with("requests", "req"));
    assert!(!begins_with("re", "req"));
    assert_eq!(
        canonical_response_error(ErrorKind::ResponseBody, Some((3, 4)), true),
        CanonicalResponseError::Incomplete { received: 3, remaining: 4, explicit_cause: true }
    );
    assert_eq!(
        decoder_error_message("gzip"),
        "Received response with content-encoding: gzip, but failed to decode it."
    );
    assert!(trial_site("nowhere").is_err());
    assert!(trial_kind(Some("nothing")).is_err());
}

fn taking_over(events: &[CommitEvent]) -> CommitCall {
    let mut state = CommitState::new();
    for event in events {
        state.step(*event);
    }
    state.call
}

#[test]
fn a_send_falls_back_before_it_is_committed() {
    let done = CommitEvent::Done;
    for passed in 0..3 {
        let mut events = vec![done; passed];
        events.push(CommitEvent::Refused);
        assert_eq!(taking_over(&events), CommitCall::FallBack);
        events.push(done);
        assert_eq!(taking_over(&events), CommitCall::FallBack);
    }
    for passed in 3..5 {
        let mut events = vec![done; passed];
        events.push(CommitEvent::Refused);
        assert_eq!(taking_over(&events), CommitCall::RaiseCurrent);
    }
    assert_eq!(taking_over(&[done, done, done]), CommitCall::EnterManager);
    assert_eq!(taking_over(&[done, done, done, done, done]), CommitCall::Send);
    assert_eq!(
        taking_over(&[done, done, done, done, recording_event(false, true)]),
        CommitCall::RaiseChanged { through_proxy: true }
    );
    assert_eq!(taking_over(&[done, CommitEvent::Raised]), CommitCall::RaiseCurrent);
}

#[test]
fn refusals_are_told_from_errors() {
    let refused = AdmitCall::Stop(AdmissionStop::Refused(AdmissionRefusal::Proxy));
    let failed = AdmitCall::Stop(AdmissionStop::Failed(Failure::Attribute));
    assert_eq!(admission_event(refused), Some(CommitEvent::Refused));
    assert_eq!(admission_event(failed), Some(CommitEvent::Raised));
    assert_eq!(admission_event(AdmitCall::RaiseCurrent), Some(CommitEvent::Raised));
    assert_eq!(
        admission_event(AdmitCall::Admitted { through_proxy: false }),
        Some(CommitEvent::Done)
    );
    assert_eq!(admission_event(AdmitCall::Begin), None);
    assert_eq!(selection_event(Some(PoolRefusal::Changed)), CommitEvent::Refused);
    assert_eq!(selection_event(None), CommitEvent::Done);
    assert_eq!(recording_event(true, true), CommitEvent::Done);
    assert_eq!(
        recording_event(false, false),
        CommitEvent::Changed { through_proxy: false }
    );
}

fn admission(events: &[AdmitEvent]) -> AdmitCall {
    let mut call = AdmitCall::Begin;
    for event in events {
        call = continue_admission(call, *event);
    }
    call
}

#[test]
fn requests_are_admitted_after_the_last_reading() {
    let refused = AdmitCall::Stop(AdmissionStop::Refused(AdmissionRefusal::Proxy));
    let selects = [AdmitEvent::Done, AdmitEvent::Supported(true)];
    let direct = [&selects[..], &[AdmitEvent::Selected(SelectedProxy::Direct)]].concat();
    assert_eq!(admission(&direct), AdmitCall::Finish { through_proxy: false });
    let admitted = [&direct[..], &[AdmitEvent::Done]].concat();
    assert_eq!(admission(&admitted), AdmitCall::Admitted { through_proxy: false });
    let stop = AdmissionStop::Failed(Failure::Kind);
    let stopped = [&direct[..], &[AdmitEvent::Stopped(stop)]].concat();
    assert_eq!(admission(&stopped), AdmitCall::Stop(stop));
    let named = [&selects[..], &[AdmitEvent::Selected(SelectedProxy::Named)]].concat();
    assert_eq!(admission(&named), AdmitCall::ReadScheme);
    let known = [&named[..], &[AdmitEvent::Scheme(Some(ProxyKind::Http)), AdmitEvent::Done]];
    assert_eq!(admission(&known.concat()), AdmitCall::Admitted { through_proxy: true });
    let unknown = [&named[..], &[AdmitEvent::Scheme(None)]].concat();
    assert_eq!(admission(&unknown), refused);
    let other = [&selects[..], &[AdmitEvent::Selected(SelectedProxy::Unsupported)]].concat();
    assert_eq!(admission(&other), refused);
    assert_eq!(admission(&[AdmitEvent::Done, AdmitEvent::Supported(false)]), refused);
    assert_eq!(admission(&[AdmitEvent::Stopped(stop)]), AdmitCall::Stop(stop));
    assert_eq!(admission(&[AdmitEvent::Done, AdmitEvent::Raised]), AdmitCall::RaiseCurrent);
}

#[test]
fn proxy_managers_are_configured_as_the_adapter_is() {
    let settings = PoolSettings { pool_maxsize: 3, pool_connections: 7, pool_block: true };
    let configuration = settings.configuration();
    assert_eq!(configuration.pool_maxsize, 3);
    assert_eq!(configuration.pool_connections, 7);
    assert!(configuration.pool_block);
}

#[test]
fn an_empty_header_asks_for_nothing() {
    assert!(has_retry_after(Some("3")));
    assert!(!has_retry_after(Some("")));
    assert!(!has_retry_after(None));
}
