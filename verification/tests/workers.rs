use requests_native::auth::{DigestAction, DigestReply, OriginDigestOwner};
use requests_native::body_prepare::CancelPhase;
use requests_native::body_stream::{
    answer_action, body_action, bridge_error, chunk_conversion, chunk_error, refusal_message,
    report_stream, select_after, select_body_source, unsupported_body_message, AdapterEvent,
    AdapterFailure, AdapterMode, AdapterPoll, AdapterState, AdapterStep, BodyAction, BodyAnswer,
    BodyKind, BodyQuestion, BodyReply, BodySelection, ChunkConversion, ChunkError, Collected,
    OriginBodySource, OriginCall, OriginOutcome, PythonBodyAdapter, SelectStep, StreamReport,
};
use requests_native::bridge::{store_handler_error, ActionRequest, BridgeClosed, WorkerPayload};
use requests_native::cookie_pipeline::{
    header_index, response_index, snapshot_index, CookiePipelineAction, CookiePipelineReply,
    HeaderId, OriginCookiePipelineOwner, ResponseId, SnapshotId,
};
use requests_native::drive::{ProbeAction, ProbeReply};
use requests_native::hooks::{
    deregister_hook, select_hooks, unknown_value_message, DispatchResult, DispatchStep, HookAction,
    HookDispatch, HookOutcome, HookReply, HookResult, HookSelection, HookValueId, OriginHookOwner,
    RemovalResult,
};
use requests_native::lifecycle::{
    count_up, disconnect_fault, disconnect_mode, lifecycle_phase, response_action,
    response_lifecycle, response_read_action, response_worker_failure, signal_step,
    wait_for_worker_phase, DisconnectMode, EmptyBodyUse, LifecycleFacts, LifecycleFault,
    LifecycleWorker, OriginResponseOwner, PhaseWait, ReadCall, ReadOutcome, ResponseAction,
    ResponseReply, ResponseWorkerFailure, SignalStep, WorkerKind, WorkerPhase, WorkerStep,
};
use requests_native::resend::{Digest401Action, Digest401Reply, OriginDigest401Owner};

fn assert_worker_payload<T: WorkerPayload>() {}

trait AmbiguousIfWorkerPayload<A> {
    fn marker() {}
}

impl<T: ?Sized> AmbiguousIfWorkerPayload<()> for T {}
impl<T: ?Sized + WorkerPayload> AmbiguousIfWorkerPayload<u8> for T {}

trait AmbiguousIfSend<A> {
    fn marker() {}
}

impl<T: ?Sized> AmbiguousIfSend<()> for T {}
impl<T: ?Sized + Send> AmbiguousIfSend<u8> for T {}

trait AmbiguousIfSync<A> {
    fn marker() {}
}

impl<T: ?Sized> AmbiguousIfSync<()> for T {}
impl<T: ?Sized + Sync> AmbiguousIfSync<u8> for T {}

#[test]
fn digest_action_payloads_are_worker_safe() {
    assert_worker_payload::<DigestAction>();
    assert_worker_payload::<DigestReply>();
    assert_worker_payload::<Digest401Action>();
    assert_worker_payload::<Digest401Reply>();
}

#[test]
fn digest_origin_owner_is_not_a_worker_payload() {
    let _ = <OriginDigestOwner as AmbiguousIfWorkerPayload<_>>::marker;
    let _ = <OriginDigest401Owner as AmbiguousIfWorkerPayload<_>>::marker;
}

#[test]
fn body_payloads_are_explicit_worker_payloads() {
    assert_worker_payload::<BodyAction>();
    assert_worker_payload::<BodyReply>();
}

fn assert_body_error_then_eof(adapter: &mut PythonBodyAdapter, event: AdapterEvent) {
    assert!(matches!(adapter.poll_next(event), AdapterPoll::Failed));
    assert!(matches!(adapter.begin_action(), AdapterStep::Finished));
    assert!(matches!(adapter.poll_next(AdapterEvent::Queued), AdapterPoll::End));
}

#[test]
fn adapter_handler_failure_yields_one_error_then_eof() {
    let mut adapter = PythonBodyAdapter::new(AdapterMode::Next, None);
    assert!(matches!(adapter.begin_action(), AdapterStep::Enqueue(BodyAction::Next)));
    assert!(matches!(adapter.poll_next(AdapterEvent::Queued), AdapterPoll::Pending));
    assert_body_error_then_eof(&mut adapter, AdapterEvent::Reply(BodyReply::Failed));
    assert_eq!(AdapterFailure::from_raw(adapter.failure.as_raw()), AdapterFailure::Handler);
}

#[test]
fn adapter_action_receiver_close_yields_one_error_then_eof() {
    let mut adapter = PythonBodyAdapter::new(AdapterMode::Next, None);
    assert!(matches!(adapter.begin_action(), AdapterStep::Enqueue(BodyAction::Next)));
    assert_body_error_then_eof(
        &mut adapter,
        AdapterEvent::Closed(BridgeClosed::ActionReceiver),
    );
    assert_eq!(
        AdapterFailure::from_raw(adapter.failure.as_raw()),
        AdapterFailure::ActionReceiver
    );
}

#[test]
fn adapter_reply_sender_close_yields_one_error_then_eof() {
    let mut adapter = PythonBodyAdapter::new(AdapterMode::Next, None);
    assert!(matches!(adapter.begin_action(), AdapterStep::Enqueue(BodyAction::Next)));
    assert!(matches!(adapter.poll_next(AdapterEvent::Queued), AdapterPoll::Pending));
    assert_body_error_then_eof(&mut adapter, AdapterEvent::Closed(BridgeClosed::ReplySender));
    assert_eq!(AdapterFailure::from_raw(adapter.failure.as_raw()), AdapterFailure::ReplySender);
}

#[test]
fn action_payloads_are_explicitly_worker_safe() {
    assert_worker_payload::<HookAction>();
    assert_worker_payload::<HookReply>();
}

#[test]
fn origin_owner_and_python_handles_are_not_worker_payloads() {
    let _ = <OriginHookOwner as AmbiguousIfWorkerPayload<_>>::marker;
    let _ = <pyo3::Py<pyo3::PyAny> as AmbiguousIfWorkerPayload<_>>::marker;
}

#[test]
fn cookie_pipeline_payloads_are_worker_safe() {
    assert_worker_payload::<CookiePipelineAction>();
    assert_worker_payload::<CookiePipelineReply>();
}

#[test]
fn cookie_origin_owner_is_not_a_worker_payload() {
    let _ = <OriginCookiePipelineOwner as AmbiguousIfWorkerPayload<_>>::marker;
}

#[test]
fn cookie_origin_owner_is_not_send_or_sync() {
    let _ = <OriginCookiePipelineOwner as AmbiguousIfSend<_>>::marker;
    let _ = <OriginCookiePipelineOwner as AmbiguousIfSync<_>>::marker;
}

#[test]
fn cookie_pipeline_ids_are_category_specific_and_range_checked() {
    assert_eq!(response_index(ResponseId(0), 1), Some(0));
    assert_eq!(response_index(ResponseId(1), 1), None);
    assert_eq!(snapshot_index(SnapshotId(0), 1), Some(0));
    assert_eq!(snapshot_index(SnapshotId(1), 1), None);
    assert_eq!(header_index(HeaderId(0), 1), Some(0));
    assert_eq!(header_index(HeaderId(1), 1), None);
}

#[test]
fn response_payloads_and_origin_owner_are_explicit() {
    assert_worker_payload::<ResponseAction>();
    assert_worker_payload::<ResponseReply>();

    let action = ResponseAction::Read { size: 7 };
    assert!(matches!(action, ResponseAction::Read { size: 7 }));
    let reply = ResponseReply::Chunk(vec![1, 2, 3]);
    assert!(matches!(reply, ResponseReply::Chunk(chunk) if chunk == [1, 2, 3]));
    assert_eq!(
        ResponseWorkerFailure::from_raw(ResponseWorkerFailure::ReplySender as u8),
        ResponseWorkerFailure::ReplySender
    );

    let _origin_owner_must_not_be_a_worker_payload =
        <OriginResponseOwner as AmbiguousIfWorkerPayload<_>>::marker;
    let _python_handle_must_not_be_a_worker_payload =
        <pyo3::Py<pyo3::PyAny> as AmbiguousIfWorkerPayload<_>>::marker;
}

#[test]
fn probe_payloads_are_explicit_worker_payloads() {
    assert_worker_payload::<ProbeAction>();
    assert_worker_payload::<ProbeReply>();
}

#[test]
fn a_request_is_taken_apart() {
    let request = ActionRequest { action: BodyAction::Next, reply: 7usize };
    let (action, reply) = request.into_parts();
    assert!(matches!(action, BodyAction::Next));
    assert_eq!(reply, 7);
}

#[test]
fn only_the_first_error_of_a_handler_is_kept() {
    let mut slot = None;
    store_handler_error(&mut slot, 4);
    store_handler_error(&mut slot, 9);
    assert_eq!(slot, Some(4));
}

#[test]
fn a_closed_bridge_says_which_end_is_gone() {
    assert_eq!(BridgeClosed::ActionReceiver.message(), "Python action receiver closed");
    assert_eq!(BridgeClosed::ReplySender.message(), "Python action reply sender closed");
}

#[test]
fn a_stream_hands_on_the_bytes_of_a_chunk() {
    let mut adapter = PythonBodyAdapter::new(AdapterMode::Read, Some(9)).with_lifecycle_counters();
    assert_eq!(adapter.size_hint(), Some(9));
    assert!(matches!(
        adapter.begin_action(),
        AdapterStep::Enqueue(BodyAction::Read { size: 4 })
    ));
    assert!(matches!(adapter.poll_next(AdapterEvent::Queued), AdapterPoll::Pending));
    match adapter.poll_next(AdapterEvent::Reply(BodyReply::Chunk(vec![5, 6, 7]))) {
        AdapterPoll::Item(bytes) => assert_eq!(&bytes[..], &[5, 6, 7]),
        _ => panic!("expected a chunk"),
    }
    assert_eq!(adapter.state, AdapterState::Idle);
    assert!(matches!(adapter.begin_action(), AdapterStep::Enqueue(_)));
    assert!(matches!(adapter.poll_next(AdapterEvent::Queued), AdapterPoll::Pending));
    match adapter.poll_next(AdapterEvent::Reply(BodyReply::Skip)) {
        AdapterPoll::Item(bytes) => assert!(bytes.is_empty()),
        _ => panic!("expected an empty chunk"),
    }
    assert!(matches!(adapter.begin_action(), AdapterStep::Enqueue(_)));
    assert!(matches!(adapter.poll_next(AdapterEvent::Queued), AdapterPoll::Pending));
    assert!(matches!(
        adapter.poll_next(AdapterEvent::Reply(BodyReply::End)),
        AdapterPoll::End
    ));
    assert_eq!(adapter.failure, AdapterFailure::Absent);
}

#[test]
fn collecting_leaves_out_empty_pieces() {
    let mut adapter = PythonBodyAdapter::new(AdapterMode::Next, None);
    let mut collected = Collected::new(2);
    let replies = vec![
        BodyReply::Chunk(vec![1]),
        BodyReply::Skip,
        BodyReply::Chunk(vec![2, 3]),
    ];
    for reply in replies {
        assert!(collected.wants_more());
        adapter.begin_action();
        adapter.poll_next(AdapterEvent::Queued);
        let poll = adapter.poll_next(AdapterEvent::Reply(reply));
        collected.take(poll);
    }
    assert_eq!(collected.chunks, vec![vec![1u8], vec![2, 3]]);
    assert!(!collected.wants_more());
}

#[test]
fn a_whole_body_is_taken_once() {
    let mut source = OriginBodySource::Once { pending: true, cached: false };
    assert!(matches!(body_action(&mut source, BodyAction::Next), OriginCall::TakeBody));
    assert!(matches!(body_action(&mut source, BodyAction::Next), OriginCall::AnswerEnd));
    let mut reading = OriginBodySource::Read;
    assert!(matches!(
        body_action(&mut reading, BodyAction::Read { size: 3 }),
        OriginCall::Read(3)
    ));
    assert!(matches!(body_action(&mut reading, BodyAction::Next), OriginCall::Refuse));
    assert_eq!(refusal_message(), "Python body adapter received an unexpected action");
}

#[test]
fn answers_keep_the_first_error() {
    let mut error = None;
    assert!(matches!(
        answer_action(OriginCall::Next, OriginOutcome::Raised(3), &mut error),
        BodyReply::Failed
    ));
    assert_eq!(error, Some(3));
    assert!(matches!(
        answer_action(OriginCall::Next, OriginOutcome::Exhausted, &mut error),
        BodyReply::End
    ));
    assert!(matches!(
        answer_action(OriginCall::Next, OriginOutcome::Falsy, &mut error),
        BodyReply::Skip
    ));
    assert!(matches!(
        answer_action(OriginCall::Read(4), OriginOutcome::Falsy, &mut error),
        BodyReply::End
    ));
}

#[test]
fn a_body_source_is_chosen_by_kind() {
    assert!(matches!(select_body_source(BodyKind::Nothing), SelectStep::Nothing));
    assert!(matches!(
        select_body_source(BodyKind::Other),
        SelectStep::Ask(BodyQuestion::HasRead)
    ));
    assert!(matches!(
        select_after(BodyQuestion::HasRead, BodyAnswer::Yes),
        SelectStep::Selected(BodySelection { mode: AdapterMode::Read, .. })
    ));
    assert!(matches!(
        select_after(BodyQuestion::Representation, BodyAnswer::Yes),
        SelectStep::Unsupported
    ));
    assert_eq!(
        unsupported_body_message("<object>"),
        "'body' must be a bytes-like object, file-like object, or iterable. Instead was <object>"
    );
}

#[test]
fn chunks_are_converted_by_kind() {
    assert!(matches!(chunk_conversion(BodyKind::Text), ChunkConversion::Encode));
    assert!(matches!(chunk_conversion(BodyKind::Bytes), ChunkConversion::Copy));
    assert!(matches!(chunk_conversion(BodyKind::Other), ChunkConversion::View));
    assert!(matches!(chunk_error(true, false), ChunkError::View));
    assert!(matches!(chunk_error(true, true), ChunkError::Length));
}

#[test]
fn a_failed_stream_is_reported() {
    assert!(matches!(
        report_stream(Some(6), AdapterFailure::Handler),
        StreamReport::RaiseHandlerError(6)
    ));
    assert!(matches!(
        report_stream(None, AdapterFailure::ReplySender),
        StreamReport::RaiseFailure(AdapterFailure::ReplySender)
    ));
    assert!(matches!(report_stream(None, AdapterFailure::Absent), StreamReport::Chunks));
    assert_eq!(bridge_error(AdapterFailure::ReplySender), "Python action reply sender closed");
}

#[test]
fn the_last_replacing_hook_wins() {
    let mut dispatch = HookDispatch::new();
    let mut owner = OriginHookOwner::new(40);
    let mut action = dispatch.start();
    let results = vec![
        HookResult::Object(41),
        HookResult::Nothing,
        HookResult::Object(42),
        HookResult::Exhausted,
    ];
    let mut seen = Vec::new();
    let mut outcome = None;
    for result in results {
        seen.push(owner.argument(action));
        let reply = owner.execute_action(result);
        match dispatch.dispatch_worker(Ok(reply)) {
            DispatchStep::Request(next) => action = next,
            DispatchStep::Finish(end) => outcome = Some(end),
        }
    }
    assert_eq!(seen, vec![Some(40), Some(41), Some(41), Some(42)]);
    assert_eq!(owner.finish(outcome.unwrap()), DispatchResult::Value(42));
}

#[test]
fn a_failing_hook_raises_its_own_error() {
    let mut dispatch = HookDispatch::new();
    let mut owner = OriginHookOwner::new(1);
    let reply = owner.execute_action(HookResult::Raised(8));
    assert_eq!(reply, HookReply::Failed);
    let step = dispatch.dispatch_worker(Ok(reply));
    assert_eq!(step, DispatchStep::Finish(HookOutcome::HandlerFailed));
    assert_eq!(owner.finish(HookOutcome::HandlerFailed), DispatchResult::Raise(8));
    let empty = OriginHookOwner::new(1);
    assert_eq!(
        empty.finish(HookOutcome::HandlerFailed).message().unwrap(),
        "hook dispatch callback failed without preserving its Python exception"
    );
    assert_eq!(
        empty.finish(HookOutcome::Complete(HookValueId { index: 3 })).message().unwrap(),
        "hook dispatch lost its final Python value"
    );
    assert_eq!(empty.argument(HookAction::Call(HookValueId { index: 3 })), None);
    assert_eq!(unknown_value_message(), "hook dispatch referenced an unknown Python value");
    assert_eq!(
        dispatch.dispatch_worker(Err(BridgeClosed::ReplySender)),
        DispatchStep::Finish(HookOutcome::BridgeClosed(BridgeClosed::ReplySender))
    );
}

#[test]
fn hooks_are_selected_and_deregistered() {
    assert_eq!(select_hooks(false, true), HookSelection::ReturnData);
    assert_eq!(select_hooks(true, true), HookSelection::Single);
    assert_eq!(select_hooks(true, false), HookSelection::Each);
    assert_eq!(deregister_hook(RemovalResult::Removed), Ok(true));
    assert_eq!(deregister_hook(RemovalResult::NotListed), Ok(false));
    assert_eq!(deregister_hook(RemovalResult::Raised(5)), Err(5));
}

#[test]
fn a_cancelled_worker_passes_its_check() {
    let mut worker = LifecycleWorker::new(CancelPhase::ReplyObserved);
    assert_eq!(worker.begin(), WorkerStep::Enqueue(ResponseAction::Read { size: 1 }));
    assert_eq!(worker.enqueued(Ok(())), WorkerStep::AwaitReply);
    assert_eq!(worker.phase, WorkerPhase::AwaitingReply);
    assert_eq!(worker.replied(Some(false)), WorkerStep::Pend);
    assert_eq!(worker.phase.as_raw(), 2);
    let facts = LifecycleFacts {
        worker_dropped: true,
        handler_error: None,
        queued: worker.queued,
        executed: 1,
        replies: worker.replies,
        raw_actions: 1,
        failure: worker.failure,
    };
    assert_eq!(response_lifecycle(CancelPhase::ReplyObserved, facts), None);
    let fault = response_lifecycle(CancelPhase::QueuedBeforeDequeue, facts).unwrap();
    assert_eq!(
        fault.message().unwrap(),
        "response lifecycle mismatch: queued=1, execute=1, replies=1, raw_actions=1"
    );
}

#[test]
fn a_worker_waits_where_it_is_cancelled() {
    let early = LifecycleWorker::new(CancelPhase::BeforePoll);
    assert_eq!(early.begin(), WorkerStep::Pend);
    let mut queued = LifecycleWorker::new(CancelPhase::QueuedBeforeDequeue);
    assert_eq!(queued.enqueued(Ok(())), WorkerStep::Pend);
    let mut cut = LifecycleWorker::new(CancelPhase::ReplyObserved);
    assert_eq!(cut.enqueued(Err(BridgeClosed::ActionReceiver)), WorkerStep::Finish);
    assert_eq!(cut.failure, ResponseWorkerFailure::ActionReceiver);
    let mut lost = LifecycleWorker::new(CancelPhase::ReplyObserved);
    assert_eq!(lost.replied(None), WorkerStep::Finish);
    assert_eq!(lost.failure, ResponseWorkerFailure::ReplySender);
    let mut failed = LifecycleWorker::new(CancelPhase::ReplyObserved);
    assert_eq!(failed.replied(Some(true)), WorkerStep::Pend);
    assert_eq!(failed.failure, ResponseWorkerFailure::Handler);
}

#[test]
fn faults_of_a_worker_come_in_order() {
    let mut facts = LifecycleFacts {
        worker_dropped: false,
        handler_error: Some(3),
        queued: 0,
        executed: 0,
        replies: 0,
        raw_actions: 0,
        failure: ResponseWorkerFailure::Handler,
    };
    assert_eq!(
        response_lifecycle(CancelPhase::BeforePoll, facts),
        Some(LifecycleFault::WorkerAlive)
    );
    facts.worker_dropped = true;
    assert_eq!(
        response_lifecycle(CancelPhase::BeforePoll, facts),
        Some(LifecycleFault::Raise(3))
    );
    facts.handler_error = None;
    let fault = response_lifecycle(CancelPhase::BeforePoll, facts).unwrap();
    assert_eq!(fault.message().unwrap(), "response worker failed: Handler");
    assert_eq!(
        LifecycleFault::WorkerAlive.message().unwrap(),
        "response worker was not dropped before its origin owner"
    );
    assert_eq!(LifecycleFault::Raise(3).message(), None);
}

#[test]
fn phases_are_waited_for() {
    assert_eq!(
        wait_for_worker_phase(1, WorkerPhase::AwaitingReply, true),
        PhaseWait::Reached
    );
    assert_eq!(
        wait_for_worker_phase(0, WorkerPhase::AwaitingReply, true),
        PhaseWait::TimedOut
    );
    assert_eq!(
        wait_for_worker_phase(0, WorkerPhase::AwaitingReply, false),
        PhaseWait::Sleep
    );
    assert_eq!(
        WorkerKind::Body.late_message("reply-observed"),
        "body worker did not reach reply-observed"
    );
    assert_eq!(
        WorkerKind::Response.late_message("queued-before-dequeue"),
        "response worker did not reach queued-before-dequeue"
    );
    assert_eq!(WorkerKind::Body.require_worker_dropped(3), None);
    assert_eq!(
        WorkerKind::Body.require_worker_dropped(2).unwrap(),
        "body worker was not dropped before its origin owner"
    );
    assert_eq!(lifecycle_phase("before-poll"), Some(CancelPhase::BeforePoll));
    assert_eq!(lifecycle_phase("later"), None);
}

#[test]
fn signals_wait_for_the_worker() {
    assert_eq!(signal_step(CancelPhase::BeforePoll, 0), SignalStep::Raise);
    assert_eq!(
        signal_step(CancelPhase::QueuedBeforeDequeue, 0),
        SignalStep::RaiseAt(WorkerPhase::AwaitingReply)
    );
    assert_eq!(signal_step(CancelPhase::ReplyObserved, 0), SignalStep::Quiet);
    assert_eq!(
        signal_step(CancelPhase::ReplyObserved, 1),
        SignalStep::RaiseAt(WorkerPhase::ReplyObserved)
    );
}

#[test]
fn a_response_is_read_from_its_stream() {
    let action = ResponseAction::Read { size: 4 };
    assert_eq!(response_read_action(action, true), ReadCall::NextOfStream { size: 4 });
    assert_eq!(response_read_action(action, false), ReadCall::ReadRaw { size: 4 });
    let mut error = None;
    assert!(matches!(
        response_action(ReadOutcome::Bytes(vec![9]), &mut error),
        ResponseReply::Chunk(chunk) if chunk == [9]
    ));
    assert!(matches!(response_action(ReadOutcome::Empty, &mut error), ResponseReply::End));
    assert!(matches!(response_action(ReadOutcome::Exhausted, &mut error), ResponseReply::End));
    assert!(matches!(response_action(ReadOutcome::Raised(2), &mut error), ResponseReply::Failed));
    assert!(matches!(response_action(ReadOutcome::Raised(5), &mut error), ResponseReply::Failed));
    assert_eq!(error, Some(2));
    assert_eq!(count_up(254), 255);
    assert_eq!(count_up(255), 255);
    assert_eq!(
        response_worker_failure(BridgeClosed::ActionReceiver),
        ResponseWorkerFailure::ActionReceiver
    );
}

#[test]
fn failures_are_told_by_number() {
    for value in 0u8..4 {
        assert_eq!(ResponseWorkerFailure::from_raw(value).as_raw(), value);
        assert_eq!(AdapterFailure::from_raw(value).as_raw(), value);
    }
    assert_eq!(ResponseWorkerFailure::from_raw(9), ResponseWorkerFailure::Absent);
}

#[test]
fn cutting_the_bridge_of_a_body_is_checked() {
    assert_eq!(disconnect_mode("action-receiver"), Ok(DisconnectMode::ActionReceiver));
    assert_eq!(disconnect_mode("reply-sender"), Ok(DisconnectMode::ReplySender));
    assert_eq!(
        disconnect_mode("both"),
        Err(String::from("unknown body disconnect mode: both"))
    );
    assert_eq!(
        disconnect_fault(DisconnectMode::ReplySender, AdapterFailure::ReplySender),
        None
    );
    assert_eq!(
        disconnect_fault(DisconnectMode::ReplySender, AdapterFailure::Absent).unwrap(),
        "body disconnect mismatch: expected ReplySender, observed None"
    );
    assert_eq!(EmptyBodyUse::Cancel.message(), "cannot cancel an empty body");
    assert_eq!(EmptyBodyUse::Poll.message(), "cannot poll an empty body");
    assert_eq!(EmptyBodyUse::Disconnect.message(), "cannot disconnect an empty body");
}
