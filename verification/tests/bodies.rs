use requests_native::body_prepare::{
    cancel_body_at_phase, cancel_phase, content_length_globals, continue_content_length,
    hex_record, prepare_body_globals, prepare_content_length, rewind_body, rewind_globals,
    undefined_name_message, unpack_pair, Answer, BodyCall, BodyPreparation, BodyValue,
    CancelError, CancelFacts, CancelPhase, ContentType, LengthCall, RewindCall,
};
use requests_native::body_stream::AdapterFailure;

fn prepare(json_given: bool, answers: &[Answer]) -> BodyPreparation {
    let mut preparation = BodyPreparation::new(json_given);
    for answer in answers {
        preparation.prepare_body(*answer);
    }
    preparation
}

#[test]
fn json_is_serialized_where_there_is_no_data() {
    let begun = prepare(true, &[]);
    assert_eq!(begun.call, BodyCall::TestData);
    assert_eq!(prepare(true, &[Answer::No]).call, BodyCall::SerializeJson);
    let serialized = prepare(true, &[Answer::No, Answer::Done]);
    assert_eq!(serialized.call, BodyCall::TestSerializedBytes);
    assert_eq!(serialized.memory.content_type, ContentType::Json);
    assert_eq!(
        prepare(true, &[Answer::No, Answer::Raised]).call,
        BodyCall::MatchValueError
    );
    assert_eq!(
        prepare(true, &[Answer::No, Answer::Raised, Answer::Yes]).call,
        BodyCall::RaiseInvalidJson
    );
    assert_eq!(
        prepare(true, &[Answer::No, Answer::Raised, Answer::No]).call,
        BodyCall::RaiseCurrent
    );
}

#[test]
fn a_stream_is_measured_and_placed() {
    let answers = [
        Answer::Yes,
        Answer::Yes,
        Answer::No,
        Answer::Done,
        Answer::Yes,
        Answer::Done,
        Answer::Done,
        Answer::No,
        Answer::Yes,
    ];
    assert_eq!(prepare(false, &answers[..3]).call, BodyCall::MeasureStream);
    assert_eq!(prepare(false, &answers[..5]).call, BodyCall::CallTell);
    assert_eq!(prepare(false, &answers[..7]).call, BodyCall::TestFiles);
    let measured = prepare(false, &answers);
    assert_eq!(measured.call, BodyCall::SetContentLength);
    assert_eq!(measured.memory.body, BodyValue::Data);
}

#[test]
fn files_and_a_stream_exclude_each_other() {
    let mut preparation = BodyPreparation::new(false);
    let mut asked = Vec::new();
    for _ in 0..40 {
        asked.push(preparation.call);
        let answer = match preparation.call {
            BodyCall::TestData => Answer::Yes,
            BodyCall::TestIterable | BodyCall::TestHasIter => Answer::Yes,
            BodyCall::TestExcluded => Answer::No,
            BodyCall::TestFiles | BodyCall::FetchTell => Answer::Yes,
            BodyCall::Finished | BodyCall::RaiseExclusive | BodyCall::RaiseCurrent => break,
            _ => Answer::Done,
        };
        preparation.prepare_body(answer);
    }
    assert_eq!(preparation.call, BodyCall::RaiseExclusive);
    assert!(asked.contains(&BodyCall::TestFiles));
}

#[test]
fn raw_text_is_sent_as_a_form() {
    let mut preparation = BodyPreparation::new(false);
    for _ in 0..40 {
        let answer = match preparation.call {
            BodyCall::TestData | BodyCall::TestRawData | BodyCall::TestText => Answer::Yes,
            BodyCall::TestIterable | BodyCall::TestHasIter => Answer::No,
            BodyCall::TestExcluded => Answer::Yes,
            BodyCall::TestFiles | BodyCall::TestHasRead | BodyCall::TestHeader => Answer::No,
            BodyCall::TestContentType => Answer::Yes,
            BodyCall::Finished | BodyCall::RaiseCurrent => break,
            _ => Answer::Done,
        };
        preparation.prepare_body(answer);
    }
    assert_eq!(preparation.call, BodyCall::Finished);
    assert_eq!(preparation.memory.body, BodyValue::Params);
}

#[test]
fn a_missing_body_has_length_zero_except_for_some_methods() {
    assert_eq!(prepare_content_length(false), LengthCall::MeasureBody);
    assert_eq!(prepare_content_length(true), LengthCall::TestMethod);
    assert_eq!(
        continue_content_length(LengthCall::TestMethod, Answer::Yes),
        LengthCall::Finished
    );
    assert_eq!(
        continue_content_length(LengthCall::TestMethod, Answer::No),
        LengthCall::TestMissing
    );
    assert_eq!(
        continue_content_length(LengthCall::TestMissing, Answer::Yes),
        LengthCall::SetZero
    );
    assert_eq!(
        continue_content_length(LengthCall::SetZero, Answer::Done),
        LengthCall::Finished
    );
    assert_eq!(
        continue_content_length(LengthCall::SetZero, Answer::Raised),
        LengthCall::RaiseCurrent
    );
}

#[test]
fn a_body_is_rewound_or_an_error_tells_why_not() {
    assert_eq!(rewind_body(RewindCall::FetchSeek, Answer::Yes), RewindCall::TestPosition);
    assert_eq!(rewind_body(RewindCall::FetchSeek, Answer::No), RewindCall::RaiseUnable);
    assert_eq!(rewind_body(RewindCall::TestPosition, Answer::No), RewindCall::RaiseUnable);
    assert_eq!(rewind_body(RewindCall::TestPosition, Answer::Yes), RewindCall::Seek);
    assert_eq!(rewind_body(RewindCall::Seek, Answer::Done), RewindCall::Finished);
    assert_eq!(rewind_body(RewindCall::Seek, Answer::Raised), RewindCall::MatchSeekError);
    assert_eq!(
        rewind_body(RewindCall::MatchSeekError, Answer::Yes),
        RewindCall::RaiseSeekFailed
    );
    assert_eq!(
        RewindCall::RaiseUnable.message().unwrap(),
        "Unable to rewind request body for redirect."
    );
    assert_eq!(
        RewindCall::RaiseSeekFailed.message().unwrap(),
        "An error occurred when rewinding request body for redirect."
    );
    assert_eq!(RewindCall::Seek.message(), None);
}

#[test]
fn pairs_are_unpacked() {
    assert_eq!(unpack_pair(&vec![1, 2]), Ok((1, 2)));
    assert_eq!(
        unpack_pair(&vec![1]),
        Err(String::from("not enough values to unpack (expected 2, got 1)"))
    );
    assert_eq!(
        unpack_pair(&vec![1, 2, 3]),
        Err(String::from("too many values to unpack (expected 2)"))
    );
}

#[test]
fn bytes_are_recorded_as_digits() {
    assert_eq!(hex_record(&[0, 15, 16, 255]), "000f10ff");
    assert_eq!(hex_record(&[]), "");
}

#[test]
fn names_are_told_when_undefined() {
    assert_eq!(undefined_name_message("super_len"), "name 'super_len' is not defined");
    assert!(prepare_body_globals().contains(&"super_len"));
    assert!(content_length_globals().contains(&"super_len"));
    assert!(!rewind_globals().is_empty());
}

#[test]
fn a_cancelled_body_is_checked() {
    assert_eq!(cancel_phase("reply-observed"), Ok(CancelPhase::ReplyObserved));
    assert!(cancel_phase("never").is_err());
    let clean = CancelFacts {
        worker_dropped: true,
        queued: 0,
        executed: 0,
        replies: 0,
        handler_failed: false,
        failure: AdapterFailure::Absent,
    };
    assert_eq!(cancel_body_at_phase(CancelPhase::BeforePoll, clean), None);
    let alive = CancelFacts { worker_dropped: false, ..clean };
    assert_eq!(
        cancel_body_at_phase(CancelPhase::BeforePoll, alive),
        Some(CancelError::WorkerAlive)
    );
    let queued = CancelFacts { queued: 1, ..clean };
    assert!(cancel_body_at_phase(CancelPhase::BeforePoll, queued).is_some());
    assert_eq!(cancel_body_at_phase(CancelPhase::QueuedBeforeDequeue, queued), None);
    let observed = CancelFacts { queued: 1, executed: 1, replies: 1, ..clean };
    assert_eq!(cancel_body_at_phase(CancelPhase::ReplyObserved, observed), None);
}
