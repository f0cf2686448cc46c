use requests_native::response_lines::{LinesStep, NativeLinesIterator, TailFacts};
use requests_native::errors::MappedName;
use requests_native::response_meta::{
    drop_plan, fallback_metadata, ok_dispatch, pickle_operation, redirects, repr_template,
    response_event, CheckEnd, CloseAnswer, CloseStep, DropPlan, MetadataPlan, PickleAnswer,
    PickleOperation, PickleStep, ResponseEvent, StatusAnswer, StatusError, StatusStep, Verdict,
};
use requests_native::response_read::{
    already_consumed_message, apparent_encoding, invalid_chunk_size, is_guessable,
    native_iter_content, ContentStep, EncodingChoice, JsonAnswer, JsonSource, JsonStep,
    JsonWrapStep, NativeContentIterator, PieceAnswer, PieceCall, PieceStep, PiecesPlan, StepAnswer,
    TextAnswer, TextStep, WrapAnswer, WrapStep,
};
use requests_native::response_state::{ResponseFault, ResponseGlobal, ResponseMember};

fn content(answers: &[StepAnswer]) -> Vec<ContentStep> {
    let mut steps = vec![ContentStep::first()];
    for answer in answers {
        steps.push(steps[steps.len() - 1].content_dispatch(*answer));
    }
    steps
}

#[test]
fn unread_content_is_read_and_kept() {
    let answers = [
        StepAnswer::Yes,
        StepAnswer::No,
        StepAnswer::No,
        StepAnswer::No,
        StepAnswer::Done,
        StepAnswer::Done,
        StepAnswer::Done,
    ];
    assert_eq!(
        content(&answers),
        vec![
            ContentStep::TestUnread,
            ContentStep::TestConsumed,
            ContentStep::TestStatus,
            ContentStep::TestRaw,
            ContentStep::ReadAll,
            ContentStep::Store,
            ContentStep::MarkConsumed,
            ContentStep::Return
        ]
    );
}

#[test]
fn kept_content_is_not_read_again() {
    assert_eq!(
        content(&[StepAnswer::No, StepAnswer::Done]),
        vec![ContentStep::TestUnread, ContentStep::MarkConsumed, ContentStep::Return]
    );
    assert_eq!(
        content(&[StepAnswer::Yes, StepAnswer::Yes])[2],
        ContentStep::AlreadyConsumed
    );
    assert_eq!(
        already_consumed_message(),
        "The content for this response was already consumed"
    );
    assert_eq!(content(&[StepAnswer::Raised])[1], ContentStep::Raise);
}

#[test]
fn a_response_without_status_or_stream_has_no_content() {
    assert_eq!(
        content(&[StepAnswer::Yes, StepAnswer::No, StepAnswer::Yes])[3],
        ContentStep::Clear
    );
    assert_eq!(
        content(&[StepAnswer::Yes, StepAnswer::No, StepAnswer::No, StepAnswer::Yes])[4],
        ContentStep::Clear
    );
}

fn text(answers: &[TextAnswer]) -> TextStep {
    let mut step = TextStep::first();
    for answer in answers {
        step = step.text_dispatch(*answer);
    }
    step
}

#[test]
fn text_is_decoded_as_told_or_guessed() {
    let told = [TextAnswer::Done, TextAnswer::Yes, TextAnswer::No, TextAnswer::Done, TextAnswer::Yes];
    assert_eq!(text(&told), TextStep::Decode(EncodingChoice::Given));
    let guessed = [
        TextAnswer::Done,
        TextAnswer::Yes,
        TextAnswer::Yes,
        TextAnswer::Done,
        TextAnswer::Done,
        TextAnswer::Yes,
    ];
    assert_eq!(text(&guessed), TextStep::Decode(EncodingChoice::Apparent));
    assert_eq!(text(&[TextAnswer::Done, TextAnswer::No]), TextStep::ReturnEmpty);
}

#[test]
fn an_unsuitable_encoding_is_given_up() {
    let answers = [
        TextAnswer::Done,
        TextAnswer::Yes,
        TextAnswer::No,
        TextAnswer::Done,
        TextAnswer::Yes,
        TextAnswer::Unsuitable,
        TextAnswer::Done,
        TextAnswer::Done,
    ];
    assert_eq!(text(&answers[..6]), TextStep::ReadAgain);
    assert_eq!(text(&answers[..7]), TextStep::DecodePlain);
    assert_eq!(text(&answers), TextStep::Return);
}

fn json(answers: &[JsonAnswer]) -> JsonStep {
    let mut step = JsonStep::first();
    for answer in answers {
        step = step.json_dispatch(*answer);
    }
    step
}

#[test]
fn json_is_guessed_only_without_an_encoding() {
    let with_encoding = [JsonAnswer::Done, JsonAnswer::Done, JsonAnswer::Yes];
    assert_eq!(json(&with_encoding), JsonStep::ReadText);
    let guessed = [
        JsonAnswer::Done,
        JsonAnswer::Done,
        JsonAnswer::No,
        JsonAnswer::Yes,
        JsonAnswer::Yes,
        JsonAnswer::Yes,
        JsonAnswer::Done,
        JsonAnswer::Done,
    ];
    assert_eq!(json(&guessed[..7]), JsonStep::Load(JsonSource::Guessed));
    assert_eq!(json(&guessed), JsonStep::Return);
    let mut undecodable = guessed[..6].to_vec();
    undecodable.push(JsonAnswer::Undecodable);
    assert_eq!(json(&undecodable), JsonStep::ReadText);
    assert!(is_guessable(4));
    assert!(!is_guessable(3));
}

#[test]
fn pieces_come_from_the_content_once_it_is_read() {
    assert_eq!(native_iter_content(true, true, true), PiecesPlan::StreamConsumed);
    assert_eq!(native_iter_content(true, false, true), PiecesPlan::Slices);
    assert_eq!(native_iter_content(false, false, true), PiecesPlan::Stream);
    assert_eq!(native_iter_content(false, false, false), PiecesPlan::InvalidSize);
    assert_eq!(
        invalid_chunk_size(Some("<class 'str'>")),
        "chunk_size must be an int, it is instead a <class 'str'>."
    );
    assert_eq!(
        invalid_chunk_size(None),
        "chunk_size must be an int, it is instead a <unknown type>."
    );
    assert_eq!(apparent_encoding(true), Some("utf-8"));
    assert_eq!(apparent_encoding(false), None);
}

#[test]
fn a_stream_is_read_piece_by_piece() {
    let mut iterator = NativeContentIterator::new();
    assert_eq!(iterator.begin(), PieceStep::Call(PieceCall::CheckStream));
    assert_eq!(
        iterator.proceed(PieceCall::CheckStream, PieceAnswer::Yes),
        PieceStep::Call(PieceCall::OpenStream)
    );
    assert_eq!(
        iterator.proceed(PieceCall::OpenStream, PieceAnswer::Object(5)),
        PieceStep::Call(PieceCall::NextOf(5))
    );
    assert_eq!(
        iterator.proceed(PieceCall::NextOf(5), PieceAnswer::Object(6)),
        PieceStep::Yield(6)
    );
    assert_eq!(
        iterator.proceed(PieceCall::NextOf(5), PieceAnswer::Nothing),
        PieceStep::Call(PieceCall::MarkConsumed)
    );
    assert_eq!(
        iterator.proceed(PieceCall::MarkConsumed, PieceAnswer::Done),
        PieceStep::End
    );
    assert_eq!(iterator.begin(), PieceStep::End);
}

fn lines_of(pieces: Vec<(Vec<usize>, bool)>) -> Vec<usize> {
    let mut iterator = NativeLinesIterator::new();
    let mut pieces = pieces.into_iter();
    let mut lines = Vec::new();
    loop {
        match iterator.begin() {
            LinesStep::Yield(line) => lines.push(line),
            LinesStep::OpenChunks => iterator.open_chunks(77),
            LinesStep::NextOf(chunks) => {
                assert_eq!(chunks, 77);
                match pieces.next() {
                    Some((split, unfinished)) => {
                        iterator.take_pending();
                        iterator.load_lines(
                            split,
                            TailFacts {
                                last_is_true: true,
                                chunk_is_true: true,
                                same_tail: unfinished,
                            },
                        );
                    }
                    None => iterator.end_chunks(),
                }
            }
            LinesStep::End => return lines,
        }
    }
}

#[test]
fn every_line_comes_out_in_order() {
    assert_eq!(lines_of(vec![(vec![1, 2], false), (vec![3], false)]), vec![1, 2, 3]);
    assert_eq!(lines_of(vec![(vec![1, 2], true), (vec![3], false)]), vec![1, 3]);
    assert_eq!(lines_of(vec![(vec![1, 2], true)]), vec![1, 2]);
    assert_eq!(lines_of(vec![]), Vec::<usize>::new());
}

#[test]
fn an_unfinished_line_waits_for_the_next_piece() {
    let mut iterator = NativeLinesIterator::new();
    iterator.open_chunks(1);
    iterator.load_lines(
        vec![4, 5],
        TailFacts { last_is_true: true, chunk_is_true: true, same_tail: true },
    );
    assert_eq!(iterator.begin(), LinesStep::Yield(4));
    assert_eq!(iterator.begin(), LinesStep::NextOf(1));
    assert_eq!(iterator.take_pending(), Some(5));
    assert_eq!(iterator.take_pending(), None);
    assert_eq!(iterator.close(), Some(1));
    assert_eq!(iterator.begin(), LinesStep::End);
}

fn status_end(status: i32, reason_is_bytes: bool, undecodable: bool) -> StatusStep {
    let mut step = StatusStep::first();
    for _ in 0..20 {
        let answer = match step {
            StatusStep::TestReason => {
                if reason_is_bytes {
                    StatusAnswer::Yes
                } else {
                    StatusAnswer::No
                }
            }
            StatusStep::DecodeUtf8 => {
                if undecodable {
                    StatusAnswer::Undecodable
                } else {
                    StatusAnswer::Done
                }
            }
            StatusStep::AtLeast(bound) => {
                if bound <= status {
                    StatusAnswer::Yes
                } else {
                    StatusAnswer::No
                }
            }
            StatusStep::Below(bound) => {
                if status < bound {
                    StatusAnswer::Yes
                } else {
                    StatusAnswer::No
                }
            }
            _ => StatusAnswer::Done,
        };
        step = step.raise_for_status_dispatch(answer);
    }
    step
}

#[test]
fn client_and_server_errors_are_told_apart() {
    assert_eq!(status_end(200, false, false), StatusStep::Return);
    assert_eq!(status_end(399, false, false), StatusStep::Return);
    assert_eq!(status_end(400, false, false), StatusStep::RaiseStatus(StatusError::Client));
    assert_eq!(status_end(499, true, false), StatusStep::RaiseStatus(StatusError::Client));
    assert_eq!(status_end(500, true, true), StatusStep::RaiseStatus(StatusError::Server));
    assert_eq!(status_end(599, false, false), StatusStep::RaiseStatus(StatusError::Server));
    assert_eq!(status_end(600, false, false), StatusStep::Return);
    assert!(StatusError::Client.message_template().contains("Client Error"));
    assert!(StatusError::Server.message_template().contains("Server Error"));
}

#[test]
fn a_response_is_in_order_unless_its_status_says_otherwise() {
    assert_eq!(ok_dispatch(CheckEnd::Returned), Verdict::InOrder);
    assert_eq!(ok_dispatch(CheckEnd::HttpError), Verdict::NotInOrder);
    assert_eq!(ok_dispatch(CheckEnd::OtherError), Verdict::Raise);
    assert!(redirects(true, true));
    assert!(!redirects(false, true));
    assert!(!redirects(true, false));
    assert!(repr_template().contains("Response"));
}

#[test]
fn operations_are_known_by_name() {
    assert_eq!(fallback_metadata("repr"), MetadataPlan::CallRepr);
    assert_eq!(fallback_metadata("next"), MetadataPlan::ReadAttribute);
    assert_eq!(fallback_metadata("other"), MetadataPlan::Unknown);
    assert_eq!(pickle_operation("get"), PickleOperation::Get);
    assert_eq!(pickle_operation("set"), PickleOperation::Put);
    assert_eq!(pickle_operation("copy"), PickleOperation::Unknown);
    assert_eq!(drop_plan("untouched"), DropPlan::Nothing);
    assert_eq!(drop_plan("failed"), DropPlan::ReadOne);
    assert_eq!(drop_plan("cached"), DropPlan::ReadContent);
    assert_eq!(drop_plan("later"), DropPlan::Unknown);
    assert_eq!(response_event("clean-eof"), Ok(ResponseEvent::CleanEof));
    assert_eq!(
        response_event("late"),
        Err(String::from("unknown response event: late"))
    );
}

fn close(answers: &[CloseAnswer]) -> CloseStep {
    let mut step = CloseStep::first();
    for answer in answers {
        step = step.close_dispatch(*answer);
    }
    step
}

#[test]
fn closing_releases_the_connection() {
    let unread = [
        CloseAnswer::No,
        CloseAnswer::Done,
        CloseAnswer::Done,
        CloseAnswer::Done,
        CloseAnswer::No,
        CloseAnswer::Done,
    ];
    assert_eq!(close(&unread[..1]), CloseStep::CloseRaw);
    assert_eq!(close(&unread[..5]), CloseStep::Release);
    assert_eq!(close(&unread), CloseStep::Return);
    let read = [CloseAnswer::Yes, CloseAnswer::Done, CloseAnswer::Missing];
    assert_eq!(close(&read), CloseStep::Return);
}

#[test]
fn members_and_globals_are_numbered() {
    for index in 0..16 {
        assert_eq!(ResponseMember::at_index(index).index(), index);
    }
    for index in 0..35 {
        assert_eq!(ResponseGlobal::at_index(index).index(), index);
    }
    assert_eq!(ResponseMember::Content.name(), "content");
    assert!(ResponseMember::Content.property());
    assert!(!ResponseMember::Json.property());
    assert!(ResponseFault::MissingCode(ResponseMember::Close).message().is_some());
}

#[test]
fn the_state_of_a_response_holds_its_content() {
    let first = PickleStep::first(PickleOperation::Get);
    assert_eq!(first, PickleStep::TestConsumed);
    let copied = first.pickle_dispatch(PickleAnswer::Yes);
    assert_eq!(copied, PickleStep::CopyAttributes);
    let read = first.pickle_dispatch(PickleAnswer::No);
    assert_eq!(read, PickleStep::ReadContent);
    assert_eq!(read.pickle_dispatch(PickleAnswer::Done), PickleStep::CopyAttributes);
    assert_eq!(read.pickle_dispatch(PickleAnswer::Raised), PickleStep::Raise);
    assert_eq!(copied.pickle_dispatch(PickleAnswer::Done), PickleStep::ReturnState);
    assert_eq!(PickleStep::first(PickleOperation::Unknown), PickleStep::Raise);
}

#[test]
fn a_restored_response_is_consumed() {
    let mut step = PickleStep::first(PickleOperation::Put);
    let mut steps = vec![step];
    while step != PickleStep::Return {
        step = step.pickle_dispatch(PickleAnswer::Done);
        steps.push(step);
    }
    assert_eq!(
        steps,
        vec![
            PickleStep::SetAttributes,
            PickleStep::MarkConsumed,
            PickleStep::ClearRaw,
            PickleStep::Return
        ]
    );
    assert_eq!(step.pickle_dispatch(PickleAnswer::Done), PickleStep::Return);
}

fn wrapping(instances: [bool; 4]) -> (WrapStep, Vec<&'static str>) {
    let mut names = Vec::new();
    let mut step = WrapStep::first();
    loop {
        let answer = match step {
            WrapStep::Test(place) => {
                if instances[place] {
                    WrapAnswer::Yes
                } else {
                    WrapAnswer::No
                }
            }
            _ => match step.wanted() {
                Some(name) => {
                    names.push(name.name());
                    WrapAnswer::Found
                }
                None => return (step, names),
            },
        };
        step = step.wrap_stream_error(answer);
    }
}

#[test]
fn the_first_class_wraps_an_error_of_the_stream() {
    assert_eq!(
        wrapping([true, true, true, true]),
        (WrapStep::Wrap(0), vec!["ProtocolError", "ChunkedEncodingError"])
    );
    assert_eq!(
        wrapping([false, false, true, false]),
        (
            WrapStep::Wrap(2),
            vec!["ProtocolError", "DecodeError", "ReadTimeoutError", "ConnectionError"]
        )
    );
    assert_eq!(wrapping([false, false, false, true]).0, WrapStep::Wrap(3));
    assert_eq!(
        wrapping([false; 4]),
        (
            WrapStep::Original,
            vec!["ProtocolError", "DecodeError", "ReadTimeoutError", "SSLError"]
        )
    );
    assert_eq!(
        WrapStep::first().wrap_stream_error(WrapAnswer::Missing),
        WrapStep::Undefined(MappedName::ProtocolError)
    );
    assert_eq!(
        WrapStep::FindTarget(3).wrap_stream_error(WrapAnswer::Missing),
        WrapStep::Undefined(MappedName::RequestsSslError)
    );
    assert_eq!(
        WrapStep::Test(1).wrap_stream_error(WrapAnswer::Raised),
        WrapStep::RaiseCurrent
    );
}

#[test]
fn errors_of_the_json_decoder_are_wrapped() {
    let mut step = JsonWrapStep::first();
    let mut steps = vec![step];
    while step != JsonWrapStep::Wrap {
        step = step.wrap_json_error(StepAnswer::Yes);
        steps.push(step);
    }
    assert_eq!(
        steps,
        vec![
            JsonWrapStep::FindSource,
            JsonWrapStep::Test,
            JsonWrapStep::FindTarget,
            JsonWrapStep::ReadParts,
            JsonWrapStep::Wrap
        ]
    );
    assert_eq!(JsonWrapStep::Test.wrap_json_error(StepAnswer::No), JsonWrapStep::Original);
    assert_eq!(
        JsonWrapStep::ReadParts.wrap_json_error(StepAnswer::Raised),
        JsonWrapStep::Raise
    );
}
