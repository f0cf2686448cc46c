use requests_native::auth::{
    basic_class_name, basic_header_name, build_digest_header, coerce_credential,
    coerce_credential_after, credential_warning_message, CredentialKind, CredentialStep,
    DigestAction, DigestOutcome, DigestReply, DigestResult, DigestStep, DigestWorker, HeaderCall,
    HeaderEvent, OriginDigestOwner,
};
use requests_native::bridge::BridgeClosed;
use requests_native::resend::{
    holds_text, Digest401Action, Digest401Outcome, Digest401Reply, Digest401Result,
    Digest401Step, Digest401Worker, MissingPart, OriginDigest401Owner,
};
use requests_native::resend_action::{
    ActionCall, ActionPlace, ActionStep, AuditEntry, CallAnswer,
};

#[test]
fn text_is_found_within_text() {
    assert!(holds_text("Digest realm", "realm"));
    assert!(holds_text("realm", ""));
    assert!(!holds_text("Basic", "digest"));
    assert!(!holds_text("di", "digest"));
}

#[test]
fn a_digest_challenge_is_counted_and_answered() {
    let mut worker = Digest401Worker::new(1);
    assert!(matches!(worker.begin(Digest401Step::Seek), Some(Digest401Action::Seek)));
    assert!(worker.digest_401_worker(Digest401Step::Seek, Ok(Digest401Reply::Ack)).is_none());
    assert!(matches!(
        worker.begin(Digest401Step::Challenge),
        Some(Digest401Action::Challenge)
    ));
    let header = Digest401Reply::Header(String::from("DIGEST realm=\"a\""));
    assert!(worker.digest_401_worker(Digest401Step::Challenge, Ok(header)).is_none());
    assert!(matches!(
        worker.begin(Digest401Step::Increment),
        Some(Digest401Action::Increment401 { value: 2 })
    ));
    assert!(worker.digest_401_worker(Digest401Step::Increment, Ok(Digest401Reply::Ack)).is_none());
    assert!(matches!(
        worker.begin(Digest401Step::Parse),
        Some(Digest401Action::Parse { header }) if header == "DIGEST realm=\"a\""
    ));
    assert!(worker
        .digest_401_worker(Digest401Step::ReplaceRequest, Ok(Digest401Reply::Ack))
        .is_none());
    assert_eq!(worker.complete(), Digest401Outcome::Sent);
}

#[test]
fn other_challenges_go_back_as_they_are() {
    for (text, calls) in [("Basic realm=\"a\"", 1), ("Digest realm=\"a\"", 2)] {
        let mut worker = Digest401Worker::new(calls);
        let header = Digest401Reply::Header(String::from(text));
        assert!(worker.digest_401_worker(Digest401Step::Challenge, Ok(header)).is_none());
        assert!(matches!(
            worker.begin(Digest401Step::Increment),
            Some(Digest401Action::Reset401)
        ));
        assert_eq!(
            worker.digest_401_worker(Digest401Step::Increment, Ok(Digest401Reply::Ack)),
            Some(Digest401Outcome::Original)
        );
    }
}

#[test]
fn a_failed_action_ends_the_worker() {
    let mut worker = Digest401Worker::new(1);
    assert_eq!(
        worker.digest_401_worker(Digest401Step::Seek, Ok(Digest401Reply::Failed)),
        Some(Digest401Outcome::HandlerFailed)
    );
    assert_eq!(
        worker.digest_401_worker(Digest401Step::Seek, Err(BridgeClosed::ActionReceiver)),
        Some(Digest401Outcome::BridgeClosed(BridgeClosed::ActionReceiver))
    );
}

fn owner() -> OriginDigest401Owner {
    OriginDigest401Owner::new(1, 2, 3, 4, 5)
}

fn run(
    owner: &mut OriginDigest401Owner,
    action: &Digest401Action,
    answers: Vec<CallAnswer>,
) -> (Vec<ActionCall>, ActionStep) {
    let (mut place, first) = owner.begin_action();
    let mut calls = vec![first];
    for answer in answers {
        let (next, step) = owner.digest_401_action(action, place, answer);
        place = next;
        match step {
            ActionStep::Call(call) => calls.push(call),
            other => return (calls, other),
        }
    }
    panic!("the action did not end");
}

#[test]
fn a_body_is_rewound_where_it_can_be() {
    let mut owner = owner();
    let (calls, end) = run(
        &mut owner,
        &Digest401Action::Seek,
        vec![
            CallAnswer::Done,
            CallAnswer::Object(11),
            CallAnswer::Object(12),
            CallAnswer::Done,
            CallAnswer::Done,
        ],
    );
    assert_eq!(
        calls,
        vec![
            ActionCall::ThreadLocal,
            ActionCall::Position,
            ActionCall::FindSeek,
            ActionCall::Audit(AuditEntry::Seek),
            ActionCall::Rewind { seek: 12, position: 11 }
        ]
    );
    assert!(matches!(end, ActionStep::Reply(Digest401Reply::Ack)));
    let (calls, end) = run(
        &mut owner,
        &Digest401Action::Seek,
        vec![CallAnswer::Done, CallAnswer::Nothing],
    );
    assert_eq!(calls, vec![ActionCall::ThreadLocal, ActionCall::Position]);
    assert!(matches!(end, ActionStep::Reply(Digest401Reply::Ack)));
}

#[test]
fn the_header_is_built_recorded_and_set() {
    let mut owner = owner();
    let (_, end) = run(
        &mut owner,
        &Digest401Action::Copy,
        vec![CallAnswer::Done, CallAnswer::Done, CallAnswer::Object(20)],
    );
    assert!(matches!(end, ActionStep::Reply(Digest401Reply::Ack)));
    assert_eq!(owner.prepared, Some(20));
    let (calls, end) = run(
        &mut owner,
        &Digest401Action::BuildDigestHeader,
        vec![
            CallAnswer::Done,
            CallAnswer::Done,
            CallAnswer::Object(21),
            CallAnswer::Done,
            CallAnswer::Done,
        ],
    );
    assert_eq!(
        calls,
        vec![
            ActionCall::ThreadLocal,
            ActionCall::Audit(AuditEntry::Build),
            ActionCall::BuildHeader { request: 20 },
            ActionCall::Audit(AuditEntry::Header),
            ActionCall::SetHeader { request: 20, header: 21 }
        ]
    );
    assert!(matches!(end, ActionStep::Reply(Digest401Reply::Ack)));
}

#[test]
fn actions_tell_what_they_lack() {
    let mut owner = owner();
    let answers = || vec![CallAnswer::Done, CallAnswer::Done];
    let (calls, end) = run(&mut owner, &Digest401Action::Send, answers());
    assert_eq!(
        calls,
        vec![ActionCall::ThreadLocal, ActionCall::Audit(AuditEntry::Send)]
    );
    assert!(matches!(end, ActionStep::Missing(MissingPart::Request)));
    let (_, end) = run(&mut owner, &Digest401Action::AppendHistory, answers());
    assert!(matches!(end, ActionStep::Missing(MissingPart::Response)));
    assert_eq!(MissingPart::Request.message(), "digest resend has no prepared request");
    assert_eq!(MissingPart::Response.message(), "digest resend has no response");
    owner.keep_prepared(6);
    owner.keep_sent(7);
    let (_, end) = run(
        &mut owner,
        &Digest401Action::ReplaceRequest,
        vec![CallAnswer::Done, CallAnswer::Done, CallAnswer::Done],
    );
    assert!(matches!(end, ActionStep::Reply(Digest401Reply::Ack)));
}

#[test]
fn an_action_hands_back_the_challenge() {
    let mut owner = owner();
    let (_, end) = run(
        &mut owner,
        &Digest401Action::Challenge,
        vec![
            CallAnswer::Done,
            CallAnswer::Done,
            CallAnswer::Text(String::from("Digest x")),
        ],
    );
    assert!(matches!(end, ActionStep::Reply(Digest401Reply::Header(text)) if text == "Digest x"));
    let (place, step) =
        owner.digest_401_action(&Digest401Action::Close, ActionPlace::Recorded, CallAnswer::Raised(30));
    assert_eq!(place, ActionPlace::Last);
    assert!(matches!(step, ActionStep::Reply(Digest401Reply::Failed)));
    assert_eq!(owner.handler_error, Some(30));
}

#[test]
fn the_audit_is_kept_in_words() {
    assert_eq!(AuditEntry::Content.digest_401_audit(), "content");
    assert_eq!(AuditEntry::PrepareCookies.digest_401_audit(), "prepare-cookies");
    assert_eq!(AuditEntry::History.digest_401_audit(), "history");
}

#[test]
fn a_resend_ends_with_the_new_response() {
    let mut owner = owner();
    assert_eq!(owner.finish(Digest401Outcome::Original), Digest401Result::Response(3));
    assert_eq!(
        owner.finish(Digest401Outcome::Sent).message().unwrap(),
        "digest resend lost its response"
    );
    owner.keep_sent(9);
    assert_eq!(owner.finish(Digest401Outcome::Sent), Digest401Result::Response(9));
    assert_eq!(
        owner.finish(Digest401Outcome::HandlerFailed).message().unwrap(),
        "digest 401 action failed without preserving its Python exception"
    );
    owner.store_digest_401_error(12);
    assert_eq!(owner.finish(Digest401Outcome::Sent), Digest401Result::Raise(12));
}

#[test]
fn a_digest_needs_the_time_and_random_bytes() {
    let mut worker = DigestWorker::new();
    assert!(matches!(worker.start(), DigestAction::Ctime));
    let mut owner = OriginDigestOwner { module: 1, handler_error: None };
    let reply = owner.answer(Ok(vec![1, 2]));
    assert!(matches!(
        worker.digest_worker(Ok(reply)),
        DigestStep::Request(DigestAction::Random { size: 8 })
    ));
    let reply = owner.answer(Ok(vec![3]));
    assert!(matches!(
        worker.digest_worker(Ok(reply)),
        DigestStep::Finish { ctime, random } if ctime == [1, 2] && random == [3]
    ));
    assert!(matches!(owner.answer(Err(4)), DigestReply::Failed));
    assert_eq!(owner.handler_error, Some(4));
    assert_eq!(
        owner.finish(DigestOutcome::Complete { has_header: true }),
        DigestResult::Raise(4)
    );
    let clean = OriginDigestOwner { module: 1, handler_error: None };
    assert_eq!(
        clean.finish(DigestOutcome::Complete { has_header: false }),
        DigestResult::NoHeader
    );
    assert!(clean.finish(DigestOutcome::HandlerFailed).message().is_some());
    let mut failing = DigestWorker::new();
    assert!(matches!(
        failing.digest_worker(Ok(DigestReply::Failed)),
        DigestStep::HandlerFailed
    ));
    assert!(matches!(
        failing.digest_worker(Err(BridgeClosed::ReplySender)),
        DigestStep::BridgeClosed(BridgeClosed::ReplySender)
    ));
}

#[test]
fn credentials_that_are_no_text_are_warned_of() {
    assert_eq!(coerce_credential(true, CredentialKind::Bytes), CredentialStep::Take);
    assert_eq!(coerce_credential(true, CredentialKind::Text), CredentialStep::Encode);
    assert_eq!(coerce_credential(false, CredentialKind::Other), CredentialStep::Warn);
    assert_eq!(
        coerce_credential_after(CredentialStep::Warn, CredentialKind::Other),
        CredentialStep::Convert
    );
    assert!(credential_warning_message(true, "5").starts_with("Non-string usernames"));
    assert!(credential_warning_message(false, "<class 'int'>").starts_with("Non-string passwords"));
}

#[test]
fn basic_authentication_differs_for_proxies() {
    assert_eq!(basic_class_name(false), "HTTPBasicAuth");
    assert_eq!(basic_class_name(true), "HTTPProxyAuth");
    assert_eq!(basic_header_name(false), "Authorization");
    assert_eq!(basic_header_name(true), "Proxy-Authorization");
}

#[test]
fn the_count_is_stored_before_the_work() {
    let count = build_digest_header(HeaderCall::Prepare, HeaderEvent::Planned(true));
    assert_eq!(count, HeaderCall::StoreCount);
    let work = build_digest_header(count, HeaderEvent::Done);
    assert_eq!(work, HeaderCall::Work);
    let nonce = build_digest_header(work, HeaderEvent::Finished(DigestResult::Header));
    assert_eq!(nonce, HeaderCall::StoreNonce);
    assert_eq!(build_digest_header(nonce, HeaderEvent::Done), HeaderCall::Return);
    assert_eq!(
        build_digest_header(work, HeaderEvent::Finished(DigestResult::NoHeader)),
        HeaderCall::ReturnNone
    );
    assert_eq!(build_digest_header(work, HeaderEvent::Raised), HeaderCall::RaiseCurrent);
    assert_eq!(
        build_digest_header(HeaderCall::Prepare, HeaderEvent::Planned(false)),
        HeaderCall::ReturnNone
    );
    assert_eq!(build_digest_header(HeaderCall::Return, HeaderEvent::Raised), HeaderCall::Return);
}
