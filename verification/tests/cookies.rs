use requests_native::body_prepare::GlobalResolver;
use requests_native::bridge::BridgeClosed;
use requests_native::cookie_make::{
    allowed_create_key, argument_value, bad_max_age_message, cookie_arguments,
    copy_pickle_result, has_initial_dot, inspect_result, morsel_cookie, morsel_date_format,
    morsel_expiry, mutate_jar, set_argument, specify_arguments, unexpected_message,
    value_or_error_tuple, Argument, ArgumentValue, CopyFacts, LookupRecord, MorselExpiry,
    MorselFacts, SpecifiedFacts,
};
use requests_native::cookie_pipeline::{
    digest_stage_result, stage_audit, CookiePipelineAction, CookiePipelineOutcome,
    CookiePipelineReply, CookiePipelineStage, HeaderId, OriginCookiePipelineOwner,
    PipelineEnd, PipelineFault, PipelineStop, PipelineWorker, ResponseId, SnapshotId, StageCall,
    StageResult,
};

fn argument(name: &str, value: ArgumentValue) -> Argument {
    Argument { name: String::from(name), value }
}

#[test]
fn what_is_asked_for_wins_over_the_defaults() {
    let overrides = vec![
        argument("path", ArgumentValue::Object(7)),
        argument("secure", ArgumentValue::Flag(true)),
    ];
    let arguments = cookie_arguments(1, 2, &overrides);
    assert_eq!(argument_value(&arguments, "name"), Some(ArgumentValue::Object(1)));
    assert_eq!(argument_value(&arguments, "value"), Some(ArgumentValue::Object(2)));
    assert_eq!(argument_value(&arguments, "path"), Some(ArgumentValue::Object(7)));
    assert_eq!(argument_value(&arguments, "secure"), Some(ArgumentValue::Flag(true)));
    assert_eq!(argument_value(&arguments, "domain"), Some(ArgumentValue::EmptyText));
    assert_eq!(argument_value(&arguments, "expires"), Some(ArgumentValue::Nothing));
    assert_eq!(argument_value(&arguments, "nothing"), None);
}

#[test]
fn cookies_have_the_root_as_their_place() {
    let arguments = cookie_arguments(1, 2, &Vec::new());
    assert_eq!(argument_value(&arguments, "path"), Some(ArgumentValue::RootPath));
    assert_eq!(argument_value(&arguments, "discard"), Some(ArgumentValue::Flag(true)));
}

#[test]
fn setting_an_argument_replaces_it() {
    let mut arguments = Vec::new();
    set_argument(&mut arguments, "port", ArgumentValue::Nothing);
    set_argument(&mut arguments, "port", ArgumentValue::Object(3));
    assert_eq!(arguments.len(), 1);
    assert_eq!(argument_value(&arguments, "port"), Some(ArgumentValue::Object(3)));
}

#[test]
fn specified_parts_are_flagged() {
    let mut arguments = cookie_arguments(1, 2, &Vec::new());
    specify_arguments(
        &mut arguments,
        SpecifiedFacts { port: false, domain: true, domain_initial_dot: true, path: true },
    );
    assert_eq!(argument_value(&arguments, "port_specified"), Some(ArgumentValue::Flag(false)));
    assert_eq!(
        argument_value(&arguments, "domain_specified"),
        Some(ArgumentValue::Flag(true))
    );
    assert_eq!(
        argument_value(&arguments, "domain_initial_dot"),
        Some(ArgumentValue::Flag(true))
    );
    assert!(has_initial_dot(".example.com"));
    assert!(!has_initial_dot("example.com"));
    assert!(!has_initial_dot(""));
}

#[test]
fn only_known_keys_are_allowed() {
    assert!(allowed_create_key("domain"));
    assert!(allowed_create_key("rest"));
    assert!(!allowed_create_key("samesite"));
    assert_eq!(
        unexpected_message("['samesite']"),
        "create_cookie() got unexpected keyword arguments: ['samesite']"
    );
}

#[test]
fn a_morsel_expires_by_age_before_date() {
    assert_eq!(morsel_expiry("60", "Tue, 01-Jan-2030 00:00:00 GMT"), MorselExpiry::MaxAge(60));
    assert_eq!(morsel_expiry("-5", ""), MorselExpiry::MaxAge(-5));
    assert_eq!(morsel_expiry("soon", ""), MorselExpiry::BadMaxAge);
    assert_eq!(morsel_expiry("", "Tue, 01-Jan-2030 00:00:00 GMT"), MorselExpiry::Date);
    assert_eq!(morsel_expiry("", ""), MorselExpiry::Never);
    assert_eq!(bad_max_age_message("soon"), "max-age: soon must be integer");
    assert_eq!(morsel_date_format(), "%a, %d-%b-%Y %H:%M:%S GMT");
}

#[test]
fn a_morsel_becomes_the_arguments_of_a_cookie() {
    let facts = MorselFacts {
        version: 4,
        has_version: false,
        domain: 5,
        path: 6,
        secure: true,
        expires: ArgumentValue::Number(70),
        comment: 8,
        has_comment: true,
        http_only: 9,
    };
    let arguments = morsel_cookie(&facts);
    assert_eq!(argument_value(&arguments, "domain"), Some(ArgumentValue::Object(5)));
    assert_eq!(argument_value(&arguments, "secure"), Some(ArgumentValue::Flag(true)));
    assert_eq!(argument_value(&arguments, "expires"), Some(ArgumentValue::Number(70)));
    assert_eq!(argument_value(&arguments, "discard"), Some(ArgumentValue::Flag(false)));
    assert_eq!(
        argument_value(&arguments, "rest"),
        Some(ArgumentValue::HttpOnly(Some(9)))
    );
}

#[test]
fn lookups_record_values_and_errors() {
    assert!(matches!(value_or_error_tuple(Ok(3), Ok(Some(4))), LookupRecord::Entry(3)));
    assert!(matches!(value_or_error_tuple(Err(5), Ok(Some(6))), LookupRecord::Entry(6)));
    assert!(matches!(
        value_or_error_tuple(Err(5), Ok(None)),
        LookupRecord::Raise { error: 5, .. }
    ));
    assert!(matches!(
        value_or_error_tuple(Err(5), Err(7)),
        LookupRecord::Raise { error: 7, context: Some(5) }
    ));
}

#[test]
fn jars_are_inspected_and_changed_in_order() {
    let labels: Vec<&'static str> = inspect_result().iter().map(|entry| entry.label()).collect();
    assert_eq!(labels[0], "cookies");
    assert_eq!(labels.len(), 10);
    let steps = mutate_jar();
    assert_eq!(steps.len(), 6);
}

#[test]
fn copies_are_compared_by_identity() {
    let record = copy_pickle_result(&CopyFacts {
        copied_policy: 1,
        original_policy: 1,
        copied_cookie: 2,
        original_cookie: 3,
        original_has_name: false,
        copy_has_name: true,
        state_has_lock: false,
        restored_lock: 8,
        original_lock: 9,
    });
    assert!(record.copy_policy);
    assert!(record.lock_omitted);
    assert!(record.restored_lock_new);
    assert!(record.copy_isolation);
}

fn owner() -> OriginCookiePipelineOwner {
    OriginCookiePipelineOwner::new(
        1,
        2,
        3,
        4,
        5,
        6,
        GlobalResolver { globals: 7, builtins: 8 },
    )
}

fn stages() -> Vec<CookiePipelineStage> {
    vec![
        CookiePipelineStage::Prepare,
        CookiePipelineStage::SnapshotAfterPrepare,
        CookiePipelineStage::Hook,
        CookiePipelineStage::SnapshotAfterHook,
        CookiePipelineStage::Extract,
        CookiePipelineStage::SnapshotAfterExtract,
        CookiePipelineStage::Digest,
        CookiePipelineStage::SnapshotAfterDigest,
        CookiePipelineStage::Header,
        CookiePipelineStage::SnapshotAfterHeader,
    ]
}

#[test]
fn a_pipeline_keeps_what_its_stages_give() {
    let mut owner = owner();
    let mut worker = PipelineWorker::new();
    let mut next_object = 100;
    for stage in stages() {
        let action = worker.request(stage);
        assert!(matches!(action, CookiePipelineAction::Execute(_)));
        let call = owner.begin(action).unwrap();
        let result = match call {
            StageCall::PrepareCookies => StageResult::Nothing,
            StageCall::ExtractCookies { response } => {
                assert_eq!(response, 102);
                StageResult::Nothing
            }
            StageCall::CallDigest { response } => digest_stage_result(response, response),
            _ => StageResult::Object(next_object),
        };
        next_object += 1;
        let reply = owner.execute_pipeline_action(stage, result);
        assert!(worker.pipeline_worker(stage, Ok(reply)).is_none());
    }
    let outcome = worker.complete();
    match owner.finish(&outcome) {
        Ok(record) => {
            assert_eq!(record.snapshots.len(), 5);
            assert!(owner.headers.contains(&record.header));
        }
        Err(_) => panic!("the pipeline completed"),
    }
    assert_eq!(owner.snapshots.len(), 5);
}

#[test]
fn a_failing_stage_ends_the_pipeline() {
    let mut owner = owner();
    let mut worker = PipelineWorker::new();
    let reply = owner.execute_pipeline_action(CookiePipelineStage::Prepare, StageResult::Raised(9));
    assert!(matches!(reply, CookiePipelineReply::Failed));
    assert!(matches!(
        worker.pipeline_worker(CookiePipelineStage::Prepare, Ok(reply)),
        Some(PipelineStop::HandlerFailed)
    ));
    assert!(matches!(
        owner.finish(&CookiePipelineOutcome::HandlerFailed),
        Err(PipelineEnd::Raise(9))
    ));
    assert!(matches!(
        worker.pipeline_worker(
            CookiePipelineStage::Prepare,
            Err(BridgeClosed::ReplySender)
        ),
        Some(PipelineStop::BridgeClosed(BridgeClosed::ReplySender))
    ));
}

#[test]
fn identifiers_out_of_range_are_refused() {
    let owner = owner();
    assert_eq!(owner.response(ResponseId(0)).ok(), Some(3));
    assert!(matches!(
        owner.response(ResponseId(1)),
        Err(PipelineFault::ResponseRange)
    ));
    assert_eq!(stage_audit(CookiePipelineStage::SnapshotAfterHook), None);
    assert!(stage_audit(CookiePipelineStage::Prepare).is_some());
}

#[test]
fn what_was_stored_stays() {
    let mut owner = owner();
    let response = owner.store_response(91);
    let snapshot = owner.store_snapshot(92);
    let header = owner.store_header(93);
    let later = owner.store_response(94);
    assert_eq!(later, ResponseId(response.0 + 1));
    owner.store_snapshot(95);
    owner.store_header(96);
    assert_eq!(owner.response(response), Ok(91));
    assert_eq!(owner.response(later), Ok(94));
    assert_eq!(owner.snapshot(snapshot), Ok(92));
    assert_eq!(owner.header(header), Ok(93));
    assert_eq!(owner.response(ResponseId(later.0 + 1)), Err(PipelineFault::ResponseRange));
    assert_eq!(
        owner.snapshot(SnapshotId(snapshot.0 + 2)),
        Err(PipelineFault::SnapshotRange)
    );
    assert_eq!(owner.header(HeaderId(header.0 + 2)), Err(PipelineFault::HeaderRange));
}
