//! The way of a response's cookies: through preparation, hook, extraction,
//! digest and header, with a snapshot of the jar after each.

use std::marker::PhantomData;
use std::rc::Rc;

use vstd::prelude::*;
use vstd::string::StringExecFns;

use crate::body_prepare::GlobalResolver;
use crate::bridge::{store_handler_error, BridgeClosed, WorkerPayload};

verus! {

/// A stage of the way.
#[derive(Clone, Copy, Debug, PartialEq, Eq, Structural)]
pub enum CookiePipelineStage {
    Prepare,
    SnapshotAfterPrepare,
    Hook,
    SnapshotAfterHook,
    Extract,
    SnapshotAfterExtract,
    Digest,
    SnapshotAfterDigest,
    Header,
    SnapshotAfterHeader,
}

/// A stage is to be carried out.
#[derive(Clone, Copy, Debug, PartialEq, Eq, Structural)]
pub enum CookiePipelineAction {
    Execute(CookiePipelineStage),
}

/// A response, by its place among those seen so far.
#[derive(Clone, Copy, Debug, PartialEq, Eq, Structural)]
pub struct ResponseId(pub usize);

/// A snapshot, by its place among those taken so far.
#[derive(Clone, Copy, Debug, PartialEq, Eq, Structural)]
pub struct SnapshotId(pub usize);

/// A header, by its place among those made so far.
#[derive(Clone, Copy, Debug, PartialEq, Eq, Structural)]
pub struct HeaderId(pub usize);

/// What a stage gave.
#[derive(Clone, Copy, Debug, PartialEq, Eq, Structural)]
pub enum CookiePipelineReply {
    Ack,
    Response(ResponseId),
    Snapshot(SnapshotId),
    Header(HeaderId),
    /// The handler met an error, which it keeps.
    Failed,
}

impl WorkerPayload for CookiePipelineAction {

}

impl WorkerPayload for CookiePipelineReply {

}

/// The place that an identifier stands for, where there is one.
pub open spec fn in_range(id: usize, len: usize) -> Option<usize> {
    if id < len {
        Some(id)
    } else {
        None
    }
}

/// The place of a response.
pub fn response_index(id: ResponseId, len: usize) -> (index: Option<usize>)
    ensures
        index == in_range(id.0, len),
{
    if id.0 < len {
        Some(id.0)
    } else {
        None
    }
}

/// The place of a snapshot.
pub fn snapshot_index(id: SnapshotId, len: usize) -> (index: Option<usize>)
    ensures
        index == in_range(id.0, len),
{
    if id.0 < len {
        Some(id.0)
    } else {
        None
    }
}

/// The place of a header.
pub fn header_index(id: HeaderId, len: usize) -> (index: Option<usize>)
    ensures
        index == in_range(id.0, len),
{
    if id.0 < len {
        Some(id.0)
    } else {
        None
    }
}

/// How the way ended.
pub enum CookiePipelineOutcome {
    Complete {
        response: ResponseId,
        hook_response: ResponseId,
        snapshots: Vec<SnapshotId>,
        header: Option<HeaderId>,
    },
    HandlerFailed,
    BridgeClosed(BridgeClosed),
}

/// The worker on the way.
pub struct PipelineWorker {
    /// The response that the last stage left.
    pub response: ResponseId,
    /// The response that the hook left.
    pub hook_response: ResponseId,
    pub snapshots: Vec<SnapshotId>,
    pub header: Option<HeaderId>,
}

/// What the worker goes by.
pub struct PipelineView {
    pub response: ResponseId,
    pub hook_response: ResponseId,
    pub snapshots: Seq<SnapshotId>,
    pub header: Option<HeaderId>,
}

impl View for PipelineWorker {
    type V = PipelineView;

    open spec fn view(&self) -> PipelineView {
        PipelineView {
            response: self.response,
            hook_response: self.hook_response,
            snapshots: self.snapshots@,
            header: self.header,
        }
    }
}

impl PipelineView {
    /// The worker at the start: the given response, and nothing else.
    pub open spec fn start() -> PipelineView {
        PipelineView {
            response: ResponseId(0),
            hook_response: ResponseId(0),
            snapshots: Seq::empty(),
            header: None,
        }
    }

    /// What the worker goes by after a stage.
    pub open spec fn after(self, stage: CookiePipelineStage, reply: CookiePipelineReply) -> PipelineView {
        match reply {
            CookiePipelineReply::Response(value) => PipelineView {
                response: value,
                hook_response: if stage is Hook {
                    value
                } else {
                    self.hook_response
                },
                ..self
            },
            CookiePipelineReply::Snapshot(value) => PipelineView {
                snapshots: self.snapshots.push(value),
                ..self
            },
            CookiePipelineReply::Header(value) => PipelineView { header: Some(value), ..self },
            _ => self,
        }
    }
}

/// How a stage ended the way before its end.
#[derive(Clone, Copy, Debug, PartialEq, Eq, Structural)]
pub enum PipelineStop {
    HandlerFailed,
    BridgeClosed(BridgeClosed),
}

/// How an answer ends the way, if it does.
pub open spec fn stop_of(reply: Result<CookiePipelineReply, BridgeClosed>) -> Option<PipelineStop> {
    match reply {
        Err(closed) => Some(PipelineStop::BridgeClosed(closed)),
        Ok(CookiePipelineReply::Failed) => Some(PipelineStop::HandlerFailed),
        Ok(_) => None,
    }
}

impl PipelineWorker {
    /// A worker at the start.
    pub fn new() -> (worker: Self)
        ensures
            worker@ == PipelineView::start(),
    {
        PipelineWorker {
            response: ResponseId(0),
            hook_response: ResponseId(0),
            snapshots: Vec::new(),
            header: None,
        }
    }

    /// What a stage asks of the Python thread.
    pub fn request(&self, stage: CookiePipelineStage) -> (action: CookiePipelineAction)
        ensures
            action == CookiePipelineAction::Execute(stage),
    {
        CookiePipelineAction::Execute(stage)
    }

    /// Goes on after a stage, or ends.
    pub fn pipeline_worker(
        &mut self,
        stage: CookiePipelineStage,
        reply: Result<CookiePipelineReply, BridgeClosed>,
    ) -> (stop: Option<PipelineStop>)
        ensures
            stop == stop_of(reply),
            match reply {
                Ok(reply) => final(self)@ == old(self)@.after(stage, reply),
                Err(_) => final(self)@ == old(self)@,
            },
    {
        match reply {
            Err(closed) => Some(PipelineStop::BridgeClosed(closed)),
            Ok(CookiePipelineReply::Ack) => None,
            Ok(CookiePipelineReply::Response(value)) => {
                self.response = value;
                if stage == CookiePipelineStage::Hook {
                    self.hook_response = value;
                }
                None
            },
            Ok(CookiePipelineReply::Snapshot(value)) => {
                self.snapshots.push(value);
                None
            },
            Ok(CookiePipelineReply::Header(value)) => {
                self.header = Some(value);
                None
            },
            Ok(CookiePipelineReply::Failed) => Some(PipelineStop::HandlerFailed),
        }
    }

    /// The outcome once every stage is through.
    pub fn complete(self) -> (outcome: CookiePipelineOutcome)
        ensures
            outcome == (CookiePipelineOutcome::Complete {
                response: self.response,
                hook_response: self.hook_response,
                snapshots: self.snapshots,
                header: self.header,
            }),
    {
        CookiePipelineOutcome::Complete {
            response: self.response,
            hook_response: self.hook_response,
            snapshots: self.snapshots,
            header: self.header,
        }
    }
}

/// What the Python thread holds on the way. It never leaves its thread.
pub struct OriginCookiePipelineOwner {
    pub jar: usize,
    pub request: usize,
    /// The responses seen so far, the given one first.
    pub responses: Vec<usize>,
    pub snapshots: Vec<usize>,
    pub headers: Vec<usize>,
    pub hook: usize,
    pub digest: usize,
    pub audit: usize,
    pub function_globals: GlobalResolver,
    /// The first error that a stage met.
    pub handler_error: Option<usize>,
    pub origin_only: PhantomData<Rc<()>>,
}

/// What went wrong with the way's own bookkeeping.
#[derive(Clone, Copy, Debug, PartialEq, Eq, Structural)]
pub enum PipelineFault {
    ResponseRange,
    SnapshotRange,
    HeaderRange,
    LostResponse,
    LostHeader,
    LostError,
    Closed(BridgeClosed),
}

impl PipelineFault {
    /// The fault in words.
    pub open spec fn words(self) -> Seq<char> {
        match self {
            PipelineFault::ResponseRange => "cookie pipeline response ID is out of range"@,
            PipelineFault::SnapshotRange => "cookie pipeline snapshot ID is out of range"@,
            PipelineFault::HeaderRange => "cookie pipeline header ID is out of range"@,
            PipelineFault::LostResponse => "cookie pipeline lost its response"@,
            PipelineFault::LostHeader => "cookie pipeline lost its header object ID"@,
            PipelineFault::LostError =>
                "cookie pipeline action failed without preserving its Python exception"@,
            PipelineFault::Closed(closed) => closed.words(),
        }
    }

    /// The fault in words.
    pub fn message(&self) -> (text: String)
        ensures
            text@ == self.words(),
    {
        match self {
            PipelineFault::ResponseRange => String::from_str(
                "cookie pipeline response ID is out of range",
            ),
            PipelineFault::SnapshotRange => String::from_str(
                "cookie pipeline snapshot ID is out of range",
            ),
            PipelineFault::HeaderRange => String::from_str(
                "cookie pipeline header ID is out of range",
            ),
            PipelineFault::LostResponse => String::from_str("cookie pipeline lost its response"),
            PipelineFault::LostHeader => String::from_str(
                "cookie pipeline lost its header object ID",
            ),
            PipelineFault::LostError => String::from_str(
                "cookie pipeline action failed without preserving its Python exception",
            ),
            PipelineFault::Closed(closed) => closed.message(),
        }
    }
}

/// The entry that a stage leaves in the audit before anything else is done.
pub open spec fn audit_entry(stage: CookiePipelineStage) -> Option<Seq<char>> {
    match stage {
        CookiePipelineStage::Prepare => Some("prepare"@),
        CookiePipelineStage::Hook => Some("hook"@),
        CookiePipelineStage::Extract => Some("extract"@),
        CookiePipelineStage::Digest => Some("digest"@),
        CookiePipelineStage::Header => Some("header"@),
        _ => None,
    }
}

/// The entry that a stage leaves in the audit.
pub fn stage_audit(stage: CookiePipelineStage) -> (label: Option<&'static str>)
    ensures
        match label {
            Some(label) => audit_entry(stage) == Some(label@),
            None => audit_entry(stage) is None,
        },
{
    match stage {
        CookiePipelineStage::Prepare => Some("prepare"),
        CookiePipelineStage::Hook => Some("hook"),
        CookiePipelineStage::Extract => Some("extract"),
        CookiePipelineStage::Digest => Some("digest"),
        CookiePipelineStage::Header => Some("header"),
        _ => None,
    }
}

/// What is done in Python for a stage.
#[derive(Clone, Copy, Debug, PartialEq, Eq, Structural)]
pub enum StageCall {
    /// The request prepares the jar's cookies.
    PrepareCookies,
    /// The hook is called with the given response.
    CallHook { response: usize },
    /// The jar's rows are read.
    ReadRows,
    /// The cookies of a response are extracted into the jar.
    ExtractCookies { response: usize },
    /// The digest is called with a response and the jar.
    CallDigest { response: usize },
    /// The header is made.
    MakeHeader,
}

/// What Python gave for a stage.
#[derive(Clone, Copy, Debug, PartialEq, Eq, Structural)]
pub enum StageResult {
    /// `None`.
    Nothing,
    Object(usize),
    Raised(usize),
}

/// What is done in Python for a stage. The hook sees the first response; later
/// stages see the last.
pub open spec fn stage_call(responses: Seq<usize>, stage: CookiePipelineStage) -> Result<
    StageCall,
    PipelineFault,
> {
    match stage {
        CookiePipelineStage::Prepare => Ok(StageCall::PrepareCookies),
        CookiePipelineStage::Hook => if responses.len() > 0 {
            Ok(StageCall::CallHook { response: responses[0] })
        } else {
            Err(PipelineFault::LostResponse)
        },
        CookiePipelineStage::Extract => if responses.len() > 0 {
            Ok(StageCall::ExtractCookies { response: responses.last() })
        } else {
            Err(PipelineFault::LostResponse)
        },
        CookiePipelineStage::Digest => if responses.len() > 0 {
            Ok(StageCall::CallDigest { response: responses.last() })
        } else {
            Err(PipelineFault::LostResponse)
        },
        CookiePipelineStage::Header => Ok(StageCall::MakeHeader),
        _ => Ok(StageCall::ReadRows),
    }
}

impl OriginCookiePipelineOwner {
    /// An owner at the start.
    pub fn new(
        jar: usize,
        request: usize,
        response: usize,
        hook: usize,
        digest: usize,
        audit: usize,
        function_globals: GlobalResolver,
    ) -> (owner: Self)
        ensures
            owner.jar == jar,
            owner.request == request,
            owner.responses@ == seq![response],
            owner.snapshots@.len() == 0,
            owner.headers@.len() == 0,
            owner.hook == hook,
            owner.digest == digest,
            owner.audit == audit,
            owner.function_globals == function_globals,
            owner.handler_error is None,
    {
        let owner = OriginCookiePipelineOwner {
            jar,
            request,
            responses: vec![response],
            snapshots: Vec::new(),
            headers: Vec::new(),
            hook,
            digest,
            audit,
            function_globals,
            handler_error: None,
            origin_only: PhantomData,
        };
        assert(owner.responses@ =~= seq![response]);
        owner
    }

    /// What was stored.
    pub open spec fn parts(&self) -> Parts {
        Parts {
            responses: self.responses@,
            snapshots: self.snapshots@,
            headers: self.headers@,
        }
    }

    /// Stores a response.
    pub fn store_response(&mut self, value: usize) -> (id: ResponseId)
        ensures
            id.0 == old(self).responses@.len(),
            *final(self) == (OriginCookiePipelineOwner {
                responses: final(self).responses,
                ..*old(self)
            }),
            final(self).parts() == stored_one(old(self).parts(), Store::Response(value)),
    {
        let id: usize = self.responses.len();
        self.responses.push(value);
        ResponseId(id)
    }

    /// Stores a snapshot.
    pub fn store_snapshot(&mut self, value: usize) -> (id: SnapshotId)
        ensures
            id.0 == old(self).snapshots@.len(),
            *final(self) == (OriginCookiePipelineOwner {
                snapshots: final(self).snapshots,
                ..*old(self)
            }),
            final(self).parts() == stored_one(old(self).parts(), Store::Snapshot(value)),
    {
        let id: usize = self.snapshots.len();
        self.snapshots.push(value);
        SnapshotId(id)
    }

    /// Stores a header.
    pub fn store_header(&mut self, value: usize) -> (id: HeaderId)
        ensures
            id.0 == old(self).headers@.len(),
            *final(self) == (OriginCookiePipelineOwner {
                headers: final(self).headers,
                ..*old(self)
            }),
            final(self).parts() == stored_one(old(self).parts(), Store::Header(value)),
    {
        let id: usize = self.headers.len();
        self.headers.push(value);
        HeaderId(id)
    }

    /// A response.
    pub fn response(&self, id: ResponseId) -> (object: Result<usize, PipelineFault>)
        ensures
            object == response_at(self.responses@, id),
    {
        match response_index(id, self.responses.len()) {
            Some(index) => Ok(self.responses[index]),
            None => Err(PipelineFault::ResponseRange),
        }
    }

    /// A snapshot.
    pub fn snapshot(&self, id: SnapshotId) -> (object: Result<usize, PipelineFault>)
        ensures
            object == snapshot_at(self.snapshots@, id),
    {
        match snapshot_index(id, self.snapshots.len()) {
            Some(index) => Ok(self.snapshots[index]),
            None => Err(PipelineFault::SnapshotRange),
        }
    }

    /// A header.
    pub fn header(&self, id: HeaderId) -> (object: Result<usize, PipelineFault>)
        ensures
            object == header_at(self.headers@, id),
    {
        match header_index(id, self.headers.len()) {
            Some(index) => Ok(self.headers[index]),
            None => Err(PipelineFault::HeaderRange),
        }
    }

    /// What is done in Python for a stage.
    pub fn begin(&self, action: CookiePipelineAction) -> (call: Result<StageCall, PipelineFault>)
        ensures
            match action {
                CookiePipelineAction::Execute(stage) => call == stage_call(
                    self.responses@,
                    stage,
                ),
            },
    {
        let CookiePipelineAction::Execute(stage) = action;
        let count: usize = self.responses.len();
        match stage {
            CookiePipelineStage::Prepare => Ok(StageCall::PrepareCookies),
            CookiePipelineStage::Hook => if count > 0 {
                Ok(StageCall::CallHook { response: self.responses[0] })
            } else {
                Err(PipelineFault::LostResponse)
            },
            CookiePipelineStage::Extract => if count > 0 {
                Ok(StageCall::ExtractCookies { response: self.responses[count - 1] })
            } else {
                Err(PipelineFault::LostResponse)
            },
            CookiePipelineStage::Digest => if count > 0 {
                Ok(StageCall::CallDigest { response: self.responses[count - 1] })
            } else {
                Err(PipelineFault::LostResponse)
            },
            CookiePipelineStage::Header => Ok(StageCall::MakeHeader),
            _ => Ok(StageCall::ReadRows),
        }
    }

    /// Answers a stage with what Python gave for it. Rows and headers are
    /// objects whatever they are; only a hook or a digest gives nothing.
    pub fn execute_pipeline_action(&mut self, stage: CookiePipelineStage, result: StageResult) -> (reply:
        CookiePipelineReply)
        requires
            old(self).responses@.len() > 0,
            takes_snapshot(stage) || stage is Header ==> !(result is Nothing),
        ensures
            reply == stage_reply(
                old(self).responses@,
                old(self).snapshots@,
                old(self).headers@,
                stage,
                result,
            ),
            final(self).responses@ == responses_after(old(self).responses@, stage, result),
            final(self).snapshots@ == snapshots_after(old(self).snapshots@, stage, result),
            final(self).headers@ == headers_after(old(self).headers@, stage, result),
            final(self).handler_error == (match (old(self).handler_error, result) {
                (Some(first), _) => Some(first),
                (None, StageResult::Raised(error)) => Some(error),
                (None, _) => None,
            }),
            final(self).jar == old(self).jar,
            final(self).request == old(self).request,
            final(self).hook == old(self).hook,
            final(self).digest == old(self).digest,
            final(self).audit == old(self).audit,
            final(self).function_globals == old(self).function_globals,
    {
        let object = match result {
            StageResult::Raised(error) => {
                store_handler_error(&mut self.handler_error, error);
                return CookiePipelineReply::Failed;
            },
            StageResult::Nothing => None,
            StageResult::Object(object) => Some(object),
        };
        match stage {
            CookiePipelineStage::Prepare | CookiePipelineStage::Extract => CookiePipelineReply::Ack,
            CookiePipelineStage::Hook => match object {
                None => CookiePipelineReply::Response(ResponseId(0)),
                Some(object) => CookiePipelineReply::Response(self.store_response(object)),
            },
            CookiePipelineStage::Digest => match object {
                None => CookiePipelineReply::Response(ResponseId(self.responses.len() - 1)),
                Some(object) => CookiePipelineReply::Response(self.store_response(object)),
            },
            CookiePipelineStage::Header => match object {
                None => CookiePipelineReply::Header(HeaderId(self.headers.len())),
                Some(object) => CookiePipelineReply::Header(self.store_header(object)),
            },
            _ => match object {
                None => CookiePipelineReply::Snapshot(SnapshotId(self.snapshots.len())),
                Some(object) => CookiePipelineReply::Snapshot(self.store_snapshot(object)),
            },
        }
    }
}

/// The parts that the owner has stored.
#[verifier::ext_equal]
pub struct Parts {
    pub responses: Seq<usize>,
    pub snapshots: Seq<usize>,
    pub headers: Seq<usize>,
}

/// Something that is stored.
pub enum Store {
    Response(usize),
    Snapshot(usize),
    Header(usize),
}

/// The parts after something was stored.
pub open spec fn stored_one(parts: Parts, store: Store) -> Parts {
    match store {
        Store::Response(value) => Parts { responses: parts.responses.push(value), ..parts },
        Store::Snapshot(value) => Parts { snapshots: parts.snapshots.push(value), ..parts },
        Store::Header(value) => Parts { headers: parts.headers.push(value), ..parts },
    }
}

/// The parts after a list of things was stored.
pub open spec fn stored(parts: Parts, stores: Seq<Store>) -> Parts
    decreases stores.len(),
{
    if stores.len() == 0 {
        parts
    } else {
        stored_one(stored(parts, stores.drop_last()), stores.last())
    }
}

/// Storing more keeps what is there.
proof fn lemma_stored_stays(parts: Parts, stores: Seq<Store>)
    ensures
        parts.responses.is_prefix_of(stored(parts, stores).responses),
        parts.snapshots.is_prefix_of(stored(parts, stores).snapshots),
        parts.headers.is_prefix_of(stored(parts, stores).headers),
    decreases stores.len(),
{
    if stores.len() > 0 {
        lemma_stored_stays(parts, stores.drop_last());
    }
}

/// What is stored stays readable under its identifier, whatever is stored later,
/// and nothing stored later gets the same identifier. An identifier that was
/// not given is out of range.
pub proof fn law_stored_parts_stay(
    owner: OriginCookiePipelineOwner,
    value: usize,
    stores: Seq<Store>,
    id: usize,
)
    ensures
        ({
            let later = stored(stored_one(owner.parts(), Store::Response(value)), stores).responses;
            &&& response_at(later, ResponseId(owner.responses.len())) == Ok::<usize, PipelineFault>(
                value,
            )
            &&& owner.responses.len() < later.len()
            &&& id >= later.len() ==> response_at(later, ResponseId(id)) == Err::<
                usize,
                PipelineFault,
            >(PipelineFault::ResponseRange)
        }),
        ({
            let later = stored(stored_one(owner.parts(), Store::Snapshot(value)), stores).snapshots;
            &&& snapshot_at(later, SnapshotId(owner.snapshots.len())) == Ok::<usize, PipelineFault>(
                value,
            )
            &&& owner.snapshots.len() < later.len()
            &&& id >= later.len() ==> snapshot_at(later, SnapshotId(id)) == Err::<
                usize,
                PipelineFault,
            >(PipelineFault::SnapshotRange)
        }),
        ({
            let later = stored(stored_one(owner.parts(), Store::Header(value)), stores).headers;
            &&& header_at(later, HeaderId(owner.headers.len())) == Ok::<usize, PipelineFault>(value)
            &&& owner.headers.len() < later.len()
            &&& id >= later.len() ==> header_at(later, HeaderId(id)) == Err::<usize, PipelineFault>(
                PipelineFault::HeaderRange,
            )
        }),
        PipelineFault::ResponseRange.words() == "cookie pipeline response ID is out of range"@,
{
    lemma_stored_stays(stored_one(owner.parts(), Store::Response(value)), stores);
    lemma_stored_stays(stored_one(owner.parts(), Store::Snapshot(value)), stores);
    lemma_stored_stays(stored_one(owner.parts(), Store::Header(value)), stores);
    assert(owner.responses@.push(value)[owner.responses@.len() as int] == value);
    assert(owner.snapshots@.push(value)[owner.snapshots@.len() as int] == value);
    assert(owner.headers@.push(value)[owner.headers@.len() as int] == value);
}

/// A response, where there is one of that place.
pub open spec fn response_at(responses: Seq<usize>, id: ResponseId) -> Result<usize, PipelineFault> {
    if id.0 < responses.len() {
        Ok(responses[id.0 as int])
    } else {
        Err(PipelineFault::ResponseRange)
    }
}

/// A snapshot, where there is one of that place.
pub open spec fn snapshot_at(snapshots: Seq<usize>, id: SnapshotId) -> Result<usize, PipelineFault> {
    if id.0 < snapshots.len() {
        Ok(snapshots[id.0 as int])
    } else {
        Err(PipelineFault::SnapshotRange)
    }
}

/// A header, where there is one of that place.
pub open spec fn header_at(headers: Seq<usize>, id: HeaderId) -> Result<usize, PipelineFault> {
    if id.0 < headers.len() {
        Ok(headers[id.0 as int])
    } else {
        Err(PipelineFault::HeaderRange)
    }
}

/// Whether a stage takes a snapshot.
pub open spec fn takes_snapshot(stage: CookiePipelineStage) -> bool {
    ||| stage is SnapshotAfterPrepare
    ||| stage is SnapshotAfterHook
    ||| stage is SnapshotAfterExtract
    ||| stage is SnapshotAfterDigest
    ||| stage is SnapshotAfterHeader
}

/// The responses after a stage: a hook or a digest that gave another response
/// adds it. A digest that gives back the response it was called with gives
/// nothing new.
pub open spec fn responses_after(responses: Seq<usize>, stage: CookiePipelineStage, result: StageResult) -> Seq<
    usize,
> {
    match result {
        StageResult::Object(object) => if stage is Hook || stage is Digest {
            responses.push(object)
        } else {
            responses
        },
        _ => responses,
    }
}

/// The snapshots after a stage.
pub open spec fn snapshots_after(snapshots: Seq<usize>, stage: CookiePipelineStage, result: StageResult) -> Seq<
    usize,
> {
    match result {
        StageResult::Object(object) => if takes_snapshot(stage) {
            snapshots.push(object)
        } else {
            snapshots
        },
        _ => snapshots,
    }
}

/// The headers after a stage.
pub open spec fn headers_after(headers: Seq<usize>, stage: CookiePipelineStage, result: StageResult) -> Seq<
    usize,
> {
    match result {
        StageResult::Object(object) => if stage is Header {
            headers.push(object)
        } else {
            headers
        },
        _ => headers,
    }
}

/// How a stage is answered.
pub open spec fn stage_reply(
    responses: Seq<usize>,
    snapshots: Seq<usize>,
    headers: Seq<usize>,
    stage: CookiePipelineStage,
    result: StageResult,
) -> CookiePipelineReply {
    match result {
        StageResult::Raised(_) => CookiePipelineReply::Failed,
        _ => match stage {
            CookiePipelineStage::Prepare => CookiePipelineReply::Ack,
            CookiePipelineStage::Extract => CookiePipelineReply::Ack,
            CookiePipelineStage::Hook => CookiePipelineReply::Response(
                if result is Nothing {
                    ResponseId(0)
                } else {
                    ResponseId(responses.len() as usize)
                },
            ),
            CookiePipelineStage::Digest => CookiePipelineReply::Response(
                if result is Nothing {
                    ResponseId((responses.len() - 1) as usize)
                } else {
                    ResponseId(responses.len() as usize)
                },
            ),
            CookiePipelineStage::Header => CookiePipelineReply::Header(
                HeaderId(headers.len() as usize),
            ),
            _ => CookiePipelineReply::Snapshot(SnapshotId(snapshots.len() as usize)),
        },
    }
}

/// What a digest gave, as a stage's result: the response it was called with is
/// nothing new.
pub fn digest_stage_result(given: usize, replacement: usize) -> (result: StageResult)
    ensures
        result == (if replacement == given {
            StageResult::Nothing
        } else {
            StageResult::Object(replacement)
        }),
{
    if replacement == given {
        StageResult::Nothing
    } else {
        StageResult::Object(replacement)
    }
}

/// What the caller gets.
pub struct PipelineRecord {
    /// The last response is the one that the hook left.
    pub replacement: bool,
    pub header: usize,
    pub snapshots: Vec<usize>,
}

/// Why the caller gets no record.
#[derive(Clone, Copy, Debug, PartialEq, Eq, Structural)]
pub enum PipelineEnd {
    Raise(usize),
    Fault(PipelineFault),
}

/// The snapshots of a list of places; the first that is out of range decides.
pub open spec fn snapshots_at(snapshots: Seq<usize>, ids: Seq<SnapshotId>) -> Option<Seq<usize>>
    decreases ids.len(),
{
    if ids.len() == 0 {
        Some(Seq::empty())
    } else {
        match (snapshots_at(snapshots, ids.drop_last()), snapshot_at(snapshots, ids.last())) {
            (Some(before), Ok(object)) => Some(before.push(object)),
            _ => None,
        }
    }
}

/// A place out of range among the first leaves no snapshots.
proof fn lemma_snapshots_stop(snapshots: Seq<usize>, ids: Seq<SnapshotId>, count: nat)
    requires
        count <= ids.len(),
        snapshots_at(snapshots, ids.take(count as int)) is None,
    ensures
        snapshots_at(snapshots, ids) is None,
    decreases ids.len() - count,
{
    if count == ids.len() {
        assert(ids.take(count as int) =~= ids);
    } else {
        assert(ids.take((count + 1) as int).drop_last() =~= ids.take(count as int));
        lemma_snapshots_stop(snapshots, ids, count + 1);
    }
}

impl OriginCookiePipelineOwner {
    /// The snapshots of a list of places.
    fn history(&self, ids: &Vec<SnapshotId>) -> (history: Option<Vec<usize>>)
        ensures
            match history {
                Some(history) => snapshots_at(self.snapshots@, ids@) == Some(history@),
                None => snapshots_at(self.snapshots@, ids@) is None,
            },
    {
        let mut history: Vec<usize> = Vec::new();
        let mut index: usize = 0;
        while index < ids.len()
            invariant
                index <= ids.len(),
                snapshots_at(self.snapshots@, ids@.take(index as int)) == Some(history@),
            decreases ids.len() - index,
        {
            assert(ids@.take(index + 1).drop_last() =~= ids@.take(index as int));
            assert(ids@.take(index + 1).last() == ids@[index as int]);
            match self.snapshot(ids[index]) {
                Ok(object) => {
                    history.push(object);
                },
                Err(_) => {
                    proof {
                        lemma_snapshots_stop(self.snapshots@, ids@, (index + 1) as nat);
                    }
                    return None;
                },
            }
            index = index + 1;
        }
        assert(ids@.take(index as int) =~= ids@);
        Some(history)
    }

    /// What the caller gets: the first error of a stage before anything else.
    pub fn finish(&self, outcome: &CookiePipelineOutcome) -> (result: Result<
        PipelineRecord,
        PipelineEnd,
    >)
        ensures
            match (self.handler_error, outcome) {
                (Some(error), _) => result == Err::<PipelineRecord, PipelineEnd>(
                    PipelineEnd::Raise(error),
                ),
                (None, CookiePipelineOutcome::HandlerFailed) => result == Err::<
                    PipelineRecord,
                    PipelineEnd,
                >(PipelineEnd::Fault(PipelineFault::LostError)),
                (None, CookiePipelineOutcome::BridgeClosed(closed)) => result == Err::<
                    PipelineRecord,
                    PipelineEnd,
                >(PipelineEnd::Fault(PipelineFault::Closed(*closed))),
                (
                    None,
                    CookiePipelineOutcome::Complete { response, hook_response, snapshots, header },
                ) => {
                    let found = record_of(
                        self.responses@,
                        self.snapshots@,
                        self.headers@,
                        *response,
                        *hook_response,
                        snapshots@,
                        *header,
                    );
                    match result {
                        Ok(record) => found == Ok::<(bool, usize, Seq<usize>), PipelineFault>(
                            (record.replacement, record.header, record.snapshots@),
                        ),
                        Err(end) => end is Fault && found == Err::<
                            (bool, usize, Seq<usize>),
                            PipelineFault,
                        >(end->Fault_0),
                    }
                },
            },
    {
        match self.handler_error {
            Some(error) => {
                return Err(PipelineEnd::Raise(error));
            },
            None => {},
        }
        match outcome {
            CookiePipelineOutcome::HandlerFailed => Err(
                PipelineEnd::Fault(PipelineFault::LostError),
            ),
            CookiePipelineOutcome::BridgeClosed(closed) => Err(
                PipelineEnd::Fault(PipelineFault::Closed(*closed)),
            ),
            CookiePipelineOutcome::Complete { response, hook_response, snapshots, header } => {
                let last = match self.response(*response) {
                    Ok(object) => object,
                    Err(fault) => {
                        return Err(PipelineEnd::Fault(fault));
                    },
                };
                let hooked = match self.response(*hook_response) {
                    Ok(object) => object,
                    Err(fault) => {
                        return Err(PipelineEnd::Fault(fault));
                    },
                };
                let header = match header {
                    Some(header) => match self.header(*header) {
                        Ok(object) => object,
                        Err(fault) => {
                            return Err(PipelineEnd::Fault(fault));
                        },
                    },
                    None => {
                        return Err(PipelineEnd::Fault(PipelineFault::LostHeader));
                    },
                };
                match self.history(snapshots) {
                    Some(snapshots) => Ok(
                        PipelineRecord { replacement: last == hooked, header, snapshots },
                    ),
                    None => Err(PipelineEnd::Fault(PipelineFault::SnapshotRange)),
                }
            },
        }
    }
}

/// The record of a way that every stage got through.
pub open spec fn record_of(
    responses: Seq<usize>,
    snapshots: Seq<usize>,
    headers: Seq<usize>,
    response: ResponseId,
    hook_response: ResponseId,
    ids: Seq<SnapshotId>,
    header: Option<HeaderId>,
) -> Result<(bool, usize, Seq<usize>), PipelineFault> {
    match response_at(responses, response) {
        Err(fault) => Err(fault),
        Ok(last) => match response_at(responses, hook_response) {
            Err(fault) => Err(fault),
            Ok(hooked) => match header {
                None => Err(PipelineFault::LostHeader),
                Some(header) => match header_at(headers, header) {
                    Err(fault) => Err(fault),
                    Ok(header) => match snapshots_at(snapshots, ids) {
                        None => Err(PipelineFault::SnapshotRange),
                        Some(history) => Ok((last == hooked, header, history)),
                    },
                },
            },
        },
    }
}

/// The owner's lists and the worker after stages that all gave something.
pub struct Way {
    pub responses: Seq<usize>,
    pub snapshots: Seq<usize>,
    pub headers: Seq<usize>,
    pub worker: PipelineView,
}

/// Where the way stands after stages with their results.
pub open spec fn way(given: usize, stages: Seq<(CookiePipelineStage, StageResult)>) -> Way
    decreases stages.len(),
{
    if stages.len() == 0 {
        Way {
            responses: seq![given],
            snapshots: Seq::empty(),
            headers: Seq::empty(),
            worker: PipelineView::start(),
        }
    } else {
        let before = way(given, stages.drop_last());
        let (stage, result) = stages.last();
        Way {
            responses: responses_after(before.responses, stage, result),
            snapshots: snapshots_after(before.snapshots, stage, result),
            headers: headers_after(before.headers, stage, result),
            worker: before.worker.after(
                stage,
                stage_reply(before.responses, before.snapshots, before.headers, stage, result),
            ),
        }
    }
}

/// Whether every stage gave what it owes: no error, and an object where a
/// snapshot or a header is made.
pub open spec fn stages_succeed(stages: Seq<(CookiePipelineStage, StageResult)>) -> bool {
    forall|i: int|
        0 <= i < stages.len() ==> {
            let (stage, result) = #[trigger] stages[i];
            &&& !(result is Raised)
            &&& (takes_snapshot(stage) || stage is Header) ==> result is Object
        }
}

/// Every identifier that the worker holds is in range, whatever the order of
/// the stages, and it holds the snapshots in the order in which they were
/// taken.
pub proof fn law_identifiers_stay_in_range(
    given: usize,
    stages: Seq<(CookiePipelineStage, StageResult)>,
)
    requires
        stages_succeed(stages),
        stages.len() < usize::MAX,
    ensures
        ({
            let end = way(given, stages);
            &&& 1 <= end.responses.len() <= stages.len() + 1
            &&& end.snapshots.len() <= stages.len()
            &&& end.headers.len() <= stages.len()
            &&& end.worker.response.0 < end.responses.len()
            &&& end.worker.hook_response.0 < end.responses.len()
            &&& end.worker.header matches Some(header) ==> header.0 < end.headers.len()
            &&& end.worker.snapshots.len() == end.snapshots.len()
            &&& forall|i: int|
                0 <= i < end.snapshots.len() ==> (#[trigger] end.worker.snapshots[i]).0 == i
        }),
    decreases stages.len(),
{
    if stages.len() > 0 {
        let shorter = stages.drop_last();
        assert forall|i: int| 0 <= i < shorter.len() implies {
            let (stage, result) = #[trigger] shorter[i];
            &&& !(result is Raised)
            &&& (takes_snapshot(stage) || stage is Header) ==> result is Object
        } by {
            assert(shorter[i] == stages[i]);
        }
        law_identifiers_stay_in_range(given, shorter);
        let last = stages[stages.len() - 1];
        assert(last == stages.last());
        let before = way(given, shorter);
        let end = way(given, stages);
        assert(before.responses.len() <= stages.len());
        assert forall|i: int| 0 <= i < end.snapshots.len() implies (
        #[trigger] end.worker.snapshots[i]).0 == i by {
            if i < before.snapshots.len() {
                assert(end.worker.snapshots[i] == before.worker.snapshots[i]);
            }
        }
    }
}

/// The response that was seen last: what a hook or a digest gave last, or the
/// given one.
pub open spec fn latest_response(
    given: usize,
    stages: Seq<(CookiePipelineStage, StageResult)>,
) -> usize
    decreases stages.len(),
{
    if stages.len() == 0 {
        given
    } else {
        match stages.last() {
            (CookiePipelineStage::Hook, StageResult::Object(object)) => object,
            (CookiePipelineStage::Digest, StageResult::Object(object)) => object,
            _ => latest_response(given, stages.drop_last()),
        }
    }
}

/// The response that the stages leave: a hook that gives nothing leaves the given
/// one, and a digest that gives nothing the one that was seen last.
pub open spec fn left_response(
    given: usize,
    stages: Seq<(CookiePipelineStage, StageResult)>,
) -> usize
    decreases stages.len(),
{
    if stages.len() == 0 {
        given
    } else {
        match stages.last() {
            (CookiePipelineStage::Hook, StageResult::Object(object)) => object,
            (CookiePipelineStage::Hook, _) => given,
            (CookiePipelineStage::Digest, _) => latest_response(given, stages),
            _ => left_response(given, stages.drop_last()),
        }
    }
}

/// The response that the last hook left.
pub open spec fn hooked_response(
    given: usize,
    stages: Seq<(CookiePipelineStage, StageResult)>,
) -> usize
    decreases stages.len(),
{
    if stages.len() == 0 {
        given
    } else {
        match stages.last() {
            (CookiePipelineStage::Hook, StageResult::Object(object)) => object,
            (CookiePipelineStage::Hook, _) => given,
            _ => hooked_response(given, stages.drop_last()),
        }
    }
}

/// The rows that were read, in order.
pub open spec fn rows_read(stages: Seq<(CookiePipelineStage, StageResult)>) -> Seq<usize>
    decreases stages.len(),
{
    if stages.len() == 0 {
        Seq::empty()
    } else {
        let before = rows_read(stages.drop_last());
        match stages.last() {
            (CookiePipelineStage::SnapshotAfterPrepare, StageResult::Object(object)) => before.push(
                object,
            ),
            (CookiePipelineStage::SnapshotAfterHook, StageResult::Object(object)) => before.push(
                object,
            ),
            (CookiePipelineStage::SnapshotAfterExtract, StageResult::Object(object)) => before.push(
                object,
            ),
            (CookiePipelineStage::SnapshotAfterDigest, StageResult::Object(object)) => before.push(
                object,
            ),
            (CookiePipelineStage::SnapshotAfterHeader, StageResult::Object(object)) => before.push(
                object,
            ),
            _ => before,
        }
    }
}

/// The header that was made last.
pub open spec fn last_header(stages: Seq<(CookiePipelineStage, StageResult)>) -> Option<usize>
    decreases stages.len(),
{
    if stages.len() == 0 {
        None
    } else {
        match stages.last() {
            (CookiePipelineStage::Header, StageResult::Object(object)) => Some(object),
            _ => last_header(stages.drop_last()),
        }
    }
}

/// What the worker knows by numbers is what the stages gave: the response that
/// they left, the one that the hook left, the header that was made, and every row
/// that was read, in order.
pub proof fn law_numbers_name_what_the_stages_gave(
    given: usize,
    stages: Seq<(CookiePipelineStage, StageResult)>,
)
    requires
        stages_succeed(stages),
        stages.len() < usize::MAX,
    ensures
        ({
            let end = way(given, stages);
            let worker = end.worker;
            &&& worker.response.0 < end.responses.len()
            &&& end.responses[worker.response.0 as int] == left_response(given, stages)
            &&& worker.hook_response.0 < end.responses.len()
            &&& end.responses[worker.hook_response.0 as int] == hooked_response(given, stages)
            &&& end.responses[0] == given
            &&& end.responses.last() == latest_response(given, stages)
            &&& end.snapshots == rows_read(stages)
            &&& match worker.header {
                Some(header) => header.0 < end.headers.len() && last_header(stages) == Some(
                    end.headers[header.0 as int],
                ),
                None => last_header(stages) is None,
            }
        }),
    decreases stages.len(),
{
    law_identifiers_stay_in_range(given, stages);
    if stages.len() > 0 {
        let fewer = stages.drop_last();
        assert forall|i: int| 0 <= i < fewer.len() implies ({
            let (stage, result) = #[trigger] fewer[i];
            &&& !(result is Raised)
            &&& (takes_snapshot(stage) || stage is Header) ==> result is Object
        }) by {
            assert(fewer[i] == stages[i]);
        }
        law_identifiers_stay_in_range(given, fewer);
        law_numbers_name_what_the_stages_gave(given, fewer);
        let (stage, result) = stages[stages.len() - 1];
        assert(!(result is Raised));
    }
}

/// A hook is called with the given response, and the cookies are extracted from,
/// and the digest called with, the one that was seen last.
pub proof fn law_stages_work_on_their_response(
    given: usize,
    stages: Seq<(CookiePipelineStage, StageResult)>,
)
    requires
        stages_succeed(stages),
        stages.len() < usize::MAX,
    ensures
        ({
            let responses = way(given, stages).responses;
            &&& stage_call(responses, CookiePipelineStage::Prepare) == Ok::<
                StageCall,
                PipelineFault,
            >(StageCall::PrepareCookies)
            &&& stage_call(responses, CookiePipelineStage::Hook) == Ok::<StageCall, PipelineFault>(
                StageCall::CallHook { response: given },
            )
            &&& stage_call(responses, CookiePipelineStage::Extract) == Ok::<
                StageCall,
                PipelineFault,
            >(StageCall::ExtractCookies { response: latest_response(given, stages) })
            &&& stage_call(responses, CookiePipelineStage::Digest) == Ok::<
                StageCall,
                PipelineFault,
            >(StageCall::CallDigest { response: latest_response(given, stages) })
            &&& stage_call(responses, CookiePipelineStage::Header) == Ok::<
                StageCall,
                PipelineFault,
            >(StageCall::MakeHeader)
            &&& forall|stage: CookiePipelineStage|
                takes_snapshot(stage) ==> #[trigger] stage_call(responses, stage) == Ok::<
                    StageCall,
                    PipelineFault,
                >(StageCall::ReadRows)
        }),
{
    law_identifiers_stay_in_range(given, stages);
    law_numbers_name_what_the_stages_gave(given, stages);
}

/// A worker goes on exactly after a reply that is no failure, and what stops it is
/// told.
pub proof fn law_failures_stop_the_pipeline(
    worker: PipelineView,
    stage: CookiePipelineStage,
    reply: Result<CookiePipelineReply, BridgeClosed>,
)
    ensures
        stop_of(reply) is None <==> (reply matches Ok(reply) && !(reply is Failed)),
        reply matches Err(closed) ==> stop_of(reply) == Some(PipelineStop::BridgeClosed(closed)),
        reply matches Ok(CookiePipelineReply::Failed) ==> stop_of(reply) == Some(
            PipelineStop::HandlerFailed,
        ),
        worker.after(stage, CookiePipelineReply::Ack) == worker,
        worker.after(stage, CookiePipelineReply::Failed) == worker,
{
}

/// The record of a pipeline names the objects that its numbers stand for, and
/// there is one exactly where every number stands for one.
pub proof fn law_records_name_their_objects(
    responses: Seq<usize>,
    snapshots: Seq<usize>,
    headers: Seq<usize>,
    response: ResponseId,
    hook_response: ResponseId,
    ids: Seq<SnapshotId>,
    header: Option<HeaderId>,
)
    ensures
        record_of(responses, snapshots, headers, response, hook_response, ids, header) matches Ok((
            replacement,
            object,
            history,
        )) ==> {
            &&& response.0 < responses.len() && hook_response.0 < responses.len()
            &&& replacement == (responses[response.0 as int] == responses[hook_response.0 as int])
            &&& header matches Some(header) && header.0 < headers.len() && object
                == headers[header.0 as int]
            &&& history.len() == ids.len()
            &&& forall|index: int|
                0 <= index < ids.len() ==> (#[trigger] ids[index]).0 < snapshots.len()
                    && history[index] == snapshots[ids[index].0 as int]
        },
{
    if let Ok((replacement, object, history)) = record_of(
        responses,
        snapshots,
        headers,
        response,
        hook_response,
        ids,
        header,
    ) {
        lemma_snapshots_at(snapshots, ids);
    }
}

/// Each snapshot is the one of its number.
proof fn lemma_snapshots_at(snapshots: Seq<usize>, ids: Seq<SnapshotId>)
    ensures
        snapshots_at(snapshots, ids) matches Some(history) ==> history.len() == ids.len() && forall|
            index: int,
        |
            0 <= index < ids.len() ==> (#[trigger] ids[index]).0 < snapshots.len()
                && history[index] == snapshots[ids[index].0 as int],
    decreases ids.len(),
{
    if ids.len() > 0 {
        let fewer = ids.drop_last();
        lemma_snapshots_at(snapshots, fewer);
        if let Some(history) = snapshots_at(snapshots, ids) {
            assert forall|index: int| 0 <= index < ids.len() implies (#[trigger] ids[index]).0
                < snapshots.len() && history[index] == snapshots[ids[index].0 as int] by {
                if index < fewer.len() {
                    assert(fewer[index] == ids[index]);
                }
            }
        }
    }
}

/// Each stage that does something is recorded under its own name, and looking at
/// the rows is not.
pub proof fn law_stages_are_recorded(stage: CookiePipelineStage)
    ensures
        audit_entry(stage) is None <==> takes_snapshot(stage),
        audit_entry(stage) == Some("prepare"@) <== stage is Prepare,
        audit_entry(stage) == Some("hook"@) <== stage is Hook,
        audit_entry(stage) == Some("extract"@) <== stage is Extract,
        audit_entry(stage) == Some("digest"@) <== stage is Digest,
        audit_entry(stage) == Some("header"@) <== stage is Header,
{
}

/// Each pipeline fault has its own words.
pub proof fn law_words_of_pipeline_fault()
    ensures
        PipelineFault::ResponseRange.words() == "cookie pipeline response ID is out of range"@,
        PipelineFault::SnapshotRange.words() == "cookie pipeline snapshot ID is out of range"@,
        PipelineFault::HeaderRange.words() == "cookie pipeline header ID is out of range"@,
        PipelineFault::LostResponse.words() == "cookie pipeline lost its response"@,
        PipelineFault::LostHeader.words() == "cookie pipeline lost its header object ID"@,
{
}

} // verus!
