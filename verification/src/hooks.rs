//! Dispatch of response hooks: each hook sees the value that the hooks before
//! it left, and may replace it.

use vstd::prelude::*;
use vstd::string::StringExecFns;

use crate::bridge::{BridgeClosed, WorkerPayload};

verus! {

/// A value that hooks work on, by its place among those seen so far.
#[derive(Clone, Copy, Debug, PartialEq, Eq, Structural)]
pub struct HookValueId {
    pub index: usize,
}

/// A hook is to be called with a value.
#[derive(Clone, Copy, Debug, PartialEq, Eq, Structural)]
pub enum HookAction {
    Call(HookValueId),
}

/// What became of a call.
#[derive(Clone, Copy, Debug, PartialEq, Eq, Structural)]
pub enum HookReply {
    /// The hook gave nothing: the value stays.
    Unchanged,
    /// The hook gave another value.
    Replaced(HookValueId),
    /// There is no further hook.
    End,
    /// The handler met an error, which it keeps.
    Failed,
}

impl WorkerPayload for HookAction {

}

impl WorkerPayload for HookReply {

}

/// How a dispatch ended.
#[derive(Clone, Copy, Debug, PartialEq, Eq, Structural)]
pub enum HookOutcome {
    Complete(HookValueId),
    HandlerFailed,
    BridgeClosed(BridgeClosed),
}

/// The worker's side of a dispatch.
#[derive(Clone, Copy, Debug, PartialEq, Eq, Structural)]
pub struct HookDispatch {
    /// The value that the next hook sees.
    pub current: HookValueId,
}

/// What the worker does next.
#[derive(Clone, Copy, Debug, PartialEq, Eq, Structural)]
pub enum DispatchStep {
    Request(HookAction),
    Finish(HookOutcome),
}

impl HookDispatch {
    /// A dispatch that begins with the first value.
    pub fn new() -> (dispatch: Self)
        ensures
            dispatch.current.index == 0,
    {
        HookDispatch { current: HookValueId { index: 0 } }
    }

    /// The call that is to be made first.
    pub fn start(&self) -> (action: HookAction)
        ensures
            action == HookAction::Call(self.current),
    {
        HookAction::Call(self.current)
    }

    /// The value after a reply.
    pub open spec fn value_after(self, reply: HookReply) -> HookValueId {
        match reply {
            HookReply::Replaced(value) => value,
            _ => self.current,
        }
    }

    /// Goes on after a reply, or after the bridge closed.
    pub fn dispatch_worker(&mut self, reply: Result<HookReply, BridgeClosed>) -> (step: DispatchStep)
        ensures
            match reply {
                Ok(reply) => final(self).current == old(self).value_after(reply) && match reply {
                    HookReply::End => step == DispatchStep::Finish(
                        HookOutcome::Complete(old(self).current),
                    ),
                    HookReply::Failed => step == DispatchStep::Finish(HookOutcome::HandlerFailed),
                    _ => step == DispatchStep::Request(HookAction::Call(final(self).current)),
                },
                Err(closed) => *final(self) == *old(self) && step == DispatchStep::Finish(
                    HookOutcome::BridgeClosed(closed),
                ),
            },
            reply matches Ok(reply) ==> step == step_after(old(self).current, reply),
    {
        match reply {
            Ok(HookReply::Unchanged) => DispatchStep::Request(HookAction::Call(self.current)),
            Ok(HookReply::Replaced(value)) => {
                self.current = value;
                DispatchStep::Request(HookAction::Call(value))
            },
            Ok(HookReply::End) => DispatchStep::Finish(HookOutcome::Complete(self.current)),
            Ok(HookReply::Failed) => DispatchStep::Finish(HookOutcome::HandlerFailed),
            Err(closed) => DispatchStep::Finish(HookOutcome::BridgeClosed(closed)),
        }
    }
}

/// What the worker does after a reply.
pub open spec fn step_after(current: HookValueId, reply: HookReply) -> DispatchStep {
    match reply {
        HookReply::Unchanged => DispatchStep::Request(HookAction::Call(current)),
        HookReply::Replaced(value) => DispatchStep::Request(HookAction::Call(value)),
        HookReply::End => DispatchStep::Finish(HookOutcome::Complete(current)),
        HookReply::Failed => DispatchStep::Finish(HookOutcome::HandlerFailed),
    }
}

/// The values and the first error after calling a hook gave a result, and the
/// reply that it becomes.
pub open spec fn executed(values: Seq<usize>, error: Option<usize>, result: HookResult) -> (
    Seq<usize>,
    Option<usize>,
    HookReply,
) {
    match result {
        HookResult::Exhausted => (values, error, HookReply::End),
        HookResult::Nothing => (values, error, HookReply::Unchanged),
        HookResult::Object(object) => (
            values.push(object),
            error,
            HookReply::Replaced(HookValueId { index: values.len() as usize }),
        ),
        HookResult::Raised(raised) => (
            values,
            if error is Some {
                error
            } else {
                Some(raised)
            },
            HookReply::Failed,
        ),
    }
}

/// The values that the Python thread holds for a dispatch.
pub struct OriginHookOwner {
    /// The object behind each value, the given one first.
    pub values: Vec<usize>,
    /// The first error that a hook raised.
    pub handler_error: Option<usize>,
}

/// What calling a hook gave.
#[derive(Clone, Copy, Debug, PartialEq, Eq, Structural)]
pub enum HookResult {
    /// There was no further hook.
    Exhausted,
    /// The hook returned `None`.
    Nothing,
    /// The hook returned an object.
    Object(usize),
    /// An error was raised.
    Raised(usize),
}

impl OriginHookOwner {
    /// An owner of the value that the hooks are called with.
    pub fn new(value: usize) -> (owner: Self)
        ensures
            owner.values@ == seq![value],
            owner.handler_error is None,
    {
        let owner = OriginHookOwner { values: vec![value], handler_error: None };
        assert(owner.values@ =~= seq![value]);
        owner
    }

    /// The object that a call is made with, if it is known.
    pub fn argument(&self, action: HookAction) -> (object: Option<usize>)
        ensures
            match action {
                HookAction::Call(value) => object == (if value.index < self.values@.len() {
                    Some(self.values@[value.index as int])
                } else {
                    None
                }),
            },
    {
        match action {
            HookAction::Call(value) => if value.index < self.values.len() {
                Some(self.values[value.index])
            } else {
                None
            },
        }
    }

    /// Turns what calling a hook gave into a reply. An object becomes a value
    /// of its own; the first error is kept.
    pub fn execute_action(&mut self, result: HookResult) -> (reply: HookReply)
        ensures
            match result {
                HookResult::Exhausted => reply is End && *final(self) == *old(self),
                HookResult::Nothing => reply is Unchanged && *final(self) == *old(self),
                HookResult::Object(object) => {
                    &&& reply == HookReply::Replaced(
                        HookValueId { index: old(self).values@.len() as usize },
                    )
                    &&& final(self).values@ == old(self).values@.push(object)
                    &&& final(self).handler_error == old(self).handler_error
                },
                HookResult::Raised(error) => {
                    &&& reply is Failed
                    &&& final(self).values@ == old(self).values@
                    &&& final(self).handler_error == (match old(self).handler_error {
                        Some(first) => Some(first),
                        None => Some(error),
                    })
                },
            },
            (final(self).values@, final(self).handler_error, reply) == executed(
                old(self).values@,
                old(self).handler_error,
                result,
            ),
    {
        match result {
            HookResult::Exhausted => HookReply::End,
            HookResult::Nothing => HookReply::Unchanged,
            HookResult::Object(object) => {
                let index: usize = self.values.len();
                self.values.push(object);
                HookReply::Replaced(HookValueId { index })
            },
            HookResult::Raised(error) => {
                crate::bridge::store_handler_error(&mut self.handler_error, error);
                HookReply::Failed
            },
        }
    }

    /// What the dispatch gives: the final value, unless a hook raised an error
    /// or the bridge closed.
    pub fn finish(&self, outcome: HookOutcome) -> (result: DispatchResult)
        ensures
            result == dispatch_result(self.values@, self.handler_error, outcome),
    {
        match self.handler_error {
            Some(error) => DispatchResult::Raise(error),
            None => match outcome {
                HookOutcome::Complete(value) => if value.index < self.values.len() {
                    DispatchResult::Value(self.values[value.index])
                } else {
                    DispatchResult::LostValue
                },
                HookOutcome::HandlerFailed => DispatchResult::LostError,
                HookOutcome::BridgeClosed(closed) => DispatchResult::Closed(closed),
            },
        }
    }
}

/// What a dispatch gives.
#[derive(Clone, Copy, Debug, PartialEq, Eq, Structural)]
pub enum DispatchResult {
    Value(usize),
    Raise(usize),
    LostValue,
    LostError,
    Closed(BridgeClosed),
}

/// What a dispatch gives, from the values, the first error and the outcome.
pub open spec fn dispatch_result(
    values: Seq<usize>,
    handler_error: Option<usize>,
    outcome: HookOutcome,
) -> DispatchResult {
    match handler_error {
        Some(error) => DispatchResult::Raise(error),
        None => match outcome {
            HookOutcome::Complete(value) => if value.index < values.len() {
                DispatchResult::Value(values[value.index as int])
            } else {
                DispatchResult::LostValue
            },
            HookOutcome::HandlerFailed => DispatchResult::LostError,
            HookOutcome::BridgeClosed(closed) => DispatchResult::Closed(closed),
        },
    }
}

impl DispatchResult {
    /// The message of a failed dispatch.
    pub open spec fn words(self) -> Option<Seq<char>> {
        match self {
            DispatchResult::LostValue => Some("hook dispatch lost its final Python value"@),
            DispatchResult::LostError => Some(
                "hook dispatch callback failed without preserving its Python exception"@,
            ),
            DispatchResult::Closed(closed) => Some(closed.words()),
            _ => None,
        }
    }

    /// The message of a failed dispatch.
    pub fn message(&self) -> (text: Option<String>)
        ensures
            match text {
                Some(text) => self.words() == Some(text@),
                None => self.words() is None,
            },
    {
        match self {
            DispatchResult::LostValue => Some(
                String::from_str("hook dispatch lost its final Python value"),
            ),
            DispatchResult::LostError => Some(
                String::from_str(
                    "hook dispatch callback failed without preserving its Python exception",
                ),
            ),
            DispatchResult::Closed(closed) => Some(closed.message()),
            _ => None,
        }
    }
}

/// How the hooks registered for a key are taken up.
#[derive(Clone, Copy, Debug, PartialEq, Eq, Structural)]
pub enum HookSelection {
    /// There is none: the data goes back as it is.
    ReturnData,
    /// A single callable is called.
    Single,
    /// The hooks are iterated over.
    Each,
}

/// How the hooks registered for a key are taken up.
pub fn select_hooks(selected_is_truthy: bool, selected_is_callable: bool) -> (selection:
    HookSelection)
    ensures
        selection == (if !selected_is_truthy {
            HookSelection::ReturnData
        } else if selected_is_callable {
            HookSelection::Single
        } else {
            HookSelection::Each
        }),
{
    if !selected_is_truthy {
        HookSelection::ReturnData
    } else if selected_is_callable {
        HookSelection::Single
    } else {
        HookSelection::Each
    }
}

/// The message of a call with a value that is not known.
pub fn unknown_value_message() -> (text: String)
    ensures
        text@ == "hook dispatch referenced an unknown Python value"@,
{
    String::from_str("hook dispatch referenced an unknown Python value")
}

/// How taking a hook out of a list ended.
#[derive(Clone, Copy, Debug, PartialEq, Eq, Structural)]
pub enum RemovalResult {
    Removed,
    /// A `ValueError`: the hook was not in the list.
    NotListed,
    Raised(usize),
}

/// Whether a hook was deregistered. An error other than its absence is raised.
pub fn deregister_hook(result: RemovalResult) -> (deregistered: Result<bool, usize>)
    ensures
        deregistered == (match result {
            RemovalResult::Removed => Ok(true),
            RemovalResult::NotListed => Ok(false),
            RemovalResult::Raised(error) => Err(error),
        }),
{
    match result {
        RemovalResult::Removed => Ok(true),
        RemovalResult::NotListed => Ok(false),
        RemovalResult::Raised(error) => Err(error),
    }
}

/// The object that a list of hook results leaves: the last one that a hook
/// returned, or the given one.
pub open spec fn last_object(given: usize, results: Seq<HookResult>) -> usize
    decreases results.len(),
{
    if results.len() == 0 {
        given
    } else {
        match results.last() {
            HookResult::Object(object) => object,
            _ => last_object(given, results.drop_last()),
        }
    }
}

/// The values and the current one after a list of hook results that are
/// neither the end nor an error.
pub open spec fn after_results(given: usize, results: Seq<HookResult>) -> (Seq<usize>, nat)
    decreases results.len(),
{
    if results.len() == 0 {
        (seq![given], 0)
    } else {
        let (values, current) = after_results(given, results.drop_last());
        match results.last() {
            HookResult::Object(object) => (values.push(object), values.len()),
            _ => (values, current),
        }
    }
}

/// A dispatch leaves the value that the last replacing hook returned.
pub proof fn law_last_replacement_wins(given: usize, results: Seq<HookResult>)
    ensures
        after_results(given, results).1 < after_results(given, results).0.len(),
        after_results(given, results).0[after_results(given, results).1 as int] == last_object(
            given,
            results,
        ),
    decreases results.len(),
{
    if results.len() > 0 {
        law_last_replacement_wins(given, results.drop_last());
    }
}

/// The values, the first error and the worker after hooks gave a list of results.
pub open spec fn dispatched(given: usize, results: Seq<HookResult>) -> (
    Seq<usize>,
    Option<usize>,
    HookDispatch,
)
    decreases results.len(),
{
    if results.len() == 0 {
        (seq![given], None, HookDispatch { current: HookValueId { index: 0 } })
    } else {
        let (values, error, worker) = dispatched(given, results.drop_last());
        let (after, kept, reply) = executed(values, error, results.last());
        (after, kept, HookDispatch { current: worker.value_after(reply) })
    }
}

/// Each hook is called with what the last hook before it returned that returned
/// anything, or with the given object. That object is what the dispatch gives
/// once there is no further hook. An error of a hook ends the dispatch and is
/// raised, whatever came before it.
pub proof fn law_hooks_see_the_last_replacement(
    given: usize,
    results: Seq<HookResult>,
    raised: usize,
    outcome: HookOutcome,
)
    requires
        results.len() < usize::MAX,
        forall|index: int|
            0 <= index < results.len() ==> #[trigger] results[index] is Nothing
                || results[index] is Object,
    ensures
        ({
            let (values, error, worker) = dispatched(given, results);
            let current = worker.current;
            &&& error is None
            &&& current.index < values.len() <= results.len() + 1
            &&& values[current.index as int] == last_object(given, results)
            &&& step_after(current, executed(values, error, HookResult::Nothing).2)
                == DispatchStep::Request(HookAction::Call(current))
            &&& step_after(current, executed(values, error, HookResult::Exhausted).2)
                == DispatchStep::Finish(HookOutcome::Complete(current))
            &&& dispatch_result(values, error, HookOutcome::Complete(current))
                == DispatchResult::Value(last_object(given, results))
            &&& step_after(current, executed(values, error, HookResult::Raised(raised)).2)
                == DispatchStep::Finish(HookOutcome::HandlerFailed)
            &&& dispatch_result(
                values,
                executed(values, error, HookResult::Raised(raised)).1,
                outcome,
            ) == DispatchResult::Raise(raised)
        }),
    decreases results.len(),
{
    if results.len() > 0 {
        let fewer = results.drop_last();
        assert forall|index: int| 0 <= index < fewer.len() implies #[trigger] fewer[index]
            is Nothing || fewer[index] is Object by {
            assert(fewer[index] == results[index]);
        }
        law_hooks_see_the_last_replacement(given, fewer, raised, outcome);
        assert(results[results.len() - 1] is Nothing || results[results.len() - 1] is Object);
    }
}

/// The first error of a dispatch is the one that is raised.
pub proof fn law_the_first_error_is_raised(
    values: Seq<usize>,
    first: usize,
    result: HookResult,
    outcome: HookOutcome,
)
    ensures
        executed(values, Some(first), result).1 == Some(first),
        dispatch_result(executed(values, Some(first), result).0, Some(first), outcome)
            == DispatchResult::Raise(first),
{
}

/// A dispatch gives the value that it ended with, or says why there is none; an
/// error that a hook raised goes before all else.
pub proof fn law_results_of_a_dispatch(
    values: Seq<usize>,
    handler_error: Option<usize>,
    outcome: HookOutcome,
)
    ensures
        dispatch_result(values, handler_error, outcome) is Raise <==> handler_error is Some,
        handler_error matches Some(error) ==> dispatch_result(values, handler_error, outcome)
            == DispatchResult::Raise(error),
        handler_error is None ==> (outcome matches HookOutcome::BridgeClosed(closed)
            ==> dispatch_result(values, handler_error, outcome) == DispatchResult::Closed(closed)),
        handler_error is None && outcome is HandlerFailed ==> dispatch_result(
            values,
            handler_error,
            outcome,
        ) is LostError,
        handler_error is None ==> (outcome matches HookOutcome::Complete(value) ==> (if value.index
            < values.len() {
            dispatch_result(values, handler_error, outcome) == DispatchResult::Value(
                values[value.index as int],
            )
        } else {
            dispatch_result(values, handler_error, outcome) is LostValue
        })),
        DispatchResult::LostValue.words() == Some("hook dispatch lost its final Python value"@),
        DispatchResult::LostError.words() == Some(
            "hook dispatch callback failed without preserving its Python exception"@,
        ),
{
}

} // verus!
