//! The Python thread's side of native work: it looks at signals, at the task
//! and at the actions that the task asks for, always on its own thread.

use vstd::prelude::*;
use vstd::string::StringExecFns;

use crate::bridge::{BridgeClosed, WorkerPayload};

verus! {

/// How long an action is waited for before signals are looked at again, in
/// milliseconds.
pub const WAKE_INTERVAL_MILLIS: u64 = 10;

/// How long a cancelled task is waited for, in milliseconds.
pub const CANCEL_WAIT_MILLIS: u64 = 500;

/// The thread and the interpreter that a call came in on.
#[derive(Clone, Copy, Debug, PartialEq, Eq, Structural)]
pub struct PythonCallContext {
    pub origin_thread: u64,
    pub interpreter: usize,
}

/// Where a call has strayed to.
#[derive(Clone, Copy, Debug, PartialEq, Eq, Structural)]
pub enum AffinityLost {
    Thread,
    Interpreter,
}

impl AffinityLost {
    /// The message.
    pub open spec fn words(self) -> Seq<char> {
        match self {
            AffinityLost::Thread => "Python action moved off its entering OS thread"@,
            AffinityLost::Interpreter => "Python action moved to a different interpreter"@,
        }
    }

    /// The message.
    pub fn message(&self) -> (text: String)
        ensures
            text@ == self.words(),
    {
        match self {
            AffinityLost::Thread => String::from_str(
                "Python action moved off its entering OS thread",
            ),
            AffinityLost::Interpreter => String::from_str(
                "Python action moved to a different interpreter",
            ),
        }
    }
}

impl PythonCallContext {
    /// Whether a call is still where it came in: the thread is looked at first.
    pub fn ensure_affinity(&self, thread: u64, interpreter: usize) -> (lost: Option<AffinityLost>)
        ensures
            lost == (if thread != self.origin_thread {
                Some(AffinityLost::Thread)
            } else if interpreter != self.interpreter {
                Some(AffinityLost::Interpreter)
            } else {
                None
            }),
    {
        if thread != self.origin_thread {
            Some(AffinityLost::Thread)
        } else if interpreter != self.interpreter {
            Some(AffinityLost::Interpreter)
        } else {
            None
        }
    }
}

/// What the Python thread does next.
#[derive(Clone, Copy, Debug, PartialEq, Eq, Structural)]
pub enum DriveStep {
    /// The call is checked to be where it came in.
    CheckEntry,
    /// Owners whose tasks have ended are let go.
    Reap,
    CheckSignals,
    /// The task is looked at, without waiting.
    PollTask,
    /// An action is waited for.
    Receive,
    /// The call is checked again before an action is executed.
    CheckAction,
    /// The action is executed, and its reply sent.
    Execute,
    Sleep,
    /// The task is told to stop.
    Cancel,
    /// The stopped task is looked at.
    PollCancelled,
    /// The stopped task is given a moment.
    WaitCancelled,
    /// The owner is put aside until the task ends by itself.
    Quarantine,
    /// The task's result is given back.
    Return,
    RaiseSignal,
    RaiseTask,
    RaiseAffinity,
}

/// What came of a step.
#[derive(Clone, Copy, Debug, PartialEq, Eq, Structural)]
pub enum DriveEvent {
    Done,
    Failed,
    /// The task is still running.
    Pending,
    /// The task gave its result.
    Ready,
    /// An action has come.
    Request,
    Timeout,
    Disconnected,
    /// The task is still running, and was waited for long enough.
    Overdue,
}

/// Whether a step is a last one.
pub open spec fn is_last(step: DriveStep) -> bool {
    step is Return || step is RaiseSignal || step is RaiseTask || step is RaiseAffinity
}

/// The step after an event. Where the Python thread owns what the task works
/// for, a cancelled task is waited for only so long; else it is waited for
/// until it ends.
pub open spec fn drive_after(owned: bool, step: DriveStep, event: DriveEvent) -> DriveStep {
    match step {
        DriveStep::CheckEntry => if event is Failed {
            DriveStep::RaiseAffinity
        } else {
            DriveStep::Reap
        },
        DriveStep::Reap => DriveStep::CheckSignals,
        DriveStep::CheckSignals => if event is Failed {
            DriveStep::Cancel
        } else {
            DriveStep::PollTask
        },
        DriveStep::PollTask => match event {
            DriveEvent::Ready => DriveStep::Return,
            DriveEvent::Failed => DriveStep::RaiseTask,
            _ => DriveStep::Receive,
        },
        DriveStep::Receive => match event {
            DriveEvent::Request => DriveStep::CheckAction,
            DriveEvent::Disconnected => DriveStep::Sleep,
            _ => DriveStep::CheckSignals,
        },
        DriveStep::CheckAction => if event is Failed {
            DriveStep::RaiseAffinity
        } else {
            DriveStep::Execute
        },
        DriveStep::Execute => DriveStep::CheckSignals,
        DriveStep::Sleep => DriveStep::CheckSignals,
        DriveStep::Cancel => if event is Failed {
            DriveStep::RaiseTask
        } else {
            DriveStep::PollCancelled
        },
        DriveStep::PollCancelled => match event {
            DriveEvent::Pending => DriveStep::WaitCancelled,
            DriveEvent::Overdue => if owned {
                DriveStep::Quarantine
            } else {
                DriveStep::WaitCancelled
            },
            _ => DriveStep::RaiseSignal,
        },
        DriveStep::WaitCancelled => DriveStep::PollCancelled,
        DriveStep::Quarantine => DriveStep::RaiseSignal,
        other => other,
    }
}

impl DriveStep {
    /// The first step.
    pub fn first() -> (step: Self)
        ensures
            step == DriveStep::CheckEntry,
    {
        DriveStep::CheckEntry
    }

    /// The step after an event.
    pub fn drive(self, owned: bool, event: DriveEvent) -> (next: Self)
        ensures
            next == drive_after(owned, self, event),
    {
        match (self, event) {
            (DriveStep::CheckEntry, DriveEvent::Failed) => DriveStep::RaiseAffinity,
            (DriveStep::CheckEntry, _) => DriveStep::Reap,
            (DriveStep::Reap, _) => DriveStep::CheckSignals,
            (DriveStep::CheckSignals, DriveEvent::Failed) => DriveStep::Cancel,
            (DriveStep::CheckSignals, _) => DriveStep::PollTask,
            (DriveStep::PollTask, DriveEvent::Ready) => DriveStep::Return,
            (DriveStep::PollTask, DriveEvent::Failed) => DriveStep::RaiseTask,
            (DriveStep::PollTask, _) => DriveStep::Receive,
            (DriveStep::Receive, DriveEvent::Request) => DriveStep::CheckAction,
            (DriveStep::Receive, DriveEvent::Disconnected) => DriveStep::Sleep,
            (DriveStep::Receive, _) => DriveStep::CheckSignals,
            (DriveStep::CheckAction, DriveEvent::Failed) => DriveStep::RaiseAffinity,
            (DriveStep::CheckAction, _) => DriveStep::Execute,
            (DriveStep::Execute, _) => DriveStep::CheckSignals,
            (DriveStep::Sleep, _) => DriveStep::CheckSignals,
            (DriveStep::Cancel, DriveEvent::Failed) => DriveStep::RaiseTask,
            (DriveStep::Cancel, _) => DriveStep::PollCancelled,
            (DriveStep::PollCancelled, DriveEvent::Pending) => DriveStep::WaitCancelled,
            (DriveStep::PollCancelled, DriveEvent::Overdue) => if owned {
                DriveStep::Quarantine
            } else {
                DriveStep::WaitCancelled
            },
            (DriveStep::PollCancelled, _) => DriveStep::RaiseSignal,
            (DriveStep::WaitCancelled, _) => DriveStep::PollCancelled,
            (DriveStep::Quarantine, _) => DriveStep::RaiseSignal,
            (other, _) => other,
        }
    }
}

/// What a look at a cancelled task means: one that is still running is overdue
/// once the deadline has passed; any other has ended.
pub fn cancelled_task_event(running: bool, before_deadline: bool) -> (event: DriveEvent)
    ensures
        event == (if !running {
            DriveEvent::Done
        } else if before_deadline {
            DriveEvent::Pending
        } else {
            DriveEvent::Overdue
        }),
{
    if !running {
        DriveEvent::Done
    } else if before_deadline {
        DriveEvent::Pending
    } else {
        DriveEvent::Overdue
    }
}

/// The steps that a list of events leads through, the first step included.
pub open spec fn drive_course(owned: bool, events: Seq<DriveEvent>) -> Seq<DriveStep>
    decreases events.len(),
{
    if events.len() == 0 {
        seq![DriveStep::CheckEntry]
    } else {
        let before = drive_course(owned, events.drop_last());
        before.push(drive_after(owned, before.last(), events.last()))
    }
}

/// There is one step more than there are events, and each follows from the one
/// before it.
proof fn lemma_drive_course(owned: bool, events: Seq<DriveEvent>)
    ensures
        drive_course(owned, events).len() == events.len() + 1,
        drive_course(owned, events)[0] == DriveStep::CheckEntry,
        forall|i: int|
            0 <= i < events.len() ==> #[trigger] drive_course(owned, events)[i + 1] == drive_after(
                owned,
                drive_course(owned, events)[i],
                events[i],
            ),
    decreases events.len(),
{
    if events.len() > 0 {
        let shorter = events.drop_last();
        lemma_drive_course(owned, shorter);
        let before = drive_course(owned, shorter);
        let whole = drive_course(owned, events);
        assert forall|i: int| 0 <= i < events.len() implies #[trigger] whole[i + 1] == drive_after(
            owned,
            whole[i],
            events[i],
        ) by {
            if i < shorter.len() {
                assert(whole[i + 1] == before[i + 1]);
                assert(whole[i] == before[i]);
                assert(events[i] == shorter[i]);
            }
        }
    }
}

/// Whenever the task is looked at, signals were looked at just before, and
/// there was none: a signal comes before a result that is ready.
pub proof fn law_signals_come_before_results(owned: bool, events: Seq<DriveEvent>, place: int)
    requires
        0 <= place <= events.len(),
        drive_course(owned, events)[place] == DriveStep::PollTask,
    ensures
        place > 0,
        drive_course(owned, events)[place - 1] == DriveStep::CheckSignals,
        events[place - 1] != DriveEvent::Failed,
{
    lemma_drive_course(owned, events);
    if place > 0 {
        let course = drive_course(owned, events);
        assert(course[place - 1 + 1] == drive_after(owned, course[place - 1], events[place - 1]));
    }
}

/// Once the thread is done, it stays so.
pub proof fn law_the_end_is_final(owned: bool, step: DriveStep, event: DriveEvent)
    requires
        is_last(step),
    ensures
        drive_after(owned, step, event) == step,
{
}

/// No action is executed unless the call was checked to be on its own thread
/// and interpreter just before.
pub proof fn law_actions_run_where_the_call_came_in(
    owned: bool,
    events: Seq<DriveEvent>,
    place: int,
)
    requires
        0 <= place <= events.len(),
        drive_course(owned, events)[place] == DriveStep::Execute,
    ensures
        place > 0,
        drive_course(owned, events)[place - 1] == DriveStep::CheckAction,
        events[place - 1] != DriveEvent::Failed,
{
    lemma_drive_course(owned, events);
    if place > 0 {
        let course = drive_course(owned, events);
        assert(course[place - 1 + 1] == drive_after(owned, course[place - 1], events[place - 1]));
    }
}

/// A signal is raised only after the task was told to stop and has ended, or,
/// where the owner is kept, was put aside with its owner.
pub proof fn law_signals_are_raised_after_the_task(owned: bool, events: Seq<DriveEvent>, place: int)
    requires
        0 <= place <= events.len(),
        drive_course(owned, events)[place] == DriveStep::RaiseSignal,
        place == 0 || drive_course(owned, events)[place - 1] != DriveStep::RaiseSignal,
    ensures
        place > 0,
        drive_course(owned, events)[place - 1] == DriveStep::Quarantine && owned || drive_course(
            owned,
            events,
        )[place - 1] == DriveStep::PollCancelled && events[place - 1] != DriveEvent::Pending
            && events[place - 1] != DriveEvent::Overdue,
{
    lemma_drive_course(owned, events);
    if place > 0 {
        let course = drive_course(owned, events);
        assert(course[place - 1 + 1] == drive_after(owned, course[place - 1], events[place - 1]));
        if course[place - 1] == DriveStep::Quarantine {
            assert(place > 1);
            assert(course[place - 2 + 1] == drive_after(
                owned,
                course[place - 2],
                events[place - 2],
            ));
        }
    }
}

/// The owners that are put aside until their tasks have ended.
pub struct OriginQuarantine<E> {
    pub entries: Vec<E>,
}

/// The entries whose tasks have not ended, in order.
pub open spec fn still_running<E>(entries: Seq<E>, ended: Seq<bool>) -> Seq<E>
    decreases entries.len(),
{
    if entries.len() == 0 || ended.len() != entries.len() {
        Seq::empty()
    } else {
        let before = still_running(entries.drop_last(), ended.drop_last());
        if ended.last() {
            before
        } else {
            before.push(entries.last())
        }
    }
}

impl<E> OriginQuarantine<E> {
    /// Nothing is put aside.
    pub fn new() -> (quarantine: Self)
        ensures
            quarantine.entries@.len() == 0,
    {
        OriginQuarantine { entries: Vec::new() }
    }

    /// Puts an entry aside.
    pub fn quarantine_origin_until_terminal(&mut self, entry: E)
        ensures
            final(self).entries@ == old(self).entries@.push(entry),
    {
        self.entries.push(entry);
    }

    /// Lets go of the entries whose tasks have ended; they are given back.
    pub fn reap_origin_quarantine(&mut self, ended: &Vec<bool>) -> (released: Vec<E>)
        requires
            ended@.len() == old(self).entries@.len(),
        ensures
            final(self).entries@ == still_running(old(self).entries@, ended@),
            released@ == still_running(old(self).entries@, ended@.map_values(|end: bool| !end)),
    {
        let ghost all = self.entries@;
        let ghost running = ended@.map_values(|end: bool| !end);
        let mut entries: Vec<E> = Vec::new();
        std::mem::swap(&mut entries, &mut self.entries);
        let mut kept: Vec<E> = Vec::new();
        let mut released: Vec<E> = Vec::new();
        let mut index: usize = 0;
        while entries.len() > 0
            invariant
                index + entries@.len() == all.len(),
                ended@.len() == all.len(),
                running == ended@.map_values(|end: bool| !end),
                entries@ == all.skip(index as int),
                kept@ == still_running(all.take(index as int), ended@.take(index as int)),
                released@ == still_running(all.take(index as int), running.take(index as int)),
            decreases entries.len(),
        {
            let entry = entries.remove(0);
            assert(entries@ =~= all.skip(index + 1));
            assert(all.take(index + 1).drop_last() =~= all.take(index as int));
            assert(ended@.take(index + 1).drop_last() =~= ended@.take(index as int));
            assert(running.take(index + 1).drop_last() =~= running.take(index as int));
            assert(entry == all[index as int]);
            if ended[index] {
                released.push(entry);
            } else {
                kept.push(entry);
            }
            assert(index < ended.len());
            index = index + 1;
        }
        assert(all.take(index as int) =~= all);
        assert(ended@.take(index as int) =~= ended@);
        assert(running.take(index as int) =~= running);
        self.entries = kept;
        released
    }
}

/// An owner is let go only after its task has ended.
pub proof fn law_running_owners_are_kept<E>(entries: Seq<E>, ended: Seq<bool>, place: int)
    requires
        ended.len() == entries.len(),
        0 <= place < entries.len(),
        !ended[place],
    ensures
        still_running(entries, ended).contains(entries[place]),
    decreases entries.len(),
{
    let before = still_running(entries.drop_last(), ended.drop_last());
    let whole = still_running(entries, ended);
    if place == entries.len() - 1 {
        assert(whole[before.len() as int] == entries[place]);
    } else {
        law_running_owners_are_kept(entries.drop_last(), ended.drop_last(), place);
        let found = choose|i: int| 0 <= i < before.len() && before[i] == entries[place];
        assert(whole[found] == entries[place]);
    }
}

/// What a probe of the driver asks of the Python thread.
#[derive(Clone, Copy, Debug, PartialEq, Eq, Structural)]
pub enum ProbeAction {
    SetStarted,
    ObserveAffinity,
    RaiseOriginal,
    RunNested,
    ObserveNested,
    CancellationPoint,
}

/// What a probe saw of where its action ran.
#[derive(Debug)]
pub struct AffinityReport {
    pub observer_ran: bool,
    pub action_thread: String,
    pub action_interpreter: usize,
}

/// What a probe within a probe saw.
#[derive(Debug)]
pub struct NestedReport {
    pub value: &'static str,
    pub generation: u64,
    pub action_thread: String,
    pub action_interpreter: usize,
}

/// What the Python thread answers a probe.
#[derive(Debug)]
pub enum ProbeReply {
    Ack,
    Affinity(AffinityReport),
    Nested(NestedReport),
    HandlerFailed,
}

impl WorkerPayload for ProbeAction {

}

impl WorkerPayload for ProbeReply {

}

/// How a probe ended.
#[derive(Debug)]
pub enum ProbeOutcome {
    Affinity(AffinityReport),
    OriginalRaised,
    Nested(NestedReport),
    HandlerFailed,
    BridgeClosed(BridgeClosed),
    Ready,
}

/// What the worker of a probe does after a reply.
#[derive(Debug)]
pub enum ProbeStep {
    /// It rests for a moment, and then asks for something else.
    RestThenRequest(ProbeAction),
    /// It waits until it is cancelled.
    Pend,
    Finish(ProbeOutcome),
}

/// What the worker of a probe does after a reply to an action. A reply that
/// does not belong to the action counts as a failed handler.
pub fn probe_worker(action: ProbeAction, reply: Result<ProbeReply, BridgeClosed>) -> (step: ProbeStep)
    ensures
        match (action, reply) {
            (_, Err(closed)) => step == ProbeStep::Finish(ProbeOutcome::BridgeClosed(closed)),
            (ProbeAction::SetStarted, Ok(ProbeReply::Ack)) => step == ProbeStep::RestThenRequest(
                ProbeAction::ObserveAffinity,
            ),
            (ProbeAction::ObserveAffinity, Ok(ProbeReply::Affinity(report))) => step
                == ProbeStep::Finish(ProbeOutcome::Affinity(report)),
            (ProbeAction::RaiseOriginal, Ok(ProbeReply::Ack)) => step == ProbeStep::Finish(
                ProbeOutcome::OriginalRaised,
            ),
            (ProbeAction::RunNested, Ok(ProbeReply::Nested(report))) => step == ProbeStep::Finish(
                ProbeOutcome::Nested(report),
            ),
            (ProbeAction::ObserveNested, Ok(ProbeReply::Nested(report))) => step
                == ProbeStep::Finish(ProbeOutcome::Nested(report)),
            (ProbeAction::CancellationPoint, Ok(ProbeReply::Ack)) => step == ProbeStep::Pend,
            _ => step == ProbeStep::Finish(ProbeOutcome::HandlerFailed),
        },
{
    match (action, reply) {
        (_, Err(closed)) => ProbeStep::Finish(ProbeOutcome::BridgeClosed(closed)),
        (ProbeAction::SetStarted, Ok(ProbeReply::Ack)) => ProbeStep::RestThenRequest(
            ProbeAction::ObserveAffinity,
        ),
        (ProbeAction::ObserveAffinity, Ok(ProbeReply::Affinity(report))) => ProbeStep::Finish(
            ProbeOutcome::Affinity(report),
        ),
        (ProbeAction::RaiseOriginal, Ok(ProbeReply::Ack)) => ProbeStep::Finish(
            ProbeOutcome::OriginalRaised,
        ),
        (ProbeAction::RunNested, Ok(ProbeReply::Nested(report))) => ProbeStep::Finish(
            ProbeOutcome::Nested(report),
        ),
        (ProbeAction::ObserveNested, Ok(ProbeReply::Nested(report))) => ProbeStep::Finish(
            ProbeOutcome::Nested(report),
        ),
        (ProbeAction::CancellationPoint, Ok(ProbeReply::Ack)) => ProbeStep::Pend,
        _ => ProbeStep::Finish(ProbeOutcome::HandlerFailed),
    }
}

/// What is wrong with a probe.
#[derive(Clone, Copy, Debug, PartialEq, Eq, Structural)]
pub enum ProbeFault {
    UnexpectedAction,
    LostOriginal,
    PolledBeforeSignal,
    AcceptedOverSignal,
    HandlerFailed,
    UnexpectedOutcome,
    Closed(BridgeClosed),
    WorkerStopped,
}

impl ProbeFault {
    /// The message.
    pub open spec fn words(self) -> Seq<char> {
        match self {
            ProbeFault::UnexpectedAction => "runtime probe received an unexpected action"@,
            ProbeFault::LostOriginal => "runtime probe lost its original exception"@,
            ProbeFault::PolledBeforeSignal =>
                "runtime probe polled a ready result before its signal"@,
            ProbeFault::AcceptedOverSignal =>
                "runtime probe accepted a ready result over its signal"@,
            ProbeFault::HandlerFailed =>
                "runtime probe action handler failed without a Python exception"@,
            ProbeFault::UnexpectedOutcome => "runtime probe returned an unexpected outcome"@,
            ProbeFault::Closed(closed) => closed.words(),
            ProbeFault::WorkerStopped => "native requests worker stopped unexpectedly"@,
        }
    }

    /// The message.
    pub fn message(&self) -> (text: String)
        ensures
            text@ == self.words(),
    {
        match self {
            ProbeFault::UnexpectedAction => String::from_str(
                "runtime probe received an unexpected action",
            ),
            ProbeFault::LostOriginal => String::from_str(
                "runtime probe lost its original exception",
            ),
            ProbeFault::PolledBeforeSignal => String::from_str(
                "runtime probe polled a ready result before its signal",
            ),
            ProbeFault::AcceptedOverSignal => String::from_str(
                "runtime probe accepted a ready result over its signal",
            ),
            ProbeFault::HandlerFailed => String::from_str(
                "runtime probe action handler failed without a Python exception",
            ),
            ProbeFault::UnexpectedOutcome => String::from_str(
                "runtime probe returned an unexpected outcome",
            ),
            ProbeFault::Closed(closed) => closed.message(),
            ProbeFault::WorkerStopped => String::from_str(
                "native requests worker stopped unexpectedly",
            ),
        }
    }
}

/// What is wrong with a probe that did not end as it should.
pub open spec fn outcome_fault(outcome: ProbeOutcome) -> ProbeFault {
    match outcome {
        ProbeOutcome::BridgeClosed(closed) => ProbeFault::Closed(closed),
        ProbeOutcome::HandlerFailed => ProbeFault::HandlerFailed,
        _ => ProbeFault::UnexpectedOutcome,
    }
}

/// What is wrong with a probe that did not end as it should.
pub fn outcome_error(outcome: &ProbeOutcome) -> (fault: ProbeFault)
    ensures
        fault == outcome_fault(*outcome),
{
    match outcome {
        ProbeOutcome::BridgeClosed(closed) => ProbeFault::Closed(*closed),
        ProbeOutcome::HandlerFailed => ProbeFault::HandlerFailed,
        _ => ProbeFault::UnexpectedOutcome,
    }
}

/// What is done with an owner whose place among those put aside is given up:
/// one whose task still runs is never let go.
#[derive(Clone, Copy, Debug, PartialEq, Eq, Structural)]
pub enum QuarantineDrop {
    Release,
    Keep,
}

/// What is done with an owner whose place among those put aside is given up.
pub fn drop_quarantined_origin(terminal: bool) -> (decision: QuarantineDrop)
    ensures
        decision == (if terminal {
            QuarantineDrop::Release
        } else {
            QuarantineDrop::Keep
        }),
{
    if terminal {
        QuarantineDrop::Release
    } else {
        QuarantineDrop::Keep
    }
}

/// A probe of the driver.
#[derive(Clone, Copy, Debug, PartialEq, Eq, Structural)]
pub enum Probe {
    Affinity,
    OriginalError,
    OuterNested,
    InnerNested,
    CancelOwnership,
}

impl Probe {
    /// What the worker of the probe asks for first.
    pub open spec fn opening(self) -> ProbeAction {
        match self {
            Probe::Affinity => ProbeAction::SetStarted,
            Probe::OriginalError => ProbeAction::RaiseOriginal,
            Probe::OuterNested => ProbeAction::RunNested,
            Probe::InnerNested => ProbeAction::ObserveNested,
            Probe::CancelOwnership => ProbeAction::CancellationPoint,
        }
    }

    /// Whether the Python thread serves an action for the probe.
    pub open spec fn serves_action(self, action: ProbeAction) -> bool {
        action == self.opening() || self is Affinity && action is ObserveAffinity
    }

    /// What the worker of the probe asks for first.
    pub fn first_action(&self) -> (action: ProbeAction)
        ensures
            action == self.opening(),
    {
        match self {
            Probe::Affinity => ProbeAction::SetStarted,
            Probe::OriginalError => ProbeAction::RaiseOriginal,
            Probe::OuterNested => ProbeAction::RunNested,
            Probe::InnerNested => ProbeAction::ObserveNested,
            Probe::CancelOwnership => ProbeAction::CancellationPoint,
        }
    }

    /// Whether the Python thread serves an action for the probe.
    pub fn serves(&self, action: ProbeAction) -> (served: bool)
        ensures
            served == self.serves_action(action),
    {
        if action == self.first_action() {
            return true;
        }
        match (self, action) {
            (Probe::Affinity, ProbeAction::ObserveAffinity) => true,
            _ => false,
        }
    }
}

/// The actions that the worker of a probe asks for are all served.
pub proof fn law_probes_serve_what_they_ask_for(probe: Probe)
    ensures
        probe.serves_action(probe.opening()),
        probe is Affinity ==> probe.serves_action(ProbeAction::ObserveAffinity),
{
}

/// What a probe gives.
#[derive(Debug)]
pub enum ProbeResult {
    Affinity(AffinityReport),
    Nested(NestedReport),
    Raise(usize),
    Fault(ProbeFault),
}

/// What the affinity probe gives: an error that the handler met comes first.
pub fn finish_affinity_probe(handler_error: Option<usize>, outcome: ProbeOutcome) -> (result:
    ProbeResult)
    ensures
        match handler_error {
            Some(error) => result == ProbeResult::Raise(error),
            None => match outcome {
                ProbeOutcome::Affinity(report) => result == ProbeResult::Affinity(report),
                other => result == ProbeResult::Fault(outcome_fault(other)),
            },
        },
{
    match handler_error {
        Some(error) => ProbeResult::Raise(error),
        None => match outcome {
            ProbeOutcome::Affinity(report) => ProbeResult::Affinity(report),
            other => ProbeResult::Fault(outcome_error(&other)),
        },
    }
}

/// What a nested probe gives: an error that the handler met comes first.
pub fn finish_nested_probe(handler_error: Option<usize>, outcome: ProbeOutcome) -> (result:
    ProbeResult)
    ensures
        match handler_error {
            Some(error) => result == ProbeResult::Raise(error),
            None => match outcome {
                ProbeOutcome::Nested(report) => result == ProbeResult::Nested(report),
                other => result == ProbeResult::Fault(outcome_fault(other)),
            },
        },
{
    match handler_error {
        Some(error) => ProbeResult::Raise(error),
        None => match outcome {
            ProbeOutcome::Nested(report) => ProbeResult::Nested(report),
            other => ProbeResult::Fault(outcome_error(&other)),
        },
    }
}

/// What the error probe gives: the very error it was handed.
pub fn finish_error_probe(original: Option<usize>, outcome: ProbeOutcome) -> (result: ProbeResult)
    ensures
        match outcome {
            ProbeOutcome::OriginalRaised => match original {
                Some(error) => result == ProbeResult::Raise(error),
                None => result == ProbeResult::Fault(ProbeFault::LostOriginal),
            },
            other => result == ProbeResult::Fault(outcome_fault(other)),
        },
{
    match outcome {
        ProbeOutcome::OriginalRaised => match original {
            Some(error) => ProbeResult::Raise(error),
            None => ProbeResult::Fault(ProbeFault::LostOriginal),
        },
        other => ProbeResult::Fault(outcome_error(&other)),
    }
}

/// What a signal that comes together with a ready result leads to: it is
/// raised, and the result is not even looked at.
pub fn ready_error_fault(raised: bool, task_was_polled: bool) -> (fault: Option<ProbeFault>)
    ensures
        fault == (if raised && !task_was_polled {
            None
        } else if raised {
            Some(ProbeFault::PolledBeforeSignal)
        } else {
            Some(ProbeFault::AcceptedOverSignal)
        }),
{
    if raised && !task_was_polled {
        None
    } else if raised {
        Some(ProbeFault::PolledBeforeSignal)
    } else {
        Some(ProbeFault::AcceptedOverSignal)
    }
}

/// What comes of a drive's looks: a ready result is returned, and a failed task
/// raises. A running task is waited for, and every action that comes is executed
/// once the call is checked, after which the signals are looked at again.
pub proof fn law_drives_serve_until_the_task_ends(owned: bool)
    ensures
        drive_after(owned, DriveStep::CheckEntry, DriveEvent::Done) is Reap,
        drive_after(owned, DriveStep::CheckEntry, DriveEvent::Failed) is RaiseAffinity,
        drive_after(
            owned,
            drive_after(owned, DriveStep::Reap, DriveEvent::Done),
            DriveEvent::Done,
        ) is PollTask,
        drive_after(owned, DriveStep::PollTask, DriveEvent::Ready) is Return,
        drive_after(owned, DriveStep::PollTask, DriveEvent::Failed) is RaiseTask,
        drive_after(owned, DriveStep::PollTask, DriveEvent::Pending) is Receive,
        drive_after(
            owned,
            drive_after(
                owned,
                drive_after(owned, DriveStep::Receive, DriveEvent::Request),
                DriveEvent::Done,
            ),
            DriveEvent::Done,
        ) is CheckSignals,
        drive_after(owned, DriveStep::Receive, DriveEvent::Request) is CheckAction,
        drive_after(owned, DriveStep::CheckAction, DriveEvent::Done) is Execute,
        drive_after(owned, DriveStep::CheckAction, DriveEvent::Failed) is RaiseAffinity,
        drive_after(owned, DriveStep::Receive, DriveEvent::Timeout) is CheckSignals,
        drive_after(
            owned,
            drive_after(owned, DriveStep::Receive, DriveEvent::Disconnected),
            DriveEvent::Done,
        ) is CheckSignals,
        drive_after(owned, DriveStep::Receive, DriveEvent::Disconnected) is Sleep,
{
}

/// A signal stops the task before it is raised: the task is told to stop and
/// looked at until it has ended. An owner is put aside where that takes too long,
/// and without an owner it is waited on.
pub proof fn law_signals_stop_the_task(owned: bool, event: DriveEvent)
    ensures
        drive_after(owned, DriveStep::CheckSignals, DriveEvent::Failed) is Cancel,
        drive_after(owned, DriveStep::Cancel, DriveEvent::Done) is PollCancelled,
        drive_after(owned, DriveStep::Cancel, DriveEvent::Failed) is RaiseTask,
        drive_after(
            owned,
            drive_after(owned, DriveStep::PollCancelled, DriveEvent::Pending),
            event,
        ) is PollCancelled,
        drive_after(false, DriveStep::PollCancelled, DriveEvent::Overdue) == drive_after(
            false,
            DriveStep::PollCancelled,
            DriveEvent::Pending,
        ),
        drive_after(true, DriveStep::PollCancelled, DriveEvent::Overdue) is Quarantine,
        drive_after(owned, DriveStep::Quarantine, event) is RaiseSignal,
        drive_after(owned, DriveStep::PollCancelled, DriveEvent::Ready) is RaiseSignal,
        drive_after(owned, DriveStep::PollCancelled, DriveEvent::Failed) is RaiseSignal,
{
}

/// Owners that are let go and owners that are kept make up all that were put
/// aside, and only those whose tasks have ended are let go.
pub proof fn law_only_ended_owners_are_released<E>(entries: Seq<E>, ended: Seq<bool>)
    requires
        ended.len() == entries.len(),
    ensures
        still_running(entries, ended).len() + still_running(
            entries,
            ended.map_values(|end: bool| !end),
        ).len() == entries.len(),
        (forall|place: int| 0 <= place < ended.len() ==> !#[trigger] ended[place])
            ==> still_running(entries, ended) == entries,
        (forall|place: int| 0 <= place < ended.len() ==> #[trigger] ended[place]) ==> still_running(
            entries,
            ended,
        ).len() == 0,
    decreases entries.len(),
{
    let other = ended.map_values(|end: bool| !end);
    if entries.len() > 0 {
        let fewer = entries.drop_last();
        let less = ended.drop_last();
        law_only_ended_owners_are_released(fewer, less);
        assert(other.drop_last() =~= less.map_values(|end: bool| !end));
        assert(other.last() == !ended.last());
        if forall|place: int| 0 <= place < ended.len() ==> !#[trigger] ended[place] {
            assert(!ended[ended.len() - 1]);
            assert forall|place: int| 0 <= place < less.len() implies !#[trigger] less[place] by {
                assert(less[place] == ended[place]);
            }
            assert(fewer.push(entries.last()) =~= entries);
        }
        if forall|place: int| 0 <= place < ended.len() ==> #[trigger] ended[place] {
            assert(ended[ended.len() - 1]);
            assert forall|place: int| 0 <= place < less.len() implies #[trigger] less[place] by {
                assert(less[place] == ended[place]);
            }
        }
    } else {
        assert(still_running(entries, ended) =~= entries);
    }
}

/// A probe that came to no report is at fault for what ended it.
pub proof fn law_faults_of_probes(outcome: ProbeOutcome)
    ensures
        outcome_fault(outcome) is HandlerFailed <==> outcome is HandlerFailed,
        outcome_fault(outcome) is Closed <==> outcome is BridgeClosed,
        outcome matches ProbeOutcome::BridgeClosed(closed) ==> outcome_fault(outcome)
            == ProbeFault::Closed(closed),
        outcome_fault(outcome) is UnexpectedOutcome <==> !(outcome is HandlerFailed || outcome
            is BridgeClosed),
{
}

/// A probe begins with its own action and serves no other one's.
pub proof fn law_probes_keep_to_their_actions(probe: Probe, action: ProbeAction)
    ensures
        probe.serves_action(action) ==> (action is SetStarted || action is ObserveAffinity <==> probe
            is Affinity),
        probe.serves_action(action) ==> (action is RaiseOriginal <==> probe is OriginalError),
        probe.serves_action(action) ==> (action is RunNested <==> probe is OuterNested),
        probe.serves_action(action) ==> (action is ObserveNested <==> probe is InnerNested),
        probe.serves_action(action) ==> (action is CancellationPoint <==> probe
            is CancelOwnership),
        probe is Affinity ==> probe.opening() is SetStarted,
{
}

/// Each way to lose the owning thread has its own words.
pub proof fn law_words_of_affinity_lost()
    ensures
        AffinityLost::Thread.words() == "Python action moved off its entering OS thread"@,
        AffinityLost::Interpreter.words() == "Python action moved to a different interpreter"@,
{
}

/// Each probe fault has its own words.
pub proof fn law_words_of_probe_fault()
    ensures
        ProbeFault::UnexpectedAction.words() == "runtime probe received an unexpected action"@,
        ProbeFault::LostOriginal.words() == "runtime probe lost its original exception"@,
        ProbeFault::UnexpectedOutcome.words() == "runtime probe returned an unexpected outcome"@,
        ProbeFault::WorkerStopped.words() == "native requests worker stopped unexpectedly"@,
{
}

} // verus!
