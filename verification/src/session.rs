//! The session as a whole: queue, gate, dispatcher and listener side by
//! side, and what holds of every way their steps can interleave.
//!
//! Each worker takes its steps one at a time, and a step of one can fall
//! between any two steps of the other. A run of the session is therefore a
//! sequence of steps, each one made by the controller, the dispatcher or the
//! listener. The model below says which step can be taken in which state,
//! and keeps count of the permits and a record of the commands. The laws
//! speak of every run.

use crate::dispatcher::{DispatcherEvent, DispatcherState};
use crate::frame::Command;
use crate::gate::GateModel;
use crate::listener::{ListenerState, ReadOutcome};
use vstd::prelude::*;

verus! {

/// The state of a session.
pub struct SessionModel {
    /// The flow-control gate.
    pub gate: GateModel,
    /// The state of the dispatcher.
    pub dispatcher: DispatcherState,
    /// The state of the listener.
    pub listener: ListenerState,
    /// The exit flag.
    pub exit_requested: bool,
    /// The commands that wait in the queue, oldest first.
    pub queue: Seq<Command>,
    /// Every command that was ever queued, in the order of queuing.
    pub enqueued: Seq<Command>,
    /// Every command that was written to the transport, in the order of
    /// writing.
    pub sent: Seq<Command>,
    /// Permits that the dispatcher has acquired so far.
    pub acquired: nat,
    /// Permits that the listener has released so far.
    pub released: nat,
}

/// One step of a session.
pub enum SessionStep {
    /// The controller queues a command.
    Enqueue(Command),
    /// The controller sets the exit flag.
    RequestExit,
    /// The operation that the dispatcher was waiting on completes.
    Dispatch(DispatcherEvent),
    /// A read attempt of the listener completes.
    Listen(ReadOutcome),
}

/// Where a worker stands between its start and its end.
#[derive(PartialEq, Eq, Structural)]
pub enum Phase {
    /// At work.
    Running,
    /// Still at work though the exit flag is set: the worker has not looked
    /// at the flag since.
    Draining,
    /// Ended, by the exit flag or by a failure; the worker's thread can be
    /// joined.
    Stopped,
}

impl Phase {
    /// The place of a phase in the order `Running`, `Draining`, `Stopped`.
    pub open spec fn rank(self) -> nat {
        match self {
            Phase::Running => 0,
            Phase::Draining => 1,
            Phase::Stopped => 2,
        }
    }
}

impl SessionModel {
    /// A session at its start, with `capacity` permits.
    pub open spec fn start(capacity: nat) -> SessionModel {
        SessionModel {
            gate: GateModel::new(capacity),
            dispatcher: DispatcherState::initial(),
            listener: ListenerState::initial(),
            exit_requested: false,
            queue: Seq::empty(),
            enqueued: Seq::empty(),
            sent: Seq::empty(),
            acquired: 0,
            released: 0,
        }
    }

    /// Number of commands that the dispatcher has issued.
    pub open spec fn issued(self) -> nat {
        self.sent.len()
    }

    /// Commands that were issued and not yet acknowledged.
    pub open spec fn in_flight(self) -> int {
        self.issued() - self.released
    }

    /// The phase of the dispatcher. It looks at the exit flag only after a
    /// write, so it can be at work with the flag set: it is draining then.
    pub open spec fn dispatcher_phase(self) -> Phase {
        if self.dispatcher.ended() {
            Phase::Stopped
        } else if self.exit_requested {
            Phase::Draining
        } else {
            Phase::Running
        }
    }

    /// The phase of the listener. It looks at the exit flag after every
    /// read attempt, so it is never long at work with the flag set, and it
    /// has no phase of its own for that.
    pub open spec fn listener_phase(self) -> Phase {
        if self.listener.ended() {
            Phase::Stopped
        } else {
            Phase::Running
        }
    }

    /// Whether `step` can be taken in this state.
    ///
    /// * The dispatcher completes only the operation it waits for. Its
    ///   acquire completes only while a permit is available, its dequeue
    ///   gives the oldest command of the queue, and what it reads of the
    ///   exit flag is the flag.
    /// * The listener reads only while it runs. It reads an acknowledgment
    ///   only for a command that was issued and not yet acknowledged: the
    ///   peer acknowledges what it received, each command once.
    pub open spec fn allows(self, step: SessionStep) -> bool {
        match step {
            SessionStep::Enqueue(_) => true,
            SessionStep::RequestExit => true,
            SessionStep::Dispatch(event) => {
                &&& self.dispatcher.awaits(event)
                &&& event is PermitAcquired ==> self.gate.can_acquire()
                &&& event matches DispatcherEvent::CommandDequeued(command) ==> self.queue.len() > 0
                    && self.queue[0] == command
                &&& event matches DispatcherEvent::FrameWritten { exit_requested }
                    ==> exit_requested == self.exit_requested
            },
            SessionStep::Listen(outcome) => {
                &&& !self.listener.ended()
                &&& self.listener.effect(outcome) is ReleasePermit ==> self.released
                    < self.issued()
            },
        }
    }

    /// The state after `step`.
    pub open spec fn next(self, step: SessionStep) -> SessionModel {
        match step {
            SessionStep::Enqueue(command) => SessionModel {
                queue: self.queue.push(command),
                enqueued: self.enqueued.push(command),
                ..self
            },
            SessionStep::RequestExit => SessionModel { exit_requested: true, ..self },
            SessionStep::Dispatch(event) => SessionModel {
                dispatcher: self.dispatcher.after(event),
                gate: if event is PermitAcquired {
                    self.gate.acquire()
                } else {
                    self.gate
                },
                acquired: if event is PermitAcquired {
                    self.acquired + 1
                } else {
                    self.acquired
                },
                queue: if event is CommandDequeued {
                    self.queue.drop_first()
                } else {
                    self.queue
                },
                sent: if event is FrameWritten {
                    self.sent + self.in_hand()
                } else {
                    self.sent
                },
                ..self
            },
            SessionStep::Listen(outcome) => {
                let releases = self.listener.effect(outcome) is ReleasePermit;
                SessionModel {
                    listener: self.listener.after(outcome, self.exit_requested),
                    gate: if releases {
                        self.gate.release()
                    } else {
                        self.gate
                    },
                    released: if releases {
                        self.released + 1
                    } else {
                        self.released
                    },
                    ..self
                }
            },
        }
    }

    /// The state after all of `steps`, taken in order.
    pub open spec fn after(self, steps: Seq<SessionStep>) -> SessionModel
        decreases steps.len(),
    {
        if steps.len() == 0 {
            self
        } else {
            self.after(steps.drop_last()).next(steps.last())
        }
    }

    /// Whether `steps` is a run from this state: each step can be taken in
    /// the state that the steps before it lead to.
    pub open spec fn runs(self, steps: Seq<SessionStep>) -> bool
        decreases steps.len(),
    {
        steps.len() == 0 || (self.runs(steps.drop_last()) && self.after(steps.drop_last()).allows(
            steps.last(),
        ))
    }

    /// The state that `steps` lead to from the start of a session with
    /// `capacity` permits.
    pub open spec fn reached(capacity: nat, steps: Seq<SessionStep>) -> SessionModel {
        SessionModel::start(capacity).after(steps)
    }

    /// The command that the dispatcher has taken from the queue and not yet
    /// written, if there is one.
    pub open spec fn in_hand(self) -> Seq<Command> {
        match self.dispatcher {
            DispatcherState::Sending(command) => seq![command],
            _ => Seq::empty(),
        }
    }

    /// Permits that the dispatcher took without a command having gone out
    /// for them: the one it holds while it waits for a command or writes,
    /// and the one that a failed write used up.
    pub open spec fn pending(self) -> nat {
        if self.dispatcher.holds_permit() || self.dispatcher is Failed {
            1
        } else {
            0
        }
    }

    /// The bookkeeping of the session adds up.
    ///
    /// * Every permit is either available, or pending with the dispatcher,
    ///   or out with a command in flight.
    /// * Nothing was acknowledged that was not issued.
    /// * What was sent is the beginning of what was queued; and unless a
    ///   write failed, what was queued is what was sent, then the command
    ///   in the dispatcher's hand, then the queue.
    pub open spec fn balanced(self) -> bool {
        &&& self.gate.permits + self.acquired == self.gate.capacity + self.released
        &&& self.acquired == self.issued() + self.pending()
        &&& self.released <= self.issued()
        &&& self.sent.len() <= self.enqueued.len()
        &&& self.enqueued.take(self.sent.len() as int) == self.sent
        &&& !(self.dispatcher is Failed) ==> self.enqueued == self.sent + self.in_hand()
            + self.queue
    }
}

/// A step that the state allows keeps the books balanced and the capacity
/// as it was.
pub proof fn lemma_step_keeps_balance(state: SessionModel, step: SessionStep)
    requires
        state.balanced(),
        state.allows(step),
    ensures
        state.next(step).balanced(),
        state.next(step).gate.capacity == state.gate.capacity,
{
    let next = state.next(step);
    assert(next.enqueued.take(next.sent.len() as int) =~= next.sent);
    if !(next.dispatcher is Failed) {
        assert(next.enqueued =~= next.sent + next.in_hand() + next.queue);
    }
}

/// The books are balanced after every run from the start.
pub proof fn lemma_run_keeps_balance(capacity: nat, steps: Seq<SessionStep>)
    requires
        SessionModel::start(capacity).runs(steps),
    ensures
        SessionModel::reached(capacity, steps).balanced(),
        SessionModel::reached(capacity, steps).gate.capacity == capacity,
    decreases steps.len(),
{
    if steps.len() > 0 {
        lemma_run_keeps_balance(capacity, steps.drop_last());
        lemma_step_keeps_balance(SessionModel::reached(capacity, steps.drop_last()), steps.last());
    } else {
        let start = SessionModel::start(capacity);
        assert(start.enqueued.take(0) =~= start.sent);
    }
}

/// Every beginning of a run is a run.
pub proof fn lemma_run_prefix(state: SessionModel, first: Seq<SessionStep>, then: Seq<SessionStep>)
    requires
        state.runs(first + then),
    ensures
        state.runs(first),
    decreases then.len(),
{
    if then.len() > 0 {
        assert((first + then).drop_last() =~= first + then.drop_last());
        lemma_run_prefix(state, first, then.drop_last());
    }
}

/// Backpressure: however the steps of the workers interleave, the commands
/// in flight never outnumber the permits that the session started with.
pub proof fn lemma_in_flight_bounded(capacity: nat, steps: Seq<SessionStep>)
    requires
        SessionModel::start(capacity).runs(steps),
    ensures
        0 <= SessionModel::reached(capacity, steps).in_flight() <= capacity,
{
    lemma_run_keeps_balance(capacity, steps);
}

/// Backpressure, over a stretch of a run: while no permit is released, the
/// dispatcher issues at most as many commands as the session started with
/// permits.
pub proof fn lemma_issues_without_release_bounded(
    capacity: nat,
    before: Seq<SessionStep>,
    stretch: Seq<SessionStep>,
)
    requires
        SessionModel::start(capacity).runs(before + stretch),
        SessionModel::reached(capacity, before + stretch).released == SessionModel::reached(
            capacity,
            before,
        ).released,
    ensures
        SessionModel::reached(capacity, before + stretch).issued() - SessionModel::reached(
            capacity,
            before,
        ).issued() <= capacity,
{
    lemma_run_prefix(SessionModel::start(capacity), before, stretch);
    lemma_run_keeps_balance(capacity, before);
    lemma_run_keeps_balance(capacity, before + stretch);
}

/// No permit leaks and none is made up: after every run the available
/// permits are those of the start, less the acquired, plus the released. So
/// there are never more permits than at the start, and the releases never
/// outnumber the acquires, let alone the acquires and the permits of the
/// start together.
pub proof fn lemma_permits_conserved(capacity: nat, steps: Seq<SessionStep>)
    requires
        SessionModel::start(capacity).runs(steps),
    ensures
        SessionModel::reached(capacity, steps).gate.permits == capacity - SessionModel::reached(
            capacity,
            steps,
        ).acquired + SessionModel::reached(capacity, steps).released,
        SessionModel::reached(capacity, steps).gate.permits <= capacity,
        SessionModel::reached(capacity, steps).released <= SessionModel::reached(
            capacity,
            steps,
        ).acquired,
        SessionModel::reached(capacity, steps).released <= SessionModel::reached(
            capacity,
            steps,
        ).acquired + capacity,
{
    lemma_run_keeps_balance(capacity, steps);
}

/// First in, first out: the commands that were sent are the first of the
/// commands that were queued, in the order of queuing, none left out and
/// none sent twice.
pub proof fn lemma_sent_in_queue_order(capacity: nat, steps: Seq<SessionStep>)
    requires
        SessionModel::start(capacity).runs(steps),
    ensures
        SessionModel::reached(capacity, steps).sent.len() <= SessionModel::reached(
            capacity,
            steps,
        ).enqueued.len(),
        SessionModel::reached(capacity, steps).sent == SessionModel::reached(
            capacity,
            steps,
        ).enqueued.take(SessionModel::reached(capacity, steps).sent.len() as int),
{
    lemma_run_keeps_balance(capacity, steps);
}

/// A worker never goes back: a step leaves each worker in its phase or
/// takes it on, from `Running` to `Draining` to `Stopped`.
pub proof fn lemma_phases_advance(state: SessionModel, step: SessionStep)
    ensures
        state.dispatcher_phase().rank() <= state.next(step).dispatcher_phase().rank(),
        state.listener_phase().rank() <= state.next(step).listener_phase().rank(),
{
}

/// The steps that the dispatcher has left once the exit flag is set: the
/// operation it waits for and those after it, up to the write after which
/// it looks at the flag.
pub open spec fn last_steps(state: SessionModel) -> Seq<SessionStep> {
    let acquire = SessionStep::Dispatch(DispatcherEvent::PermitAcquired);
    let dequeue = SessionStep::Dispatch(DispatcherEvent::CommandDequeued(state.queue[0]));
    let write = SessionStep::Dispatch(DispatcherEvent::FrameWritten { exit_requested: true });
    match state.dispatcher {
        DispatcherState::AwaitingPermit => seq![acquire, dequeue, write],
        DispatcherState::AwaitingCommand => seq![dequeue, write],
        DispatcherState::Sending(_) => seq![write],
        DispatcherState::Stopped | DispatcherState::Failed => Seq::empty(),
    }
}

/// Shutdown of the dispatcher: once the exit flag is set and one more
/// command is queued, the dispatcher can take its last steps, at most
/// three, and has stopped after them. It needs a permit for that, in its
/// hand or available: with none, and no acknowledgment to come, it waits
/// for good.
pub proof fn lemma_dispatcher_shuts_down(state: SessionModel)
    requires
        state.exit_requested,
        state.dispatcher.holds_permit() || state.gate.can_acquire(),
        state.dispatcher is Sending || state.queue.len() > 0,
    ensures
        last_steps(state).len() <= 3,
        state.runs(last_steps(state)),
        state.after(last_steps(state)).dispatcher_phase() == Phase::Stopped,
{
    reveal_with_fuel(SessionModel::runs, 4);
    reveal_with_fuel(SessionModel::after, 4);
}

/// Progress: when the listener releases a permit, a dispatcher that waits
/// for one can go on.
pub proof fn lemma_release_lets_dispatcher_on(state: SessionModel, outcome: ReadOutcome)
    requires
        state.dispatcher is AwaitingPermit,
        state.listener.effect(outcome) is ReleasePermit,
    ensures
        state.next(SessionStep::Listen(outcome)).allows(
            SessionStep::Dispatch(DispatcherEvent::PermitAcquired),
        ),
{
}

} // verus!
