//! The dispatcher: the worker that sends queued commands, one permit each.
//!
//! The dispatcher is written as a state machine. Its state says what it is
//! waiting for. Whoever runs it does the waiting (acquires a permit, takes a
//! command from the queue, writes the frame to the transport) and reports
//! the outcome as an event.
//!
//! | state             | event                                    | next state       |
//! |-------------------|------------------------------------------|------------------|
//! | `AwaitingPermit`  | `PermitAcquired`                         | `AwaitingCommand`|
//! | `AwaitingCommand` | `CommandDequeued(c)`                     | `Sending(c)`     |
//! | `Sending(c)`      | `FrameWritten { exit_requested: false }` | `AwaitingPermit` |
//! | `Sending(c)`      | `FrameWritten { exit_requested: true }`  | `Stopped`        |
//! | `Sending(c)`      | `WriteFailed`                            | `Failed`         |
//!
//! The exit flag is looked at only after a frame was written. A dispatcher
//! that waits for a permit or for a command does not see it: whoever sets
//! the flag also queues one more command to get the dispatcher past its
//! wait.

use crate::frame::Command;
use vstd::prelude::*;

verus! {

/// What the dispatcher is waiting for, or how it ended.
#[derive(Debug, PartialEq, Eq, Clone, Copy, Structural)]
pub enum DispatcherState {
    /// Waiting for a permit.
    AwaitingPermit,
    /// Holding a permit, waiting for a command from the queue.
    AwaitingCommand,
    /// Holding a permit and a command whose frame is to be written.
    Sending(Command),
    /// Ended after it saw the exit flag.
    Stopped,
    /// Ended because a write to the transport failed.
    Failed,
}

/// What happened to the operation that the dispatcher was waiting on.
#[derive(Debug, PartialEq, Eq, Clone, Copy, Structural)]
pub enum DispatcherEvent {
    /// A permit was acquired.
    PermitAcquired,
    /// A command was taken from the queue.
    CommandDequeued(Command),
    /// The frame was written; `exit_requested` is the exit flag as read
    /// after the write.
    FrameWritten { exit_requested: bool },
    /// The transport refused the frame.
    WriteFailed,
}

impl DispatcherState {
    /// The state in which a dispatcher starts.
    pub open spec fn initial() -> DispatcherState {
        DispatcherState::AwaitingPermit
    }

    /// Whether the dispatcher has ended.
    pub open spec fn ended(self) -> bool {
        self is Stopped || self is Failed
    }

    /// Whether the dispatcher holds a permit that it has not yet used to send
    /// a command.
    pub open spec fn holds_permit(self) -> bool {
        self is AwaitingCommand || self is Sending
    }

    /// Whether `event` is the outcome that this state waits for.
    pub open spec fn awaits(self, event: DispatcherEvent) -> bool {
        match self {
            DispatcherState::AwaitingPermit => event is PermitAcquired,
            DispatcherState::AwaitingCommand => event is CommandDequeued,
            DispatcherState::Sending(_) => event is FrameWritten || event is WriteFailed,
            DispatcherState::Stopped | DispatcherState::Failed => false,
        }
    }

    /// The state after `event`. An event that the state does not wait for
    /// changes nothing.
    pub open spec fn after(self, event: DispatcherEvent) -> DispatcherState {
        match (self, event) {
            (DispatcherState::AwaitingPermit, DispatcherEvent::PermitAcquired) => {
                DispatcherState::AwaitingCommand
            },
            (DispatcherState::AwaitingCommand, DispatcherEvent::CommandDequeued(command)) => {
                DispatcherState::Sending(command)
            },
            (DispatcherState::Sending(_), DispatcherEvent::FrameWritten { exit_requested }) => {
                if exit_requested {
                    DispatcherState::Stopped
                } else {
                    DispatcherState::AwaitingPermit
                }
            },
            (DispatcherState::Sending(_), DispatcherEvent::WriteFailed) => DispatcherState::Failed,
            _ => self,
        }
    }

    /// A dispatcher at its start: waiting for a permit.
    pub fn new() -> (state: DispatcherState)
        ensures
            state == DispatcherState::initial(),
    {
        DispatcherState::AwaitingPermit
    }

    /// Whether the dispatcher has ended, stopped or failed.
    pub fn has_ended(self) -> (ended: bool)
        ensures
            ended == self.ended(),
    {
        match self {
            DispatcherState::Stopped | DispatcherState::Failed => true,
            _ => false,
        }
    }

    /// Take the dispatcher from this state to the next, given what happened
    /// to the operation it was waiting on.
    pub fn step(self, event: DispatcherEvent) -> (next: DispatcherState)
        ensures
            next == self.after(event),
    {
        match self {
            DispatcherState::AwaitingPermit => match event {
                DispatcherEvent::PermitAcquired => DispatcherState::AwaitingCommand,
                _ => self,
            },
            DispatcherState::AwaitingCommand => match event {
                DispatcherEvent::CommandDequeued(command) => DispatcherState::Sending(command),
                _ => self,
            },
            DispatcherState::Sending(_) => match event {
                DispatcherEvent::FrameWritten { exit_requested } => {
                    if exit_requested {
                        DispatcherState::Stopped
                    } else {
                        DispatcherState::AwaitingPermit
                    }
                },
                DispatcherEvent::WriteFailed => DispatcherState::Failed,
                _ => self,
            },
            DispatcherState::Stopped | DispatcherState::Failed => self,
        }
    }
}

/// Shutdown: once the exit flag is set, a dispatcher that gets its permit,
/// one more command and a successful write has stopped, from whichever
/// waiting state it started. It takes at most three events.
pub proof fn lemma_dispatcher_stops(state: DispatcherState, last: Command)
    requires
        !state.ended(),
    ensures
        state.after(DispatcherEvent::PermitAcquired).after(
            DispatcherEvent::CommandDequeued(last),
        ).after(DispatcherEvent::FrameWritten { exit_requested: true })
            == DispatcherState::Stopped,
{
}

/// An ended dispatcher stays as it is, whatever is reported to it.
pub proof fn lemma_dispatcher_end_is_final(state: DispatcherState, event: DispatcherEvent)
    requires
        state.ended(),
    ensures
        state.after(event) == state,
{
}

/// A dispatcher that waits for a permit goes on only when it gets one:
/// nothing else, the exit flag included, moves it. This is the gap in the
/// cooperative shutdown: with every permit taken and no acknowledgment to
/// come, the dispatcher never ends.
pub proof fn lemma_dispatcher_needs_permit(event: DispatcherEvent)
    requires
        !(event is PermitAcquired),
    ensures
        DispatcherState::AwaitingPermit.after(event) == DispatcherState::AwaitingPermit,
{
}

} // verus!
