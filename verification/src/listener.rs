//! The listener: the worker that reads frames from the peer and releases a
//! permit for each acknowledgment.
//!
//! Like the dispatcher it is a state machine. Whoever runs it makes one read
//! attempt on the transport, reads the exit flag, and hands both to
//! [`ListenerState::step`], which says what the read amounts to and in which
//! state the listener goes on.

use crate::frame::{Command, Frame};
use crate::order::Order;
use vstd::prelude::*;

verus! {

/// Milliseconds to wait before the next read attempt when the last one found
/// no data.
pub const BACKOFF_MILLIS: u64 = 100;

/// What one read attempt on the transport gave.
#[derive(Debug, PartialEq, Eq, Clone, Copy, Structural)]
pub enum ReadOutcome {
    /// A frame was read and decoded.
    Frame(Frame),
    /// No data was there within the timeout. This is no failure.
    NoData,
    /// The link failed.
    Fault,
}

/// Whether the listener goes on reading, or how it ended.
#[derive(Debug, PartialEq, Eq, Clone, Copy, Structural)]
pub enum ListenerState {
    /// Reading. With `backoff` set the last attempt found no data, and the
    /// next one is to wait [`BACKOFF_MILLIS`] first.
    Running { backoff: bool },
    /// Ended after it saw the exit flag.
    Stopped,
    /// Ended because the link failed.
    Failed,
}

/// What a read attempt amounts to for the rest of the session.
#[derive(Debug, PartialEq, Eq, Clone, Copy, Structural)]
pub enum ListenerEffect {
    /// Nothing to do.
    Nothing,
    /// The peer acknowledged a command: one permit is to be released.
    ReleasePermit,
    /// The peer sent an order other than an acknowledgment.
    Deliver(Command),
    /// The peer sent a tag that names no order. It is reported and the
    /// listener goes on.
    ReportUnknown(i8),
}

impl ListenerState {
    /// The state in which a listener starts.
    pub open spec fn initial() -> ListenerState {
        ListenerState::Running { backoff: false }
    }

    /// Whether the listener has ended.
    pub open spec fn ended(self) -> bool {
        self is Stopped || self is Failed
    }

    /// What `outcome` amounts to. Only an acknowledgment read by a running
    /// listener releases a permit.
    pub open spec fn effect(self, outcome: ReadOutcome) -> ListenerEffect {
        if self.ended() {
            ListenerEffect::Nothing
        } else {
            match outcome {
                ReadOutcome::Frame(Frame::Known(command)) => {
                    if command.order.is_acknowledgment() {
                        ListenerEffect::ReleasePermit
                    } else {
                        ListenerEffect::Deliver(command)
                    }
                },
                ReadOutcome::Frame(Frame::Unknown(tag)) => ListenerEffect::ReportUnknown(tag),
                ReadOutcome::NoData | ReadOutcome::Fault => ListenerEffect::Nothing,
            }
        }
    }

    /// The state after a read attempt that gave `outcome`, with the exit
    /// flag read after it.
    ///
    /// A failed link ends the listener at once. Otherwise the exit flag
    /// decides: if it is set the listener stops, if not it goes on, backing
    /// off exactly when the attempt found no data.
    pub open spec fn after(self, outcome: ReadOutcome, exit_requested: bool) -> ListenerState {
        if self.ended() {
            self
        } else if outcome is Fault {
            ListenerState::Failed
        } else if exit_requested {
            ListenerState::Stopped
        } else {
            ListenerState::Running { backoff: outcome is NoData }
        }
    }

    /// A listener at its start: reading, with no backoff.
    pub fn new() -> (state: ListenerState)
        ensures
            state == ListenerState::initial(),
    {
        ListenerState::Running { backoff: false }
    }

    /// Whether the listener has ended, stopped or failed.
    pub fn has_ended(self) -> (ended: bool)
        ensures
            ended == self.ended(),
    {
        match self {
            ListenerState::Running { .. } => false,
            _ => true,
        }
    }

    /// Whether the next read attempt is to wait [`BACKOFF_MILLIS`] first.
    pub fn backs_off(self) -> (backoff: bool)
        ensures
            backoff == (self == ListenerState::Running { backoff: true }),
    {
        match self {
            ListenerState::Running { backoff } => backoff,
            _ => false,
        }
    }

    /// Take in one read attempt: returns the state in which the listener
    /// goes on, and what the read amounts to.
    pub fn step(self, outcome: ReadOutcome, exit_requested: bool) -> (reaction: (
        ListenerState,
        ListenerEffect,
    ))
        ensures
            reaction.0 == self.after(outcome, exit_requested),
            reaction.1 == self.effect(outcome),
    {
        if self.has_ended() {
            return (self, ListenerEffect::Nothing);
        }
        let effect = match outcome {
            ReadOutcome::Frame(Frame::Known(command)) => match command.order {
                Order::RECEIVED => ListenerEffect::ReleasePermit,
                _ => ListenerEffect::Deliver(command),
            },
            ReadOutcome::Frame(Frame::Unknown(tag)) => ListenerEffect::ReportUnknown(tag),
            ReadOutcome::NoData => ListenerEffect::Nothing,
            ReadOutcome::Fault => {
                return (ListenerState::Failed, ListenerEffect::Nothing);
            },
        };
        let next = if exit_requested {
            ListenerState::Stopped
        } else {
            match outcome {
                ReadOutcome::NoData => ListenerState::Running { backoff: true },
                _ => ListenerState::Running { backoff: false },
            }
        };
        (next, effect)
    }
}

/// Shutdown: once the exit flag is set, the read attempt under way is the
/// listener's last, whatever it gives.
pub proof fn lemma_listener_stops(state: ListenerState, outcome: ReadOutcome)
    ensures
        state.after(outcome, true).ended(),
{
}

/// An ended listener stays as it is and has no effect.
pub proof fn lemma_listener_end_is_final(
    state: ListenerState,
    outcome: ReadOutcome,
    exit_requested: bool,
)
    requires
        state.ended(),
    ensures
        state.after(outcome, exit_requested) == state,
        state.effect(outcome) == ListenerEffect::Nothing,
{
}

/// A permit is released for an acknowledgment and for nothing else: not for
/// another order, an unknown tag, a timeout or a fault.
pub proof fn lemma_release_only_on_acknowledgment(state: ListenerState, outcome: ReadOutcome)
    ensures
        state.effect(outcome) is ReleasePermit <==> !state.ended() && (
        outcome matches ReadOutcome::Frame(Frame::Known(command))
            && command.order == Order::RECEIVED),
{
}

/// Neither an unknown tag nor a timeout ends the listener: with the exit
/// flag unset it goes on reading.
pub proof fn lemma_listener_tolerates(state: ListenerState, outcome: ReadOutcome)
    requires
        !state.ended(),
        !(outcome is Fault),
    ensures
        !state.after(outcome, false).ended(),
{
}

} // verus!
