//! The handshake that opens a session.
//!
//! The controller sends `HELLO` and reads one order. The peer is there once
//! it answers `ALREADY_CONNECTED`; until then the controller waits and tries
//! again, without a limit on the number of attempts.

use crate::frame::Frame;
use crate::listener::ReadOutcome;
use crate::order::Order;
use vstd::prelude::*;

verus! {

/// Seconds to wait before the next attempt when the peer answered with
/// something other than `ALREADY_CONNECTED`.
pub const RETRY_SECONDS_AFTER_REPLY: u64 = 1;

/// Seconds to wait before the next attempt when the peer did not answer
/// within the timeout.
pub const RETRY_SECONDS_AFTER_TIMEOUT: u64 = 2;

/// What to do after one attempt of the handshake.
#[derive(Debug, PartialEq, Eq, Clone, Copy, Structural)]
pub enum HandshakeStep {
    /// The peer is there: the session can start.
    Connected,
    /// Wait for this many seconds, then send `HELLO` again.
    Retry { delay_seconds: u64 },
    /// The link failed: give up.
    Abort,
}

/// What one attempt of the handshake leads to, given what the read after
/// `HELLO` gave.
pub open spec fn handshake_verdict(outcome: ReadOutcome) -> HandshakeStep {
    match outcome {
        ReadOutcome::Frame(Frame::Known(command)) => {
            if command.order == Order::ALREADY_CONNECTED {
                HandshakeStep::Connected
            } else {
                HandshakeStep::Retry { delay_seconds: RETRY_SECONDS_AFTER_REPLY }
            }
        },
        ReadOutcome::Frame(Frame::Unknown(_)) => HandshakeStep::Retry {
            delay_seconds: RETRY_SECONDS_AFTER_REPLY,
        },
        ReadOutcome::NoData => HandshakeStep::Retry { delay_seconds: RETRY_SECONDS_AFTER_TIMEOUT },
        ReadOutcome::Fault => HandshakeStep::Abort,
    }
}

/// Decide what to do after one attempt of the handshake.
///
/// Only the answer `ALREADY_CONNECTED` connects. Any other answer and a
/// timeout lead to another attempt after a pause; only a failed link ends
/// the handshake.
pub fn handshake_step(outcome: ReadOutcome) -> (step: HandshakeStep)
    ensures
        step == handshake_verdict(outcome),
        step is Connected <==> (outcome matches ReadOutcome::Frame(Frame::Known(command))
            && command.order == Order::ALREADY_CONNECTED),
        step is Abort <==> outcome is Fault,
{
    match outcome {
        ReadOutcome::Frame(frame) => match frame {
            Frame::Known(command) => match command.order {
                Order::ALREADY_CONNECTED => HandshakeStep::Connected,
                _ => HandshakeStep::Retry { delay_seconds: RETRY_SECONDS_AFTER_REPLY },
            },
            Frame::Unknown(_) => HandshakeStep::Retry { delay_seconds: RETRY_SECONDS_AFTER_REPLY },
        },
        ReadOutcome::NoData => HandshakeStep::Retry { delay_seconds: RETRY_SECONDS_AFTER_TIMEOUT },
        ReadOutcome::Fault => HandshakeStep::Abort,
    }
}

} // verus!
