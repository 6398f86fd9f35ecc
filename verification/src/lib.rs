//! A small, robust command protocol for talking to a microcontroller over a
//! half-duplex byte stream, with flow control by acknowledgment.
//!
//! The crate holds the rules of the protocol, each with a machine-checked
//! contract. It performs no I/O, never sleeps and starts no thread: the
//! program around it owns the transport, the queue and the workers, and asks
//! the crate what the bytes mean and what to do next.
//!
//! * [`order`]: the closed set of command kinds and their wire tags.
//! * [`codec`]: little-endian two's-complement encoding of 8, 16 and 32 bit
//!   integers.
//! * [`stream`]: an in-memory byte stream, and the integer reads and writes
//!   on it.
//! * [`frame`]: a tag with the payload that its order calls for.
//! * [`gate`]: the counter of permits that bounds the commands in flight.
//! * [`dispatcher`], [`listener`], [`handshake`]: the three loops of a
//!   session as state machines.
//! * [`session`]: the session as a whole, and what holds of every
//!   interleaving of its workers.

pub mod codec;
pub mod dispatcher;
pub mod frame;
pub mod gate;
pub mod handshake;
pub mod listener;
pub mod order;
pub mod session;
pub mod stream;

pub use crate::codec::{
    decode_i16, decode_i32, decode_i8, encode_i16, encode_i32, encode_i8, CodecError,
};
pub use crate::dispatcher::{DispatcherEvent, DispatcherState};
pub use crate::frame::{
    decode_frame, encode_command, missing_bytes, read_frame, write_command, Command, Frame,
};
pub use crate::gate::Gate;
pub use crate::handshake::{handshake_step, HandshakeStep};
pub use crate::listener::{ListenerEffect, ListenerState, ReadOutcome};
pub use crate::order::{convert_i8_to_order, convert_order_to_i8, Order};
pub use crate::stream::{
    read_i16, read_i32, read_i8, write_i16, write_i32, write_i8, ByteStream,
};
