//! Frames: an order's tag followed by its payload, as sent on the wire.
//!
//! The width of the payload depends on the order alone (see
//! [`Order::payload_width`]), so neither side has to negotiate it.

use crate::codec::{
    decode_i16, decode_i8, decode_int, encode_i32, encode_int, fits, lemma_decode_encode,
    lemma_encode_len, lemma_encode_prefix, radix, CodecError,
};
use crate::order::{lemma_tag_of_order, order_of_tag, Order};
use crate::stream::{overwrite, write_i8, ByteStream};
use vstd::prelude::*;
use vstd::slice::slice_subrange;

verus! {

/// A command to transmit: an order and its numeric payload.
///
/// Only as many low bytes of the payload as the order's payload is wide go
/// on the wire.
#[derive(Debug, PartialEq, Eq, Clone, Copy, Structural)]
pub struct Command {
    pub order: Order,
    pub payload: i32,
}

/// What one frame of the incoming stream holds.
#[derive(Debug, PartialEq, Eq, Clone, Copy, Structural)]
pub enum Frame {
    /// A known order with its payload; the payload of an order that carries
    /// none is 0.
    Known(Command),
    /// A tag that names no order. This is a regular outcome, not a failure.
    Unknown(i8),
}

/// The wire bytes of a command: the tag as one byte, then the payload in the
/// order's width.
pub open spec fn frame_bytes(order: Order, payload: int) -> Seq<u8> {
    encode_int(order.tag() as int, 1) + encode_int(payload, order.payload_width())
}

/// What the front of `bytes` decodes to, with the number of bytes that the
/// frame takes up.
///
/// It takes one byte for the tag. An unknown tag makes a frame of that one
/// byte; a known one is followed by the payload of its order. Where the tag
/// or a part of the payload is missing, there is no frame yet.
pub open spec fn parse_frame(bytes: Seq<u8>) -> Result<(Frame, nat), CodecError> {
    if bytes.len() < 1 {
        Err(CodecError::ShortRead)
    } else {
        let tag = decode_int(bytes.take(1));
        match order_of_tag(tag) {
            None => Ok((Frame::Unknown(tag as i8), 1nat)),
            Some(order) => {
                let end = 1 + order.payload_width();
                if bytes.len() < end {
                    Err(CodecError::ShortRead)
                } else {
                    let payload = decode_int(bytes.subrange(1, end as int));
                    Ok((Frame::Known(Command { order, payload: payload as i32 }), end))
                }
            },
        }
    }
}

/// The length of the frame at the front of `bytes`, as far as `bytes` tell
/// it: one byte until the tag is there, then the tag and the payload of its
/// order.
pub open spec fn frame_extent(bytes: Seq<u8>) -> nat {
    if bytes.len() < 1 {
        1
    } else {
        match order_of_tag(decode_int(bytes.take(1))) {
            None => 1,
            Some(order) => 1 + order.payload_width(),
        }
    }
}

/// How many bytes are still to be read before `bytes` hold a whole frame.
///
/// While the result is above zero there is no frame yet; a reader gets that
/// many bytes more and asks again. Once it is zero, [`decode_frame`]
/// succeeds.
pub fn missing_bytes(bytes: &[u8]) -> (missing: usize)
    ensures
        missing == if frame_extent(bytes@) > bytes@.len() {
            frame_extent(bytes@) - bytes@.len()
        } else {
            0
        },
        missing == 0 <==> parse_frame(bytes@) is Ok,
{
    let tag: i8 = match decode_i8(bytes) {
        Ok(tag) => tag,
        Err(_) => {
            return 1;
        },
    };
    let extent: usize = match Order::from_i8(tag) {
        Some(order) => 1 + order.payload_len(),
        None => 1,
    };
    if extent > bytes.len() {
        extent - bytes.len()
    } else {
        0
    }
}

/// Write a command to the stream: the tag of its order, then the low bytes
/// of the payload, as many as the order calls for.
pub fn write_command(file: &mut ByteStream, command: Command)
    ensures
        final(file).bytes() == overwrite(
            old(file).bytes(),
            old(file).cursor() as int,
            frame_bytes(command.order, command.payload as int),
        ),
        final(file).cursor() == old(file).cursor() + 1 + command.order.payload_width(),
{
    let payload: [u8; 4] = encode_i32(command.payload);
    let width: usize = command.order.payload_len();
    proof {
        file.lemma_cursor_in_bounds();
        lemma_encode_len(command.order.tag() as int, 1);
        lemma_encode_prefix(command.payload as int, width as nat, 4);
    }
    write_i8(file, command.order.to_i8());
    file.write_all(slice_subrange(payload.as_slice(), 0, width));
}

/// Encode a command as the bytes of its frame.
pub fn encode_command(command: Command) -> (frame: Vec<u8>)
    ensures
        frame@ == frame_bytes(command.order, command.payload as int),
{
    let mut buffer = ByteStream::new();
    write_command(&mut buffer, command);
    buffer.into_bytes()
}

/// Decode the frame at the front of `bytes`, and say how many bytes it takes
/// up.
///
/// Fails with [`CodecError::ShortRead`] exactly when the tag, or a part of
/// the payload that the tag's order calls for, is missing. An unknown tag
/// does not fail: it gives [`Frame::Unknown`].
pub fn decode_frame(bytes: &[u8]) -> (decoded: Result<(Frame, usize), CodecError>)
    ensures
        decoded matches Ok((_, used)) ==> 1 <= used <= bytes@.len(),
        decoded matches Ok((frame, used)) ==> parse_frame(bytes@) == Ok::<
            (Frame, nat),
            CodecError,
        >((frame, used as nat)),
        decoded matches Err(error) ==> parse_frame(bytes@) == Err::<(Frame, nat), CodecError>(
            error,
        ),
{
    let tag: i8 = match decode_i8(bytes) {
        Ok(tag) => tag,
        Err(error) => {
            return Err(error);
        },
    };
    let order = match Order::from_i8(tag) {
        Some(order) => order,
        None => {
            return Ok((Frame::Unknown(tag), 1));
        },
    };
    let body = slice_subrange(bytes, 1, bytes.len());
    let payload: i32 = match order {
        Order::MOTOR => match decode_i8(body) {
            Ok(speed) => speed as i32,
            Err(error) => {
                return Err(error);
            },
        },
        Order::SERVO => match decode_i16(body) {
            Ok(angle) => angle as i32,
            Err(error) => {
                return Err(error);
            },
        },
        _ => 0,
    };
    proof {
        let end = 1 + order.payload_width();
        assert(body@.take(order.payload_width() as int) =~= bytes@.subrange(1, end as int));
    }
    Ok((Frame::Known(Command { order, payload }), 1 + order.payload_len()))
}

/// Read the next frame from the stream.
///
/// Where the stream holds no complete frame the read fails with
/// [`CodecError::ShortRead`] and the stream is as before, so that the read
/// can be tried again once more bytes are there. Otherwise the position
/// moves past the frame.
pub fn read_frame(file: &mut ByteStream) -> (read: Result<Frame, CodecError>)
    ensures
        final(file).bytes() == old(file).bytes(),
        read matches Ok(frame) ==> parse_frame(old(file).unread()) matches Ok((parsed, used))
            && parsed == frame && final(file).cursor() == old(file).cursor() + used,
        read matches Err(error) ==> parse_frame(old(file).unread()) == Err::<
            (Frame, nat),
            CodecError,
        >(error) && final(file).cursor() == old(file).cursor(),
{
    let start: usize = file.position();
    match decode_frame(file.peek()) {
        Ok((frame, used)) => {
            proof {
                file.lemma_cursor_in_bounds();
            }
            file.seek(start + used);
            Ok(frame)
        },
        Err(error) => Err(error),
    }
}

/// Once the tag is there, a reader that gets the missing bytes has a whole
/// frame, whatever those bytes hold.
pub proof fn lemma_missing_bytes_complete(bytes: Seq<u8>, more: Seq<u8>)
    requires
        1 <= bytes.len() < frame_extent(bytes),
        bytes.len() + more.len() == frame_extent(bytes),
    ensures
        frame_extent(bytes + more) == frame_extent(bytes),
        parse_frame(bytes + more) is Ok,
{
}

/// The payload that comes back when `command` is sent: its low bytes, as
/// many as the payload of its order is wide, read as a signed integer.
pub open spec fn payload_received(command: Command) -> int {
    decode_int(encode_int(command.payload as int, command.order.payload_width()))
}

/// A command comes back from its frame, whatever follows the frame: the
/// order always, and the payload where it fits the order's payload width.
/// For an order without payload that is the payload 0.
pub proof fn lemma_frame_round_trip(command: Command, rest: Seq<u8>)
    ensures
        parse_frame(frame_bytes(command.order, command.payload as int) + rest) == Ok::<
            (Frame, nat),
            CodecError,
        >(
            (
                Frame::Known(
                    Command { order: command.order, payload: payload_received(command) as i32 },
                ),
                1 + command.order.payload_width(),
            ),
        ),
        fits(command.payload as int, command.order.payload_width()) ==> payload_received(command)
            == command.payload,
{
    let order = command.order;
    let width = order.payload_width();
    let payload_bytes = encode_int(command.payload as int, width);
    let bytes = frame_bytes(order, command.payload as int) + rest;
    lemma_encode_len(order.tag() as int, 1);
    lemma_encode_len(command.payload as int, width);
    lemma_tag_of_order(order);
    assert(fits(order.tag() as int, 1)) by {
        reveal_with_fuel(radix, 2);
    }
    lemma_decode_encode(order.tag() as int, 1);
    if fits(command.payload as int, width) {
        lemma_decode_encode(command.payload as int, width);
    }
    assert(bytes.subrange(1, (1 + width) as int) =~= payload_bytes);
}

} // verus!
