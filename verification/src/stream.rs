//! An in-memory byte stream with a position, and the integer reads and writes
//! of the protocol on it.
//!
//! The stream stands for the transport wherever bytes are at hand: what was
//! received is read from it, what is to be sent is written to it. Reading
//! consumes bytes at the position; writing replaces the bytes at the position
//! and appends once it has reached the end.

use crate::codec::{
    decode_i16, decode_i32, decode_i8, decode_int, encode_i16, encode_i32, encode_i8, encode_int,
    fits, lemma_decode_encode, lemma_encode_len, CodecError,
};
use vstd::prelude::*;
use vstd::slice::slice_subrange;

verus! {

/// A growable byte buffer with a read/write position.
///
/// The position always lies within the buffer or at its end: a position past
/// the end counts as the end.
#[derive(Debug, Clone)]
pub struct ByteStream {
    data: Vec<u8>,
    position: usize,
}

/// `bytes` with `written` put in at index `at`: bytes under the written range
/// are replaced, bytes after it stay, and the sequence grows where the range
/// goes past its end.
pub open spec fn overwrite(bytes: Seq<u8>, at: int, written: Seq<u8>) -> Seq<u8>
    recommends
        0 <= at <= bytes.len(),
{
    let end = at + written.len();
    bytes.take(at) + written + (if end < bytes.len() {
        bytes.skip(end)
    } else {
        Seq::empty()
    })
}

impl ByteStream {
    /// All the bytes that the stream holds, read or not.
    pub closed spec fn bytes(self) -> Seq<u8> {
        self.data@
    }

    /// The index of the next byte to read or write.
    pub closed spec fn cursor(self) -> nat {
        if self.position <= self.data.len() {
            self.position as nat
        } else {
            self.data.len() as nat
        }
    }

    /// The bytes from the position to the end: what is left to read.
    pub open spec fn unread(self) -> Seq<u8> {
        self.bytes().skip(self.cursor() as int)
    }

    /// The position never lies past the end of the stream, and the length of
    /// the stream is a machine integer.
    pub proof fn lemma_cursor_in_bounds(self)
        ensures
            self.cursor() <= self.bytes().len() <= usize::MAX,
            self.unread().len() == self.bytes().len() - self.cursor(),
    {
    }

    /// An empty stream.
    pub fn new() -> (stream: ByteStream)
        ensures
            stream.bytes() == Seq::<u8>::empty(),
            stream.cursor() == 0,
    {
        ByteStream { data: Vec::new(), position: 0 }
    }

    /// A stream that holds `data`, positioned at its start.
    pub fn from_bytes(data: Vec<u8>) -> (stream: ByteStream)
        ensures
            stream.bytes() == data@,
            stream.cursor() == 0,
    {
        ByteStream { data, position: 0 }
    }

    /// The bytes of the stream, read or not.
    pub fn into_bytes(self) -> (data: Vec<u8>)
        ensures
            data@ == self.bytes(),
    {
        self.data
    }

    /// The index of the next byte to read or write.
    pub fn position(&self) -> (position: usize)
        ensures
            position == self.cursor(),
            position <= self.bytes().len(),
    {
        if self.position <= self.data.len() {
            self.position
        } else {
            self.data.len()
        }
    }

    /// Number of bytes left to read.
    pub fn remaining(&self) -> (count: usize)
        ensures
            count == self.unread().len(),
    {
        self.data.len() - self.position()
    }

    /// The bytes left to read, without consuming them.
    pub fn peek(&self) -> (unread: &[u8])
        ensures
            unread@ == self.unread(),
    {
        slice_subrange(self.data.as_slice(), self.position(), self.data.len())
    }

    /// Move to `position`, or to the end of the stream if `position` lies
    /// past it; the bytes stay.
    pub fn seek(&mut self, position: usize)
        ensures
            final(self).bytes() == old(self).bytes(),
            final(self).cursor() == if position <= old(self).bytes().len() {
                position as nat
            } else {
                old(self).bytes().len()
            },
    {
        self.position = if position <= self.data.len() {
            position
        } else {
            self.data.len()
        };
    }

    /// Go back to the start of the stream; the bytes stay.
    pub fn rewind(&mut self)
        ensures
            final(self).bytes() == old(self).bytes(),
            final(self).cursor() == 0,
    {
        self.position = 0;
    }

    /// Write `written` at the position and move the position past it.
    pub fn write_all(&mut self, written: &[u8])
        ensures
            final(self).bytes() == overwrite(
                old(self).bytes(),
                old(self).cursor() as int,
                written@,
            ),
            final(self).cursor() == old(self).cursor() + written@.len(),
    {
        let ghost before = self.data@;
        let ghost start = self.cursor() as int;
        self.position = self.position();
        let mut done: usize = 0;
        while done < written.len()
            invariant
                done <= written@.len(),
                0 <= start <= before.len(),
                self.position == start + done,
                self.position <= self.data.len(),
                self.data@ == overwrite(before, start, written@.take(done as int)),
            decreases written@.len() - done,
        {
            let byte: u8 = written[done];
            if self.position < self.data.len() {
                self.data.set(self.position, byte);
            } else {
                self.data.push(byte);
            }
            assert(self.position < self.data.len());
            self.position = self.position + 1;
            done = done + 1;
        }
    }

    /// Move the position past `count` bytes that were read.
    fn consume(&mut self, count: usize)
        requires
            count <= old(self).unread().len(),
        ensures
            final(self).bytes() == old(self).bytes(),
            final(self).cursor() == old(self).cursor() + count,
    {
        self.position = self.position() + count;
    }
}

/// Read one byte from the stream as a signed 8-bit integer.
///
/// With no byte left the read fails with [`CodecError::ShortRead`] and the
/// stream is as before; otherwise the position moves past the byte.
pub fn read_i8(file: &mut ByteStream) -> (read: Result<i8, CodecError>)
    ensures
        final(file).bytes() == old(file).bytes(),
        read is Err <==> old(file).unread().len() < 1,
        read matches Err(error) ==> error == CodecError::ShortRead,
        read matches Ok(value) ==> value == decode_int(old(file).unread().take(1)),
        read is Err ==> final(file).cursor() == old(file).cursor(),
        read is Ok ==> final(file).cursor() == old(file).cursor() + 1,
{
    let read = decode_i8(file.peek());
    if read.is_ok() {
        file.consume(1);
    }
    read
}

/// Read two bytes from the stream as a signed 16-bit integer, least
/// significant byte first.
///
/// With fewer than two bytes left the read fails with
/// [`CodecError::ShortRead`] and the stream is as before; otherwise the
/// position moves past the two bytes.
pub fn read_i16(file: &mut ByteStream) -> (read: Result<i16, CodecError>)
    ensures
        final(file).bytes() == old(file).bytes(),
        read is Err <==> old(file).unread().len() < 2,
        read matches Err(error) ==> error == CodecError::ShortRead,
        read matches Ok(value) ==> value == decode_int(old(file).unread().take(2)),
        read is Err ==> final(file).cursor() == old(file).cursor(),
        read is Ok ==> final(file).cursor() == old(file).cursor() + 2,
{
    let read = decode_i16(file.peek());
    if read.is_ok() {
        file.consume(2);
    }
    read
}

/// Read four bytes from the stream as a signed 32-bit integer, least
/// significant byte first.
///
/// With fewer than four bytes left the read fails with
/// [`CodecError::ShortRead`] and the stream is as before; otherwise the
/// position moves past the four bytes.
pub fn read_i32(file: &mut ByteStream) -> (read: Result<i32, CodecError>)
    ensures
        final(file).bytes() == old(file).bytes(),
        read is Err <==> old(file).unread().len() < 4,
        read matches Err(error) ==> error == CodecError::ShortRead,
        read matches Ok(value) ==> value == decode_int(old(file).unread().take(4)),
        read is Err ==> final(file).cursor() == old(file).cursor(),
        read is Ok ==> final(file).cursor() == old(file).cursor() + 4,
{
    let read = decode_i32(file.peek());
    if read.is_ok() {
        file.consume(4);
    }
    read
}

/// Write a signed 8-bit integer to the stream: one byte.
pub fn write_i8(file: &mut ByteStream, num: i8)
    ensures
        final(file).bytes() == overwrite(
            old(file).bytes(),
            old(file).cursor() as int,
            encode_int(num as int, 1),
        ),
        final(file).cursor() == old(file).cursor() + 1,
{
    let buffer = encode_i8(num);
    file.write_all(buffer.as_slice());
}

/// Write a signed 16-bit integer to the stream: two bytes, least significant
/// first.
pub fn write_i16(file: &mut ByteStream, num: i16)
    ensures
        final(file).bytes() == overwrite(
            old(file).bytes(),
            old(file).cursor() as int,
            encode_int(num as int, 2),
        ),
        final(file).cursor() == old(file).cursor() + 2,
{
    let buffer = encode_i16(num);
    file.write_all(buffer.as_slice());
}

/// Write a signed 32-bit integer to the stream: four bytes, least significant
/// first.
pub fn write_i32(file: &mut ByteStream, num: i32)
    ensures
        final(file).bytes() == overwrite(
            old(file).bytes(),
            old(file).cursor() as int,
            encode_int(num as int, 4),
        ),
        final(file).cursor() == old(file).cursor() + 4,
{
    let buffer = encode_i32(num);
    file.write_all(buffer.as_slice());
}

/// What is written is read back: after an integer that fits in `width` bytes
/// was written at index `at`, decoding `width` bytes from `at` gives that
/// integer, whatever the stream held before.
pub proof fn lemma_read_back(bytes: Seq<u8>, at: int, value: int, width: nat)
    requires
        0 <= at <= bytes.len(),
        fits(value, width),
    ensures
        overwrite(bytes, at, encode_int(value, width)).skip(at).len() >= width,
        decode_int(overwrite(bytes, at, encode_int(value, width)).skip(at).take(width as int))
            == value,
{
    let written = encode_int(value, width);
    lemma_encode_len(value, width);
    lemma_decode_encode(value, width);
    assert(overwrite(bytes, at, written).skip(at).take(width as int) =~= written);
}

} // verus!
