//! Little-endian two's-complement encoding of fixed-width signed integers.
//!
//! The wire format is stated once, for every width, by [`encode_int`] and
//! [`decode_int`]. The executable functions for 8, 16 and 32 bits are proved
//! against that model.

use vstd::prelude::*;

verus! {

/// Why a value could not be decoded.
#[derive(Debug, PartialEq, Eq, Clone, Copy, Structural)]
pub enum CodecError {
    /// Fewer bytes were available than the value needs.
    ShortRead,
}

/// The wire bytes of `value` as a signed integer of `width` bytes, least
/// significant byte first.
///
/// Each byte is the remainder of the value modulo 256; the bytes after it
/// encode the quotient, rounded down. For a negative value this is its two's
/// complement. A value that needs more than `width` bytes keeps its low
/// `width` bytes.
pub open spec fn encode_int(value: int, width: nat) -> Seq<u8>
    decreases width,
{
    if width == 0 {
        Seq::empty()
    } else {
        seq![(value % 256) as u8] + encode_int(value / 256, (width - 1) as nat)
    }
}

/// The value of a single byte read as a signed integer.
pub open spec fn signed_byte(byte: u8) -> int {
    if byte >= 128 {
        byte - 256
    } else {
        byte as int
    }
}

/// The signed integer that `bytes` hold, least significant byte first: the
/// last byte carries the sign, every byte before it counts as unsigned.
pub open spec fn decode_int(bytes: Seq<u8>) -> int
    decreases bytes.len(),
{
    if bytes.len() == 0 {
        0
    } else if bytes.len() == 1 {
        signed_byte(bytes[0])
    } else {
        bytes[0] + 256 * decode_int(bytes.drop_first())
    }
}

/// `256^width`: the number of values that `width` bytes can tell apart.
pub open spec fn radix(width: nat) -> nat
    decreases width,
{
    if width == 0 {
        1
    } else {
        256 * radix((width - 1) as nat)
    }
}

/// Whether `value` is representable as a signed integer of `width` bytes,
/// that is, whether `-256^width / 2 <= value < 256^width / 2`.
pub open spec fn fits(value: int, width: nat) -> bool {
    -radix(width) <= 2 * value < radix(width)
}

/// Encode a signed byte: one byte, its bit pattern.
pub fn encode_i8(num: i8) -> (bytes: [u8; 1])
    ensures
        bytes@ == encode_int(num as int, 1),
{
    let low: u8 = #[verifier::truncate] (num as u8);
    proof {
        assert(low == (num as int) % 256) by (bit_vector)
            requires
                low == num as u8,
        ;
        lemma_encode_unfold(num as int, 1);
    }
    [low]
}

/// Encode a signed 16-bit integer: two bytes, least significant first.
pub fn encode_i16(num: i16) -> (bytes: [u8; 2])
    ensures
        bytes@ == encode_int(num as int, 2),
{
    let b0: u8 = #[verifier::truncate] ((num & 0xff) as u8);
    let b1: u8 = #[verifier::truncate] (((num >> 8) & 0xff) as u8);
    proof {
        assert(((num & 0xff) as u8) == (num as int) % 256) by (bit_vector);
        assert((((num >> 8) & 0xff) as u8) == ((num as int) / 256) % 256) by (bit_vector);
        lemma_encode_unfold(num as int, 2);
    }
    [b0, b1]
}

/// Encode a signed 32-bit integer: four bytes, least significant first.
pub fn encode_i32(num: i32) -> (bytes: [u8; 4])
    ensures
        bytes@ == encode_int(num as int, 4),
{
    let b0: u8 = #[verifier::truncate] ((num & 0xff) as u8);
    let b1: u8 = #[verifier::truncate] (((num >> 8) & 0xff) as u8);
    let b2: u8 = #[verifier::truncate] (((num >> 16) & 0xff) as u8);
    let b3: u8 = #[verifier::truncate] (((num >> 24) & 0xff) as u8);
    proof {
        assert(((num & 0xff) as u8) == (num as int) % 256) by (bit_vector);
        assert((((num >> 8) & 0xff) as u8) == ((num as int) / 256) % 256) by (bit_vector);
        assert((((num >> 16) & 0xff) as u8) == (((num as int) / 256) / 256) % 256)
            by (bit_vector);
        assert((((num >> 24) & 0xff) as u8) == ((((num as int) / 256) / 256) / 256) % 256)
            by (bit_vector);
        lemma_encode_unfold(num as int, 4);
    }
    [b0, b1, b2, b3]
}

/// Decode a signed byte from the first byte of `bytes`.
///
/// Fails with [`CodecError::ShortRead`] exactly when `bytes` is empty.
pub fn decode_i8(bytes: &[u8]) -> (decoded: Result<i8, CodecError>)
    ensures
        decoded is Err <==> bytes@.len() < 1,
        decoded matches Err(error) ==> error == CodecError::ShortRead,
        decoded matches Ok(value) ==> value == decode_int(bytes@.take(1)),
{
    if bytes.len() < 1 {
        return Err(CodecError::ShortRead);
    }
    let b0: u8 = bytes[0];
    let value: i8 = #[verifier::truncate] (b0 as i8);
    proof {
        assert(value == (if b0 >= 128 { b0 - 256 } else { b0 as int })) by (bit_vector)
            requires
                value == b0 as i8,
        ;
        lemma_decode_unfold(bytes@.take(1));
    }
    Ok(value)
}

/// Decode a signed 16-bit integer from the first two bytes of `bytes`.
///
/// Fails with [`CodecError::ShortRead`] exactly when `bytes` holds fewer than
/// two bytes.
pub fn decode_i16(bytes: &[u8]) -> (decoded: Result<i16, CodecError>)
    ensures
        decoded is Err <==> bytes@.len() < 2,
        decoded matches Err(error) ==> error == CodecError::ShortRead,
        decoded matches Ok(value) ==> value == decode_int(bytes@.take(2)),
{
    if bytes.len() < 2 {
        return Err(CodecError::ShortRead);
    }
    let b0: u8 = bytes[0];
    let b1: u8 = bytes[1];
    let pattern: u16 = (b0 as u16) | ((b1 as u16) << 8);
    let value: i16 = #[verifier::truncate] (pattern as i16);
    proof {
        assert(((b0 as u16) | ((b1 as u16) << 8)) == b0 + 256 * b1) by (bit_vector);
        assert(value == (if pattern >= 0x8000 { pattern - 0x1_0000 } else { pattern as int }))
            by (bit_vector)
            requires
                value == pattern as i16,
        ;
        lemma_decode_unfold(bytes@.take(2));
    }
    Ok(value)
}

/// Decode a signed 32-bit integer from the first four bytes of `bytes`.
///
/// Fails with [`CodecError::ShortRead`] exactly when `bytes` holds fewer than
/// four bytes.
pub fn decode_i32(bytes: &[u8]) -> (decoded: Result<i32, CodecError>)
    ensures
        decoded is Err <==> bytes@.len() < 4,
        decoded matches Err(error) ==> error == CodecError::ShortRead,
        decoded matches Ok(value) ==> value == decode_int(bytes@.take(4)),
{
    if bytes.len() < 4 {
        return Err(CodecError::ShortRead);
    }
    let b0: u8 = bytes[0];
    let b1: u8 = bytes[1];
    let b2: u8 = bytes[2];
    let b3: u8 = bytes[3];
    let pattern: u32 = (b0 as u32) | ((b1 as u32) << 8) | ((b2 as u32) << 16) | ((b3 as u32)
        << 24);
    let value: i32 = #[verifier::truncate] (pattern as i32);
    proof {
        assert(((b0 as u32) | ((b1 as u32) << 8) | ((b2 as u32) << 16) | ((b3 as u32) << 24))
            == b0 + 256 * (b1 + 256 * (b2 + 256 * b3))) by (bit_vector);
        assert(value == (if pattern >= 0x8000_0000 {
            pattern - 0x1_0000_0000
        } else {
            pattern as int
        })) by (bit_vector)
            requires
                value == pattern as i32,
        ;
        lemma_decode_unfold(bytes@.take(4));
    }
    Ok(value)
}

/// An encoding of `width` bytes is `width` bytes long.
pub proof fn lemma_encode_len(value: int, width: nat)
    ensures
        encode_int(value, width).len() == width,
    decreases width,
{
    if width > 0 {
        lemma_encode_len(value / 256, (width - 1) as nat);
    }
}

/// Decoding undoes encoding: every integer that fits in `width` bytes,
/// negative ones included, comes back from its encoding unchanged.
pub proof fn lemma_decode_encode(value: int, width: nat)
    requires
        fits(value, width),
    ensures
        decode_int(encode_int(value, width)) == value,
    decreases width,
{
    let bytes = encode_int(value, width);
    lemma_encode_len(value, width);
    reveal_with_fuel(radix, 2);
    if width >= 2 {
        let rest = (width - 1) as nat;
        lemma_radix_even(rest);
        assert(fits(value / 256, rest)) by (nonlinear_arith)
            requires
                -256 * radix(rest) <= 2 * value < 256 * radix(rest),
                radix(rest) % 2 == 0,
        ;
        lemma_decode_encode(value / 256, rest);
        assert(bytes.drop_first() =~= encode_int(value / 256, rest));
    }
}

/// Encoding undoes decoding: the integer that a byte string holds fits in as
/// many bytes, and its encoding in that width is the byte string again.
pub proof fn lemma_encode_decode(bytes: Seq<u8>)
    ensures
        fits(decode_int(bytes), bytes.len()),
        encode_int(decode_int(bytes), bytes.len()) == bytes,
    decreases bytes.len(),
{
    let value = decode_int(bytes);
    reveal_with_fuel(radix, 2);
    reveal_with_fuel(encode_int, 2);
    if bytes.len() >= 2 {
        let rest = bytes.drop_first();
        let high = decode_int(rest);
        lemma_encode_decode(rest);
        lemma_radix_even(rest.len());
        assert(value % 256 == bytes[0] && value / 256 == high) by (nonlinear_arith)
            requires
                value == bytes[0] + 256 * high,
                0 <= bytes[0] < 256,
        ;
        assert(fits(value, bytes.len())) by (nonlinear_arith)
            requires
                value == bytes[0] + 256 * high,
                0 <= bytes[0] < 256,
                -radix(rest.len()) <= 2 * high < radix(rest.len()),
                radix(rest.len()) % 2 == 0,
                radix(bytes.len()) == 256 * radix(rest.len()),
        ;
    }
}

/// A narrower encoding is the front of a wider one: encoding keeps the low
/// bytes of a value that does not fit.
pub proof fn lemma_encode_prefix(value: int, narrow: nat, wide: nat)
    requires
        narrow <= wide,
    ensures
        encode_int(value, wide).take(narrow as int) == encode_int(value, narrow),
    decreases narrow,
{
    lemma_encode_len(value, wide);
    lemma_encode_len(value, narrow);
    if narrow > 0 {
        lemma_encode_prefix(value / 256, (narrow - 1) as nat, (wide - 1) as nat);
        lemma_encode_len(value / 256, (wide - 1) as nat);
    }
}

/// Every signed byte comes back from its encoding: [`decode_i8`] gives back
/// what [`encode_i8`] was given.
pub proof fn lemma_round_trip_i8(value: i8)
    ensures
        encode_int(value as int, 1).len() == 1,
        decode_int(encode_int(value as int, 1)) == value,
        decode_int(encode_int(value as int, 1).take(1)) == value,
{
    reveal_with_fuel(radix, 2);
    lemma_encode_len(value as int, 1);
    lemma_decode_encode(value as int, 1);
}

/// Every signed 16-bit integer comes back from its encoding: [`decode_i16`]
/// gives back what [`encode_i16`] was given.
pub proof fn lemma_round_trip_i16(value: i16)
    ensures
        encode_int(value as int, 2).len() == 2,
        decode_int(encode_int(value as int, 2)) == value,
        decode_int(encode_int(value as int, 2).take(2)) == value,
{
    reveal_with_fuel(radix, 3);
    lemma_encode_len(value as int, 2);
    lemma_decode_encode(value as int, 2);
    assert(encode_int(value as int, 2).take(2) =~= encode_int(value as int, 2));
}

/// Every signed 32-bit integer comes back from its encoding: [`decode_i32`]
/// gives back what [`encode_i32`] was given.
pub proof fn lemma_round_trip_i32(value: i32)
    ensures
        encode_int(value as int, 4).len() == 4,
        decode_int(encode_int(value as int, 4)) == value,
        decode_int(encode_int(value as int, 4).take(4)) == value,
{
    reveal_with_fuel(radix, 5);
    lemma_encode_len(value as int, 4);
    lemma_decode_encode(value as int, 4);
    assert(encode_int(value as int, 4).take(4) =~= encode_int(value as int, 4));
}

/// From one byte on, the number of values is even (and never zero).
proof fn lemma_radix_even(width: nat)
    ensures
        radix(width) > 0,
        width >= 1 ==> radix(width) % 2 == 0,
    decreases width,
{
    if width > 0 {
        lemma_radix_even((width - 1) as nat);
        assert((256 * radix((width - 1) as nat)) % 2 == 0) by (nonlinear_arith)
            requires
                radix((width - 1) as nat) > 0,
        ;
    }
}

/// The encodings of up to four bytes, written out.
pub proof fn lemma_encode_unfold(value: int, width: nat)
    requires
        width <= 4,
    ensures
        encode_int(value, width).len() == width,
        width > 0 ==> encode_int(value, width)[0] == value % 256,
        width > 1 ==> encode_int(value, width)[1] == (value / 256) % 256,
        width > 2 ==> encode_int(value, width)[2] == ((value / 256) / 256) % 256,
        width > 3 ==> encode_int(value, width)[3] == (((value / 256) / 256) / 256) % 256,
{
    reveal_with_fuel(encode_int, 5);
}

/// The values of up to four bytes, written out.
pub proof fn lemma_decode_unfold(bytes: Seq<u8>)
    requires
        bytes.len() <= 4,
    ensures
        bytes.len() == 0 ==> decode_int(bytes) == 0,
        bytes.len() == 1 ==> decode_int(bytes) == signed_byte(bytes[0]),
        bytes.len() == 2 ==> decode_int(bytes) == bytes[0] + 256 * signed_byte(bytes[1]),
        bytes.len() == 3 ==> decode_int(bytes) == bytes[0] + 256 * (bytes[1] + 256 * signed_byte(
            bytes[2],
        )),
        bytes.len() == 4 ==> decode_int(bytes) == bytes[0] + 256 * (bytes[1] + 256 * (bytes[2]
            + 256 * signed_byte(bytes[3]))),
{
    reveal_with_fuel(decode_int, 5);
}

} // verus!
