//! Decoders of integer fields: a window of 1, 2, 4 or 8 bytes is read as one
//! integer of a given byte order and widened to 64 bits.

use crate::error::DissectError;
use crate::text::{decimal, decimal_string};
use byteorder::{BigEndian, ByteOrder, LittleEndian};
use vstd::arithmetic::power2::pow2;
use vstd::prelude::*;
use vstd::string::*;

verus! {

/// Little- or big-endian integer representations.
#[derive(Clone, Copy, Debug, PartialEq, Eq)]
pub enum Endianness {
    BigEndian,
    LittleEndian,
}

/// The number that the bytes are when the first byte weighs most.
pub open spec fn big_endian(bytes: Seq<u8>) -> nat
    decreases bytes.len(),
{
    if bytes.len() == 0 {
        0
    } else {
        256 * big_endian(bytes.drop_last()) + bytes.last() as nat
    }
}

/// The number that the bytes are when the first byte weighs least.
pub open spec fn little_endian(bytes: Seq<u8>) -> nat
    decreases bytes.len(),
{
    if bytes.len() == 0 {
        0
    } else {
        bytes.first() as nat + 256 * little_endian(bytes.drop_first())
    }
}

/// The number that the bytes are in the given byte order.
pub open spec fn magnitude(bytes: Seq<u8>, endianness: Endianness) -> nat {
    match endianness {
        Endianness::BigEndian => big_endian(bytes),
        Endianness::LittleEndian => little_endian(bytes),
    }
}

/// The signed integer that `bits` bits with the unsigned value `value` are
/// in two's complement.
pub open spec fn twos_complement(value: nat, bits: nat) -> int {
    if value >= pow2((bits - 1) as nat) {
        value - pow2(bits)
    } else {
        value as int
    }
}

/// The sizes in bytes of the integers that can be decoded.
pub open spec fn is_integer_size(size: nat) -> bool {
    size == 1 || size == 2 || size == 4 || size == 8
}

/// What is said of a window whose size is that of no integer.
pub open spec fn invalid_size_text(size: nat) -> Seq<char> {
    "Invalid integer size: "@ + decimal(size) + " B"@
}

/// `byteorder::BigEndian::read_uint`: the first `nbytes` bytes of `buf` as an
/// unsigned big-endian integer. It panics unless `nbytes` is between 1 and 8
/// and `buf` has that many bytes.
#[verifier::external_body]
fn read_uint_be(buf: &[u8], nbytes: usize) -> (value: u64)
    requires
        1 <= nbytes <= 8,
        nbytes <= buf@.len(),
    ensures
        value as nat == big_endian(buf@.take(nbytes as int)),
{
    BigEndian::read_uint(buf, nbytes)
}

/// `byteorder::LittleEndian::read_uint`: the first `nbytes` bytes of `buf` as
/// an unsigned little-endian integer. It panics unless `nbytes` is between 1
/// and 8 and `buf` has that many bytes.
#[verifier::external_body]
fn read_uint_le(buf: &[u8], nbytes: usize) -> (value: u64)
    requires
        1 <= nbytes <= 8,
        nbytes <= buf@.len(),
    ensures
        value as nat == little_endian(buf@.take(nbytes as int)),
{
    LittleEndian::read_uint(buf, nbytes)
}

/// `byteorder::BigEndian::read_int`: the first `nbytes` bytes of `buf` as a
/// big-endian integer in two's complement, extended by its sign to 64 bits.
/// It panics unless `nbytes` is between 1 and 8 and `buf` has that many bytes.
#[verifier::external_body]
fn read_int_be(buf: &[u8], nbytes: usize) -> (value: i64)
    requires
        1 <= nbytes <= 8,
        nbytes <= buf@.len(),
    ensures
        value as int == twos_complement(
            big_endian(buf@.take(nbytes as int)),
            8 * (nbytes as nat),
        ),
{
    BigEndian::read_int(buf, nbytes)
}

/// `byteorder::LittleEndian::read_int`: the first `nbytes` bytes of `buf` as
/// a little-endian integer in two's complement, extended by its sign to 64
/// bits. It panics unless `nbytes` is between 1 and 8 and `buf` has that many
/// bytes.
#[verifier::external_body]
fn read_int_le(buf: &[u8], nbytes: usize) -> (value: i64)
    requires
        1 <= nbytes <= 8,
        nbytes <= buf@.len(),
    ensures
        value as int == twos_complement(
            little_endian(buf@.take(nbytes as int)),
            8 * (nbytes as nat),
        ),
{
    LittleEndian::read_int(buf, nbytes)
}

/// The error for a window whose size is that of no integer.
fn invalid_size(size: usize) -> (error: DissectError)
    ensures
        error matches DissectError::InvalidData(message) && message@ == invalid_size_text(
            size as nat,
        ),
{
    let mut message = String::from_str("Invalid integer size: ");
    message.append(decimal_string(size as u64).as_str());
    message.append(" B");
    DissectError::InvalidData(message)
}

/// Parse a signed integer of a given endianness from a byte buffer.
///
/// The size of the buffer determines the size of the integer that is parsed
/// (8, 16, 32 or 64 bits); the result is extended by its sign to an i64. A
/// buffer of another size is invalid data.
pub fn signed(buffer: &[u8], endianness: Endianness) -> (result: Result<i64, DissectError>)
    ensures
        is_integer_size(buffer@.len()) ==> (result matches Ok(value) && value as int
            == twos_complement(magnitude(buffer@, endianness), 8 * buffer@.len())),
        !is_integer_size(buffer@.len()) ==> (result matches Err(
            DissectError::InvalidData(message),
        ) && message@ == invalid_size_text(buffer@.len())),
{
    let size = buffer.len();
    proof {
        assert(buffer@.take(size as int) =~= buffer@);
    }
    match size {
        1 | 2 | 4 | 8 => match endianness {
            Endianness::BigEndian => Ok(read_int_be(buffer, size)),
            Endianness::LittleEndian => Ok(read_int_le(buffer, size)),
        },
        _ => Err(invalid_size(size)),
    }
}

/// Parse an unsigned integer of a given endianness from a byte buffer.
///
/// The size of the buffer determines the size of the integer that is parsed
/// (8, 16, 32 or 64 bits); the result is extended by zeros to a u64. A buffer
/// of another size is invalid data.
pub fn unsigned(buffer: &[u8], endianness: Endianness) -> (result: Result<u64, DissectError>)
    ensures
        is_integer_size(buffer@.len()) ==> (result matches Ok(value) && value as nat
            == magnitude(buffer@, endianness)),
        !is_integer_size(buffer@.len()) ==> (result matches Err(
            DissectError::InvalidData(message),
        ) && message@ == invalid_size_text(buffer@.len())),
{
    let size = buffer.len();
    proof {
        assert(buffer@.take(size as int) =~= buffer@);
    }
    match size {
        1 | 2 | 4 | 8 => match endianness {
            Endianness::BigEndian => Ok(read_uint_be(buffer, size)),
            Endianness::LittleEndian => Ok(read_uint_le(buffer, size)),
        },
        _ => Err(invalid_size(size)),
    }
}

} // verus!
