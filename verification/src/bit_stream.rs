//! Single bits inside a byte stream.
//!
//! A stream of `n` bytes is read as a sequence of `8 * n` bits. Bit offset 0
//! is the most significant bit of the first byte, offset 7 its least
//! significant bit, offset 8 the most significant bit of the second byte, and
//! so on: offsets grow from left to right when the bytes are written out in
//! the usual binary notation.
//!
//! A bit is written by replacing the byte that holds it. The exclusive
//! borrow of the stream keeps two writers apart here; whoever carries the
//! same steps out on a file has to see to it that no two writers replace the
//! same byte at once.

use vstd::prelude::*;

verus! {

/// Why a bit could not be read or written.
#[derive(Debug, Clone, Copy, PartialEq, Eq, Structural)]
pub enum StreamError {
    /// The stream ends before the byte that holds the bit.
    UnexpectedEof,
}

/// Bit `index` of `byte`, where index 0 is the most significant bit.
pub open spec fn bit_of_byte(byte: u8, index: int) -> bool
    recommends
        0 <= index < 8,
{
    byte & (0x80u8 >> (index as u8)) != 0
}

/// `byte` with bit `index` (0 is the most significant) made equal to `value`
/// and the other seven bits kept.
pub open spec fn byte_with_bit(byte: u8, index: int, value: bool) -> u8
    recommends
        0 <= index < 8,
{
    if value {
        byte | (0x80u8 >> (index as u8))
    } else {
        byte & !(0x80u8 >> (index as u8))
    }
}

/// The bits of a byte stream, in offset order.
pub open spec fn bits_of(bytes: Seq<u8>) -> Seq<bool> {
    Seq::new(8 * bytes.len(), |offset: int| bit_of_byte(bytes[offset / 8], offset % 8))
}

/// Whether the stream holds a bit at `offset`.
pub open spec fn in_stream(bytes: Seq<u8>, offset: int) -> bool {
    0 <= offset < 8 * bytes.len()
}

/// The bit at `offset`.
pub open spec fn bit_at(bytes: Seq<u8>, offset: int) -> bool
    recommends
        in_stream(bytes, offset),
{
    bit_of_byte(bytes[offset / 8], offset % 8)
}

/// The stream with the bit at `offset` made equal to `value`.
pub open spec fn with_bit(bytes: Seq<u8>, offset: int, value: bool) -> Seq<u8>
    recommends
        in_stream(bytes, offset),
{
    bytes.update(offset / 8, byte_with_bit(bytes[offset / 8], offset % 8, value))
}

/// The stream after an attempt to write `value` at `offset`: the bit is
/// replaced where the stream holds it, and nothing is changed where it does
/// not.
pub open spec fn after_write(bytes: Seq<u8>, offset: int, value: bool) -> Seq<u8> {
    if in_stream(bytes, offset) {
        with_bit(bytes, offset, value)
    } else {
        bytes
    }
}

/// The result of an attempt to read the bit at `offset`.
pub open spec fn read_result(bytes: Seq<u8>, offset: int) -> Result<bool, StreamError> {
    if in_stream(bytes, offset) {
        Ok(bit_at(bytes, offset))
    } else {
        Err(StreamError::UnexpectedEof)
    }
}

proof fn lemma_byte_with_bit_u8(byte: u8, index: u8, value: bool, other: u8)
    by (bit_vector)
    requires
        index < 8,
        other < 8,
    ensures
        ((if value {
            byte | (0x80u8 >> index)
        } else {
            byte & !(0x80u8 >> index)
        }) & (0x80u8 >> other) != 0) == (if other == index {
            value
        } else {
            byte & (0x80u8 >> other) != 0
        }),
{
}

/// Setting one bit of a byte gives that bit the new value and leaves the
/// other seven as they were.
pub proof fn lemma_byte_with_bit(byte: u8, index: int, value: bool, other: int)
    requires
        0 <= index < 8,
        0 <= other < 8,
    ensures
        bit_of_byte(byte_with_bit(byte, index, value), other) == (if other == index {
            value
        } else {
            bit_of_byte(byte, other)
        }),
{
    lemma_byte_with_bit_u8(byte, index as u8, value, other as u8);
}

proof fn lemma_masks()
    by (bit_vector)
    ensures
        0x80u8 >> 0u8 == 0x80u8,
        0x80u8 >> 1u8 == 0x40u8,
        0x80u8 >> 2u8 == 0x20u8,
        0x80u8 >> 3u8 == 0x10u8,
        0x80u8 >> 4u8 == 0x08u8,
        0x80u8 >> 5u8 == 0x04u8,
        0x80u8 >> 6u8 == 0x02u8,
        0x80u8 >> 7u8 == 0x01u8,
{
}

proof fn lemma_byte_value_u8(byte: u8)
    by (bit_vector)
    ensures
        byte == (if byte & 0x80u8 != 0 {
            128u8
        } else {
            0u8
        }) + (if byte & 0x40u8 != 0 {
            64u8
        } else {
            0u8
        }) + (if byte & 0x20u8 != 0 {
            32u8
        } else {
            0u8
        }) + (if byte & 0x10u8 != 0 {
            16u8
        } else {
            0u8
        }) + (if byte & 0x08u8 != 0 {
            8u8
        } else {
            0u8
        }) + (if byte & 0x04u8 != 0 {
            4u8
        } else {
            0u8
        }) + (if byte & 0x02u8 != 0 {
            2u8
        } else {
            0u8
        }) + (if byte & 0x01u8 != 0 {
            1u8
        } else {
            0u8
        }),
{
}

/// `weight` if the bit is set, and 0 if it is not.
pub open spec fn bit_value(bit: bool, weight: int) -> int {
    if bit {
        weight
    } else {
        0
    }
}

/// A byte is the sum of its bits, where bit 0 counts 128, bit 1 counts 64,
/// and so on down to bit 7, which counts 1.
pub proof fn lemma_byte_value(byte: u8)
    ensures
        byte == bit_value(bit_of_byte(byte, 0), 128)
            + bit_value(bit_of_byte(byte, 1), 64)
            + bit_value(bit_of_byte(byte, 2), 32)
            + bit_value(bit_of_byte(byte, 3), 16)
            + bit_value(bit_of_byte(byte, 4), 8)
            + bit_value(bit_of_byte(byte, 5), 4)
            + bit_value(bit_of_byte(byte, 6), 2)
            + bit_value(bit_of_byte(byte, 7), 1),
{
    lemma_masks();
    lemma_byte_value_u8(byte);
}

/// Two bytes with the same eight bits are the same byte.
pub proof fn lemma_byte_by_bits(a: u8, b: u8)
    requires
        forall|index: int| 0 <= index < 8 ==> bit_of_byte(a, index) == bit_of_byte(b, index),
    ensures
        a == b,
{
    lemma_byte_value(a);
    lemma_byte_value(b);
}

/// A stream is determined by its bits.
pub proof fn lemma_stream_by_bits(a: Seq<u8>, b: Seq<u8>)
    requires
        bits_of(a) == bits_of(b),
    ensures
        a == b,
{
    assert(8 * a.len() == bits_of(a).len());
    assert(8 * b.len() == bits_of(b).len());
    assert(a.len() == b.len());
    assert forall|i: int| 0 <= i < a.len() implies a[i] == b[i] by {
        assert forall|index: int| 0 <= index < 8 implies bit_of_byte(a[i], index) == bit_of_byte(
            b[i],
            index,
        ) by {
            let offset = 8 * i + index;
            assert(bits_of(a)[offset] == bit_of_byte(a[i], index));
            assert(bits_of(b)[offset] == bit_of_byte(b[i], index));
        }
        lemma_byte_by_bits(a[i], b[i]);
    }
}

/// Writing one bit changes that bit of the stream and no other.
pub proof fn lemma_bits_of_with_bit(bytes: Seq<u8>, offset: int, value: bool)
    requires
        in_stream(bytes, offset),
    ensures
        with_bit(bytes, offset, value).len() == bytes.len(),
        bits_of(with_bit(bytes, offset, value)) == bits_of(bytes).update(offset, value),
{
    let after = with_bit(bytes, offset, value);
    assert forall|o: int| 0 <= o < 8 * bytes.len() implies bits_of(after)[o] == bits_of(
        bytes,
    ).update(offset, value)[o] by {
        if o / 8 == offset / 8 {
            lemma_byte_with_bit(bytes[offset / 8], offset % 8, value, o % 8);
        }
    }
}

proof fn lemma_shift_forms(byte: u8, index: u8, value: bool)
    by (bit_vector)
    requires
        index < 8,
    ensures
        ((byte >> ((7u8 - index) as u8)) & 1u8 == 1u8) == (byte & (0x80u8 >> index) != 0),
        (byte & (255u8 ^ (1u8 << ((7u8 - index) as u8)))) | ((if value {
            1u8
        } else {
            0u8
        }) << ((7u8 - index) as u8)) == (if value {
            byte | (0x80u8 >> index)
        } else {
            byte & !(0x80u8 >> index)
        }),
{
}

/// The byte of a stream that holds the bit at `offset`.
pub fn byte_offset(offset: usize) -> (index: usize)
    ensures
        index == offset / 8,
{
    offset / 8
}

/// The bit that a byte holds for stream offset `offset`, when the byte is the
/// one at `byte_offset(offset)`.
pub fn get_bit(byte: u8, offset: usize) -> (bit: bool)
    ensures
        bit == bit_of_byte(byte, offset as int % 8),
{
    let shift: u8 = 7 - (offset % 8) as u8;
    proof {
        lemma_shift_forms(byte, (offset % 8) as u8, false);
    }
    (byte >> shift) & 1 == 1
}

/// The byte at `byte_offset(offset)` after `value` is stored for stream
/// offset `offset`: that one bit is cleared and set to `value`, the other
/// seven are kept.
pub fn set_bit(byte: u8, offset: usize, value: bool) -> (updated: u8)
    ensures
        updated == byte_with_bit(byte, offset as int % 8, value),
        forall|index: int|
            0 <= index < 8 ==> bit_of_byte(updated, index) == (if index == offset % 8 {
                value
            } else {
                bit_of_byte(byte, index)
            }),
{
    let shift: u8 = 7 - (offset % 8) as u8;
    let bit: u8 = if value {
        1
    } else {
        0
    };
    let mask: u8 = 255u8 ^ (1u8 << shift);
    let updated: u8 = (byte & mask) | (bit << shift);
    proof {
        lemma_shift_forms(byte, (offset % 8) as u8, value);
        assert forall|index: int| 0 <= index < 8 implies bit_of_byte(updated, index) == (if index
            == offset % 8 {
            value
        } else {
            bit_of_byte(byte, index)
        }) by {
            lemma_byte_with_bit(byte, (offset % 8) as int, value, index);
        }
    }
    updated
}

/// Reads the bit at `offset`.
///
/// Fails with [`StreamError::UnexpectedEof`] exactly when the stream has no
/// byte at `offset / 8`.
pub fn read_bit(stream: &[u8], offset: usize) -> (r: Result<bool, StreamError>)
    ensures
        r == read_result(stream@, offset as int),
        r matches Ok(bit) ==> bit == bits_of(stream@)[offset as int],
{
    let index = byte_offset(offset);
    if index >= stream.len() {
        return Err(StreamError::UnexpectedEof);
    }
    Ok(get_bit(stream[index], offset))
}

/// Stores `value` at `offset` by reading the byte that holds the bit,
/// replacing that bit and writing the byte back.
///
/// Fails with [`StreamError::UnexpectedEof`], leaving the stream as it was,
/// exactly when the stream has no byte at `offset / 8`. On success the bit at
/// `offset` is `value` and every other bit of the stream is unchanged.
pub fn write_bit(stream: &mut [u8], offset: usize, value: bool) -> (r: Result<(), StreamError>)
    ensures
        r is Ok <==> in_stream(old(stream)@, offset as int),
        r matches Err(e) ==> e == StreamError::UnexpectedEof,
        final(stream)@ == after_write(old(stream)@, offset as int, value),
        final(stream)@.len() == old(stream)@.len(),
        r is Ok ==> bits_of(final(stream)@) == bits_of(old(stream)@).update(offset as int, value),
{
    let index = byte_offset(offset);
    if index >= stream.len() {
        return Err(StreamError::UnexpectedEof);
    }
    let byte = stream[index];
    stream[index] = set_bit(byte, offset, value);
    proof {
        lemma_bits_of_with_bit(old(stream)@, offset as int, value);
    }
    Ok(())
}

/// A bit that was written is the bit that is read: after `value` is written
/// at an offset that the stream holds, reading that offset gives `value`.
pub proof fn lemma_round_trip(bytes: Seq<u8>, offset: int, value: bool)
    requires
        in_stream(bytes, offset),
    ensures
        read_result(after_write(bytes, offset, value), offset) == Ok::<bool, StreamError>(value),
{
    lemma_bits_of_with_bit(bytes, offset, value);
    assert(bits_of(with_bit(bytes, offset, value))[offset] == value);
}

/// Writing at one offset changes what is read at no other offset.
pub proof fn lemma_non_interference(bytes: Seq<u8>, offset: int, value: bool, other: int)
    requires
        other != offset,
    ensures
        read_result(after_write(bytes, offset, value), other) == read_result(bytes, other),
{
    if in_stream(bytes, offset) {
        lemma_bits_of_with_bit(bytes, offset, value);
        if in_stream(bytes, other) {
            assert(bits_of(with_bit(bytes, offset, value))[other] == bits_of(bytes)[other]);
        }
    }
}

/// Writing the same value at the same offset a second time changes nothing.
pub proof fn lemma_idempotence(bytes: Seq<u8>, offset: int, value: bool)
    ensures
        after_write(after_write(bytes, offset, value), offset, value) == after_write(
            bytes,
            offset,
            value,
        ),
{
    if in_stream(bytes, offset) {
        let once = with_bit(bytes, offset, value);
        let twice = with_bit(once, offset, value);
        lemma_bits_of_with_bit(bytes, offset, value);
        lemma_bits_of_with_bit(once, offset, value);
        assert(bits_of(twice) =~= bits_of(once));
        lemma_stream_by_bits(twice, once);
    }
}

} // verus!
