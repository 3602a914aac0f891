//! Liveness records and their bit-packed encodings.

use crate::bit_stream::{
    after_write, bit_of_byte, bits_of, byte_with_bit, get_bit, in_stream, lemma_idempotence,
    lemma_non_interference, lemma_round_trip, read_bit, read_result, set_bit, write_bit,
    StreamError,
};
use vstd::prelude::*;

verus! {

/// How long a probe took: whole seconds and the nanoseconds beyond them.
#[derive(Debug, Clone, Copy, PartialEq, Eq, Structural)]
pub struct TimeTaken {
    pub secs: u64,
    pub subsec_nanos: u32,
}

impl TimeTaken {
    /// The nanosecond part is less than one second.
    pub open spec fn wf(&self) -> bool {
        self.subsec_nanos < 1_000_000_000
    }

    /// The time in nanoseconds.
    pub open spec fn nanos(&self) -> nat {
        (self.secs * 1_000_000_000 + self.subsec_nanos) as nat
    }

    /// The longest time that can be held. It stands for a time that is not
    /// known.
    pub open spec fn longest() -> TimeTaken {
        TimeTaken { secs: u64::MAX, subsec_nanos: 999_999_999 }
    }

    /// The longest time that can be held.
    pub fn max() -> (t: TimeTaken)
        ensures
            t == Self::longest(),
            t.wf(),
    {
        TimeTaken { secs: u64::MAX, subsec_nanos: 999_999_999 }
    }

    /// The time of `millis` milliseconds.
    pub fn from_millis(millis: u64) -> (t: TimeTaken)
        ensures
            t.wf(),
            t.nanos() == millis * 1_000_000,
    {
        let rest: u32 = (millis % 1000) as u32;
        TimeTaken { secs: millis / 1000, subsec_nanos: rest * 1_000_000 }
    }
}

/// Whether `width` bits fit in the stream at bit offset `offset * width`.
pub open spec fn record_fits(bytes: Seq<u8>, offset: int, width: nat) -> bool {
    0 <= offset && (offset + 1) * width <= 8 * bytes.len()
}

/// `bits` with `record` laid over the positions from `at` on.
pub open spec fn overlay(bits: Seq<bool>, at: int, record: Seq<bool>) -> Seq<bool> {
    Seq::new(
        bits.len(),
        |i: int|
            if at <= i < at + record.len() {
                record[i - at]
            } else {
                bits[i]
            },
    )
}

/// A representation of the liveness of one address that can be stored in a
/// byte stream.
///
/// Every record of one representation occupies the same number of bits,
/// `width()`. The record with offset `n` occupies the bits from `n * width()`
/// on, in the bit order of [`crate::bit_stream`], with no gap between one
/// record and the next. Where `width()` does not divide 8, a record may
/// therefore begin in one byte and end in the next.
pub trait PingState: Sized {
    /// The number of bits that one record occupies.
    spec fn width() -> nat;

    /// The record as bits, first bit first.
    spec fn to_bits(&self) -> Seq<bool>;

    /// The record that `bits` stand for.
    spec fn from_bits(bits: Seq<bool>) -> Self;

    /// The record says that the address responded.
    spec fn up(&self) -> bool;

    /// The record says that no response is confirmed.
    spec fn down(&self) -> bool;

    /// The record reflects a probe that was made.
    spec fn tested(&self) -> bool;

    /// A record is `width()` bits, from which it can be read back.
    proof fn lemma_encoding(&self)
        ensures
            Self::width() > 0,
            self.to_bits().len() == Self::width(),
            Self::from_bits(self.to_bits()) == *self,
    ;

    /// No record is both up and down, and a tested one is one of the two.
    proof fn lemma_status(&self)
        ensures
            !(self.up() && self.down()),
            self.tested() ==> self.up() || self.down(),
    ;

    /// Does this state indicate that the machine at this address is up?
    fn is_up(&self) -> (r: bool)
        ensures
            r == self.up(),
    ;

    /// Does this state indicate that the machine at this address is down?
    ///
    /// For a tested machine this is the opposite of `is_up`. For one that was
    /// not tested both may be false.
    fn is_down(&self) -> (r: bool)
        ensures
            r == self.down(),
    ;

    /// Does this state come from a test that was made?
    fn is_tested(&self) -> (r: bool)
        ensures
            r == self.tested(),
    ;

    /// The number of bits that one record occupies.
    fn bit_size() -> (n: u64)
        ensures
            n == Self::width(),
    ;

    /// Stores the record as record number `offset` of the stream, leaving
    /// every bit outside the record as it was.
    ///
    /// Fails, leaving the stream as it was, exactly when the record does not
    /// fit in the stream.
    fn write_to(&self, writer: &mut [u8], offset: usize) -> (r: Result<(), StreamError>)
        ensures
            r is Ok <==> record_fits(old(writer)@, offset as int, Self::width()),
            r is Ok ==> bits_of(final(writer)@) == overlay(
                bits_of(old(writer)@),
                offset * Self::width(),
                self.to_bits(),
            ),
            r matches Err(e) ==> e == StreamError::UnexpectedEof && final(writer)@ == old(writer)@,
            final(writer)@.len() == old(writer)@.len(),
    ;

    /// Reads record number `offset` of the stream.
    ///
    /// Fails exactly when the stream ends before the end of the record.
    fn read_from(reader: &[u8], offset: usize) -> (r: Result<Self, StreamError>)
        ensures
            r is Ok <==> record_fits(reader@, offset as int, Self::width()),
            r matches Ok(state) ==> state == Self::from_bits(
                bits_of(reader@).subrange(
                    offset * Self::width(),
                    offset * Self::width() + Self::width(),
                ),
            ),
            r matches Err(e) ==> e == StreamError::UnexpectedEof,
    ;
}

/// In every representation, the record that is read at an offset is the one
/// that was last written there: the bits that `write_to` stores are those
/// from which `read_from` makes the record.
pub proof fn lemma_record_round_trip<S: PingState>(state: S, bits: Seq<bool>, offset: int)
    requires
        0 <= offset,
        (offset + 1) * S::width() <= bits.len(),
    ensures
        S::from_bits(
            overlay(bits, offset * S::width(), state.to_bits()).subrange(
                offset * S::width(),
                offset * S::width() + S::width(),
            ),
        ) == state,
{
    state.lemma_encoding();
    let width = S::width() as int;
    let at = offset * width;
    assert(at >= 0 && at + width == (offset + 1) * width) by (nonlinear_arith)
        requires
            at == offset * width,
            0 <= offset,
            0 < width,
    ;
    assert(overlay(bits, at, state.to_bits()).subrange(at, at + width) =~= state.to_bits());
}

/// In every representation, writing the record at one offset leaves the
/// record at every other offset as it was.
pub proof fn lemma_record_non_interference<S: PingState>(
    state: S,
    bits: Seq<bool>,
    offset: int,
    other: int,
)
    requires
        0 <= offset,
        0 <= other,
        other != offset,
        (other + 1) * S::width() <= bits.len(),
    ensures
        overlay(bits, offset * S::width(), state.to_bits()).subrange(
            other * S::width(),
            other * S::width() + S::width(),
        ) == bits.subrange(other * S::width(), other * S::width() + S::width()),
{
    state.lemma_encoding();
    let width = S::width() as int;
    let at = offset * width;
    let from = other * width;
    assert(0 <= from && from + width == (other + 1) * width && (from + width <= at || at + width
        <= from)) by (nonlinear_arith)
        requires
            at == offset * width,
            from == other * width,
            0 <= offset,
            0 <= other,
            other != offset,
            0 < width,
    ;
}

/// The most general ping state, with every value that a representation may
/// hold.
///
/// It is what a probe reports, and what the stored representations are
/// converted from and to.
#[derive(Debug, Clone, Copy, PartialEq, Eq, Structural)]
pub struct GeneralPingState {
    /// Is this host up?
    pub is_up: bool,
    /// Was this host tested?
    pub is_tested: bool,
    /// How long did the ping take?
    pub time_taken: TimeTaken,
}

/// A ping state of a single bit: the machine is up, or it is down or was not
/// tested.
#[derive(Debug, Clone, Copy, PartialEq, Eq, Structural)]
pub struct BinaryPingState(pub bool);

impl BinaryPingState {
    /// Whether the machine at this address is up: the stored bit.
    pub fn is_up(&self) -> (r: bool)
        ensures
            r == self.0,
    {
        self.0
    }

    /// Whether the machine at this address is down. A machine that was not
    /// tested counts as down too.
    pub fn is_down(&self) -> (r: bool)
        ensures
            r == !self.0,
    {
        !self.0
    }

    /// Whether this state comes from a test. This is so exactly when the
    /// machine is up.
    pub fn is_tested(&self) -> (r: bool)
        ensures
            r == self.0,
    {
        self.0
    }

    /// One record is one bit.
    pub fn bit_size() -> (n: u64)
        ensures
            n == 1,
    {
        1
    }

    /// The state that `byte` holds for stream offset `offset`, where `byte`
    /// is the byte at `offset / 8` of the stream.
    pub fn from_byte(byte: u8, offset: usize) -> (state: BinaryPingState)
        ensures
            state.0 == bit_of_byte(byte, offset as int % 8),
    {
        BinaryPingState(get_bit(byte, offset))
    }

    /// The byte at `offset / 8` of a stream after this state is stored at
    /// stream offset `offset`, where `byte` is what the stream holds there
    /// before.
    pub fn store_in_byte(&self, byte: u8, offset: usize) -> (updated: u8)
        ensures
            updated == byte_with_bit(byte, offset as int % 8, self.0),
            forall|index: int|
                0 <= index < 8 ==> bit_of_byte(updated, index) == (if index == offset % 8 {
                    self.0
                } else {
                    bit_of_byte(byte, index)
                }),
    {
        set_bit(byte, offset, self.0)
    }

    /// Reads the bit at `offset`.
    ///
    /// Bit 0 is the most significant bit of the first byte, bit 7 its least
    /// significant bit, and bit 8 the most significant bit of the second
    /// byte. Fails exactly when the stream has no byte at `offset / 8`.
    pub fn read_from(reader: &[u8], offset: usize) -> (r: Result<BinaryPingState, StreamError>)
        ensures
            r == Self::read(reader@, offset as int),
            r is Ok <==> in_stream(reader@, offset as int),
            r matches Ok(state) ==> state.0 == bits_of(reader@)[offset as int],
    {
        match read_bit(reader, offset) {
            Ok(bit) => Ok(BinaryPingState(bit)),
            Err(e) => Err(e),
        }
    }

    /// Writes the state to the bit at `offset`: the byte at `offset / 8` is
    /// read, the one bit replaced, and the byte written back.
    ///
    /// Fails, leaving the stream as it was, exactly when the stream has no
    /// byte at `offset / 8`. On success no other bit of the stream has
    /// changed.
    pub fn write_to(&self, writer: &mut [u8], offset: usize) -> (r: Result<(), StreamError>)
        ensures
            r is Ok <==> in_stream(old(writer)@, offset as int),
            r matches Err(e) ==> e == StreamError::UnexpectedEof,
            final(writer)@ == self.written(old(writer)@, offset as int),
            final(writer)@.len() == old(writer)@.len(),
            r is Ok ==> bits_of(final(writer)@) == bits_of(old(writer)@).update(
                offset as int,
                self.0,
            ),
    {
        write_bit(writer, offset, self.0)
    }

    /// The stream after an attempt to write this state at `offset`.
    pub open spec fn written(&self, bytes: Seq<u8>, offset: int) -> Seq<u8> {
        after_write(bytes, offset, self.0)
    }

    /// The result of an attempt to read a state at `offset`.
    pub open spec fn read(bytes: Seq<u8>, offset: int) -> Result<BinaryPingState, StreamError> {
        match read_result(bytes, offset) {
            Ok(bit) => Ok(BinaryPingState(bit)),
            Err(e) => Err(e),
        }
    }
}

/// A state that was written is the state that is read: after a state is
/// written at an offset that the stream holds, reading that offset gives the
/// state.
pub proof fn lemma_write_then_read(state: BinaryPingState, bytes: Seq<u8>, offset: int)
    requires
        in_stream(bytes, offset),
    ensures
        BinaryPingState::read(state.written(bytes, offset), offset) == Ok::<
            BinaryPingState,
            StreamError,
        >(state),
{
    lemma_round_trip(bytes, offset, state.0);
}

/// Writing a state at one offset changes what is read at no other offset.
pub proof fn lemma_write_keeps_others(
    state: BinaryPingState,
    bytes: Seq<u8>,
    offset: int,
    other: int,
)
    requires
        other != offset,
    ensures
        BinaryPingState::read(state.written(bytes, offset), other) == BinaryPingState::read(
            bytes,
            other,
        ),
{
    lemma_non_interference(bytes, offset, state.0, other);
}

/// Writing the same state at the same offset a second time leaves the
/// stream as the first write left it.
pub proof fn lemma_write_twice(state: BinaryPingState, bytes: Seq<u8>, offset: int)
    ensures
        state.written(state.written(bytes, offset), offset) == state.written(bytes, offset),
{
    lemma_idempotence(bytes, offset, state.0);
}

impl PingState for BinaryPingState {
    open spec fn width() -> nat {
        1
    }

    open spec fn to_bits(&self) -> Seq<bool> {
        seq![self.0]
    }

    open spec fn from_bits(bits: Seq<bool>) -> BinaryPingState {
        BinaryPingState(bits[0])
    }

    open spec fn up(&self) -> bool {
        self.0
    }

    open spec fn down(&self) -> bool {
        !self.0
    }

    open spec fn tested(&self) -> bool {
        self.0
    }

    proof fn lemma_encoding(&self) {
    }

    proof fn lemma_status(&self) {
    }

    fn is_up(&self) -> (r: bool) {
        self.0
    }

    fn is_down(&self) -> (r: bool) {
        !self.0
    }

    fn is_tested(&self) -> (r: bool) {
        self.0
    }

    fn bit_size() -> (n: u64) {
        1
    }

    fn write_to(&self, writer: &mut [u8], offset: usize) -> (r: Result<(), StreamError>) {
        BinaryPingState::write_to(self, writer, offset)
    }

    fn read_from(reader: &[u8], offset: usize) -> (r: Result<BinaryPingState, StreamError>) {
        BinaryPingState::read_from(reader, offset)
    }
}

impl From<BinaryPingState> for GeneralPingState {
    /// A one-bit state says whether the machine is up, and was tested if it
    /// is. It holds no time: the longest one stands in.
    fn from(state: BinaryPingState) -> (r: GeneralPingState) {
        GeneralPingState { is_up: state.0, is_tested: state.0, time_taken: TimeTaken::max() }
    }
}

impl vstd::std_specs::convert::FromSpecImpl<BinaryPingState> for GeneralPingState {
    open spec fn obeys_from_spec() -> bool {
        true
    }

    open spec fn from_spec(state: BinaryPingState) -> GeneralPingState {
        GeneralPingState {
            is_up: state.0,
            is_tested: state.0,
            time_taken: TimeTaken::longest(),
        }
    }
}

impl From<GeneralPingState> for BinaryPingState {
    /// The bit is set for a machine that was tested and is up, and for no
    /// other.
    fn from(state: GeneralPingState) -> (r: BinaryPingState) {
        BinaryPingState(state.is_tested && state.is_up)
    }
}

impl vstd::std_specs::convert::FromSpecImpl<GeneralPingState> for BinaryPingState {
    open spec fn obeys_from_spec() -> bool {
        true
    }

    open spec fn from_spec(state: GeneralPingState) -> BinaryPingState {
        BinaryPingState(state.is_tested && state.is_up)
    }
}

} // verus!
