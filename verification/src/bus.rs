//! The bus as the protocol sees it: single actions, each with its reply.
//!
//! An action is one uninterruptible piece of signalling: a reset with its
//! presence window, one write slot, one read slot, or a pause. Whoever owns
//! the pin and the timer performs it and reports what the line did. Bytes
//! travel least significant bit first.

use vstd::prelude::*;

verus! {

/// What is to be done on the bus next.
#[derive(Clone, Copy, Debug, PartialEq, Eq, Structural)]
pub enum Action {
    /// Hold the line low for the reset time, release it, and watch for a
    /// device pulling it low in answer.
    Reset,
    /// Send this bit in one write slot.
    WriteBit(bool),
    /// Open one read slot and sample the line.
    ReadBit,
    /// Leave the bus alone for this many milliseconds.
    Delay(u16),
}

/// What the bus did when an action was performed.
#[derive(Clone, Copy, Debug, PartialEq, Eq, Structural)]
pub enum Reply {
    /// The action could not be performed: the line did not return to idle, or
    /// the pin failed.
    Fault,
    /// A reset was performed; `true` if a device answered with a presence
    /// pulse.
    Presence(bool),
    /// A read slot was performed and the line was sampled at this level.
    Bit(bool),
    /// A write slot or a pause was performed.
    Done,
}

impl Reply {
    /// Whether this is a reply that performing `action` can give.
    pub open spec fn spec_answers(self, action: Action) -> bool {
        match self {
            Reply::Fault => true,
            Reply::Presence(_) => action == Action::Reset,
            Reply::Bit(_) => action == Action::ReadBit,
            Reply::Done => action is WriteBit || action is Delay,
        }
    }

    /// Whether this is a reply that performing `action` can give.
    pub fn answers(&self, action: Action) -> (fits: bool)
        ensures
            fits == self.spec_answers(action),
    {
        match self {
            Reply::Fault => true,
            Reply::Presence(_) => matches!(action, Action::Reset),
            Reply::Bit(_) => matches!(action, Action::ReadBit),
            Reply::Done => matches!(action, Action::WriteBit(_) | Action::Delay(_)),
        }
    }
}

/// Bit `index` of a byte, counted from the least significant. It is the bit
/// that travels in slot `index` of the byte.
pub open spec fn bit_of(byte: u8, index: u8) -> bool {
    (byte >> index) & 1 == 1
}

/// A byte under assembly after one more bit has arrived. The first bit to
/// arrive ends up least significant once eight have come.
pub open spec fn shift_in(partial: u8, bit: bool) -> u8 {
    (partial >> 1) | (if bit {
        0x80u8
    } else {
        0u8
    })
}

/// What eight arriving bits make of a byte under assembly.
pub open spec fn shift_in_eight(partial: u8, bits: Seq<bool>) -> u8
    recommends
        bits.len() == 8,
{
    shift_in(
        shift_in(
            shift_in(
                shift_in(
                    shift_in(shift_in(shift_in(shift_in(partial, bits[0]), bits[1]), bits[2]), bits[3]),
                    bits[4],
                ),
                bits[5],
            ),
            bits[6],
        ),
        bits[7],
    )
}

/// The eight bits of a byte in the order in which they travel.
pub open spec fn bits_of(byte: u8) -> Seq<bool> {
    Seq::new(8, |i: int| bit_of(byte, i as u8))
}

/// Bit `index` of `byte`.
pub fn bit_at(byte: u8, index: u8) -> (bit: bool)
    requires
        index < 8,
    ensures
        bit == bit_of(byte, index),
{
    (byte >> index) & 1 == 1
}

/// Takes one arriving bit into a byte under assembly.
pub fn take_bit(partial: u8, bit: bool) -> (next: u8)
    ensures
        next == shift_in(partial, bit),
{
    if bit {
        (partial >> 1) | 0x80
    } else {
        assert((partial >> 1) | 0u8 == partial >> 1) by (bit_vector);
        partial >> 1
    }
}

/// Eight arriving bits replace a byte under assembly altogether: whatever it
/// held before, bit `i` of the outcome is the bit that arrived in slot `i`.
pub proof fn lemma_eight_bits_make_a_byte(partial: u8, bits: Seq<bool>)
    requires
        bits.len() == 8,
    ensures
        forall|i: u8| i < 8 ==> bit_of(shift_in_eight(partial, bits), i) == bits[i as int],
{
    let b0 = bits[0];
    let b1 = bits[1];
    let b2 = bits[2];
    let b3 = bits[3];
    let b4 = bits[4];
    let b5 = bits[5];
    let b6 = bits[6];
    let b7 = bits[7];
    let whole = shift_in_eight(partial, bits);
    assert(whole == shift_in(
        shift_in(
            shift_in(
                shift_in(shift_in(shift_in(shift_in(shift_in(partial, b0), b1), b2), b3), b4),
                b5,
            ),
            b6,
        ),
        b7,
    ));
    assert(bit_of(whole, 0) == b0 && bit_of(whole, 1) == b1 && bit_of(whole, 2) == b2 && bit_of(
        whole,
        3,
    ) == b3 && bit_of(whole, 4) == b4 && bit_of(whole, 5) == b5 && bit_of(whole, 6) == b6
        && bit_of(whole, 7) == b7) by (bit_vector)
        requires
            whole == shift_in(
                shift_in(
                    shift_in(
                        shift_in(
                            shift_in(shift_in(shift_in(shift_in(partial, b0), b1), b2), b3),
                            b4,
                        ),
                        b5,
                    ),
                    b6,
                ),
                b7,
            ),
    ;
    assert forall|i: u8| i < 8 implies bit_of(whole, i) == bits[i as int] by {
        assert(i == 0 || i == 1 || i == 2 || i == 3 || i == 4 || i == 5 || i == 6 || i == 7);
    }
}

/// A byte sent bit by bit and assembled from those bits at the other end is
/// the same byte.
pub proof fn lemma_byte_survives_the_wire(partial: u8, byte: u8)
    ensures
        shift_in_eight(partial, bits_of(byte)) == byte,
{
    let whole = shift_in_eight(partial, bits_of(byte));
    lemma_eight_bits_make_a_byte(partial, bits_of(byte));
    assert(bit_of(whole, 0) == bit_of(byte, 0));
    assert(bit_of(whole, 1) == bit_of(byte, 1));
    assert(bit_of(whole, 2) == bit_of(byte, 2));
    assert(bit_of(whole, 3) == bit_of(byte, 3));
    assert(bit_of(whole, 4) == bit_of(byte, 4));
    assert(bit_of(whole, 5) == bit_of(byte, 5));
    assert(bit_of(whole, 6) == bit_of(byte, 6));
    assert(bit_of(whole, 7) == bit_of(byte, 7));
    assert(whole == byte) by (bit_vector)
        requires
            bit_of(whole, 0) == bit_of(byte, 0),
            bit_of(whole, 1) == bit_of(byte, 1),
            bit_of(whole, 2) == bit_of(byte, 2),
            bit_of(whole, 3) == bit_of(byte, 3),
            bit_of(whole, 4) == bit_of(byte, 4),
            bit_of(whole, 5) == bit_of(byte, 5),
            bit_of(whole, 6) == bit_of(byte, 6),
            bit_of(whole, 7) == bit_of(byte, 7),
    ;
}

} // verus!
