//! The 8-bit checksum that closes every address and every scratchpad image.
//!
//! The generator is x^8 + x^5 + x^4 + 1. Bits enter least significant first, so
//! the register shifts right and the taps are `0x8C`.

use crate::error::Error;
use vstd::prelude::*;

verus! {

/// One shift of the register: the low bit leaves, and the taps are folded in
/// if it was set.
pub open spec fn crc8_round(reg: u8) -> u8 {
    if reg & 1 == 1 {
        (reg >> 1) ^ 0x8C
    } else {
        reg >> 1
    }
}

/// `n` shifts of the register.
pub open spec fn crc8_rounds(reg: u8, n: nat) -> u8
    decreases n,
{
    if n == 0 {
        reg
    } else {
        crc8_round(crc8_rounds(reg, (n - 1) as nat))
    }
}

/// The register after one more byte: the byte is folded into the register,
/// which then shifts once per bit.
pub open spec fn crc8_update(crc: u8, byte: u8) -> u8 {
    crc8_rounds(crc ^ byte, 8)
}

/// The checksum of a sequence of bytes, starting from an empty register.
pub open spec fn spec_crc8(data: Seq<u8>) -> u8
    decreases data.len(),
{
    if data.len() == 0 {
        0
    } else {
        crc8_update(spec_crc8(data.drop_last()), data.last())
    }
}

/// Whether a frame whose last byte is the checksum of the bytes before it is
/// intact. A frame passes exactly when the checksum over all of it is zero.
pub open spec fn frame_valid(frame: Seq<u8>) -> bool {
    spec_crc8(frame) == 0
}

/// A shift is one-to-one, and it keeps an empty register empty.
pub proof fn lemma_round_injective(a: u8, b: u8)
    ensures
        crc8_round(a) == crc8_round(b) <==> a == b,
        crc8_round(a) == 0 <==> a == 0,
{
    assert(crc8_round(a) == crc8_round(b) ==> a == b) by (bit_vector);
    assert(crc8_round(a) == 0 <==> a == 0) by (bit_vector);
}

/// Any number of shifts is one-to-one, and keeps an empty register empty.
pub proof fn lemma_rounds_injective(a: u8, b: u8, n: nat)
    ensures
        crc8_rounds(a, n) == crc8_rounds(b, n) <==> a == b,
        crc8_rounds(a, n) == 0 <==> a == 0,
    decreases n,
{
    if n > 0 {
        lemma_rounds_injective(a, b, (n - 1) as nat);
        lemma_round_injective(crc8_rounds(a, (n - 1) as nat), crc8_rounds(b, (n - 1) as nat));
    }
}

/// Taking in a byte is one-to-one in the pair of register and byte taken
/// together: two updates agree exactly when register and byte differ by the
/// same bits. The register comes out empty exactly when the byte equals it.
pub proof fn lemma_update_injective(c1: u8, x1: u8, c2: u8, x2: u8)
    ensures
        crc8_update(c1, x1) == crc8_update(c2, x2) <==> c1 ^ x1 == c2 ^ x2,
        crc8_update(c1, x1) == 0 <==> c1 == x1,
        c1 == c2 ==> (crc8_update(c1, x1) == crc8_update(c2, x2) <==> x1 == x2),
        x1 == x2 ==> (crc8_update(c1, x1) == crc8_update(c2, x2) <==> c1 == c2),
{
    lemma_rounds_injective(c1 ^ x1, c2 ^ x2, 8);
    assert(c1 ^ x1 == 0 <==> c1 == x1) by (bit_vector);
    assert(c1 == c2 ==> (c1 ^ x1 == c2 ^ x2 <==> x1 == x2)) by (bit_vector);
    assert(x1 == x2 ==> (c1 ^ x1 == c2 ^ x2 <==> c1 == c2)) by (bit_vector);
}

/// A frame is intact exactly when its last byte is the checksum of the bytes
/// before it.
pub proof fn lemma_frame_valid_iff_trailer_matches(frame: Seq<u8>)
    requires
        frame.len() > 0,
    ensures
        frame_valid(frame) <==> spec_crc8(frame.drop_last()) == frame.last(),
{
    lemma_update_injective(spec_crc8(frame.drop_last()), frame.last(), 0, 0);
}

/// Closing a sequence of bytes with its own checksum makes an intact frame.
pub proof fn lemma_sealed_frame_valid(body: Seq<u8>)
    ensures
        frame_valid(body.push(spec_crc8(body))),
{
    let frame = body.push(spec_crc8(body));
    assert(frame.drop_last() =~= body);
    lemma_frame_valid_iff_trailer_matches(frame);
}

/// Two sequences of one length that differ in exactly one byte never have the
/// same checksum.
pub proof fn lemma_single_byte_change_detected(a: Seq<u8>, b: Seq<u8>, at: int)
    requires
        a.len() == b.len(),
        0 <= at < a.len(),
        a[at] != b[at],
        forall|j: int| 0 <= j < a.len() && j != at ==> a[j] == b[j],
    ensures
        spec_crc8(a) != spec_crc8(b),
    decreases a.len(),
{
    let ca = spec_crc8(a.drop_last());
    let cb = spec_crc8(b.drop_last());
    if at == a.len() - 1 {
        assert(a.drop_last() =~= b.drop_last());
    } else {
        lemma_single_byte_change_detected(a.drop_last(), b.drop_last(), at);
    }
    lemma_update_injective(ca, a.last(), cb, b.last());
}

/// Flipping any single bit of a sequence of bytes changes its checksum.
pub proof fn lemma_single_bit_flip_detected(data: Seq<u8>, at: int, bit: u8)
    requires
        0 <= at < data.len(),
        bit < 8,
    ensures
        spec_crc8(data.update(at, data[at] ^ (1u8 << bit))) != spec_crc8(data),
{
    let byte = data[at];
    assert(byte ^ (1u8 << bit) != byte) by (bit_vector)
        requires
            bit < 8,
    ;
    lemma_single_byte_change_detected(data.update(at, byte ^ (1u8 << bit)), data, at);
}

/// An intact frame with any one of its bytes replaced by another value is no
/// longer intact.
pub proof fn lemma_corrupted_frame_invalid(frame: Seq<u8>, at: int, byte: u8)
    requires
        frame_valid(frame),
        0 <= at < frame.len(),
        byte != frame[at],
    ensures
        !frame_valid(frame.update(at, byte)),
{
    lemma_single_byte_change_detected(frame.update(at, byte), frame, at);
}

/// Takes one byte into the register.
fn absorb(crc: u8, byte: u8) -> (next: u8)
    ensures
        next == crc8_update(crc, byte),
{
    let mut reg: u8 = crc ^ byte;
    let mut done: u8 = 0;
    while done < 8
        invariant
            done <= 8,
            reg == crc8_rounds(crc ^ byte, done as nat),
        decreases 8 - done,
    {
        reg = if reg & 1 == 1 {
            (reg >> 1) ^ 0x8C
        } else {
            reg >> 1
        };
        done += 1;
    }
    reg
}

/// Computes the checksum of `data`.
pub fn crc8(data: &[u8]) -> (crc: u8)
    ensures
        crc == spec_crc8(data@),
{
    let mut crc: u8 = 0;
    let mut taken: usize = 0;
    while taken < data.len()
        invariant
            taken <= data.len(),
            crc == spec_crc8(data@.take(taken as int)),
        decreases data.len() - taken,
    {
        proof {
            assert(data@.take(taken + 1).drop_last() =~= data@.take(taken as int));
        }
        crc = absorb(crc, data[taken]);
        taken += 1;
    }
    proof {
        assert(data@.take(taken as int) =~= data@);
    }
    crc
}

/// Checks a frame whose last byte is the checksum of the bytes before it.
///
/// The frame passes exactly when the checksum over the whole of it, trailer
/// included, is zero; any other frame is refused with `CrcMismatch`.
pub fn check_crc8(frame: &[u8]) -> (verdict: Result<(), Error>)
    ensures
        verdict is Ok <==> frame_valid(frame@),
        verdict is Err ==> verdict == Err::<(), Error>(Error::CrcMismatch),
        frame@.len() > 0 ==> (verdict is Ok <==> spec_crc8(frame@.drop_last()) == frame@.last()),
{
    proof {
        if frame@.len() > 0 {
            lemma_frame_valid_iff_trailer_matches(frame@);
        }
    }
    if crc8(frame) == 0 {
        Ok(())
    } else {
        Err(Error::CrcMismatch)
    }
}

} // verus!
