//! The forty bits that a sensor sends, packed into five bytes.
//!
//! Bits arrive most significant first and fill the bytes in order: bit 0 is
//! the top bit of byte 0, bit 39 the bottom bit of byte 4. Bytes 0 to 3 carry
//! the measurement; byte 4 is their sum modulo 256.

use vstd::prelude::*;

verus! {

/// How many bits make up a frame.
pub const FRAME_BITS: u8 = 40;

/// The sum of the four data bytes, modulo 256.
pub open spec fn checksum(frame: Seq<u8>) -> u8 {
    ((frame[0] + frame[1] + frame[2] + frame[3]) % 256) as u8
}

/// The byte that has a one where bit `index` of the frame lies within its
/// byte, and zeros elsewhere.
pub open spec fn bit_mask(index: int) -> u8 {
    1u8 << ((7 - index % 8) as u8)
}

/// Whether bit `index` of the frame is a one.
pub open spec fn bit_at(frame: Seq<u8>, index: int) -> bool {
    frame[index / 8] & bit_mask(index) != 0
}

/// The frame with bit `index` turned into a one.
pub open spec fn with_bit(frame: Seq<u8>, index: int) -> Seq<u8> {
    frame.update(index / 8, frame[index / 8] | bit_mask(index))
}

/// The frame in which all forty bits are zero.
pub open spec fn blank() -> Seq<u8> {
    seq![0u8, 0u8, 0u8, 0u8, 0u8]
}

/// The frame that results when the first `count` of `bits` have arrived and
/// the rest are still to come.
pub open spec fn frame_of(bits: Seq<bool>, count: nat) -> Seq<u8>
    decreases count,
{
    if count == 0 {
        blank()
    } else {
        let earlier = frame_of(bits, (count - 1) as nat);
        if bits[count - 1] {
            with_bit(earlier, count - 1)
        } else {
            earlier
        }
    }
}

proof fn lemma_mask(byte: u8, place: u8, other: u8)
    by (bit_vector)
    requires
        place < 8,
        other < 8,
    ensures
        ((byte | (1u8 << (7 - place) as u8)) & (1u8 << (7 - other) as u8) != 0) == (place == other
            || byte & (1u8 << (7 - other) as u8) != 0),
        0u8 & (1u8 << (7 - other) as u8) == 0,
{
}

/// Setting one bit turns that bit on and leaves the other thirty-nine alone.
pub proof fn law_with_bit(frame: Seq<u8>, index: int, other: int)
    requires
        frame.len() == 5,
        0 <= index < 40,
        0 <= other < 40,
    ensures
        with_bit(frame, index).len() == 5,
        bit_at(with_bit(frame, index), other) == (other == index || bit_at(frame, other)),
{
    let place = (index % 8) as u8;
    let seat = (other % 8) as u8;
    if index / 8 == other / 8 {
        lemma_mask(frame[index / 8], place, seat);
    }
}

/// A frame put together from received bits holds exactly those bits: bit
/// `index` is a one if and only if it has arrived and was a one.
pub proof fn law_frame_of(bits: Seq<bool>, count: nat, index: int)
    requires
        count <= 40,
        0 <= index < 40,
    ensures
        frame_of(bits, count).len() == 5,
        bit_at(frame_of(bits, count), index) == (index < count && bits[index]),
    decreases count,
{
    if count == 0 {
        lemma_mask(0, 0, (index % 8) as u8);
    } else {
        law_frame_of(bits, (count - 1) as nat, index);
        if bits[count - 1] {
            law_with_bit(frame_of(bits, (count - 1) as nat), count - 1, index);
        }
    }
}

proof fn lemma_byte_is_its_bits(left: u8, right: u8)
    by (bit_vector)
    requires
        (left & (1u8 << 7u8) != 0) == (right & (1u8 << 7u8) != 0),
        (left & (1u8 << 6u8) != 0) == (right & (1u8 << 6u8) != 0),
        (left & (1u8 << 5u8) != 0) == (right & (1u8 << 5u8) != 0),
        (left & (1u8 << 4u8) != 0) == (right & (1u8 << 4u8) != 0),
        (left & (1u8 << 3u8) != 0) == (right & (1u8 << 3u8) != 0),
        (left & (1u8 << 2u8) != 0) == (right & (1u8 << 2u8) != 0),
        (left & (1u8 << 1u8) != 0) == (right & (1u8 << 1u8) != 0),
        (left & (1u8 << 0u8) != 0) == (right & (1u8 << 0u8) != 0),
    ensures
        left == right,
{
}

proof fn lemma_same_byte(left: Seq<u8>, right: Seq<u8>, byte: int)
    requires
        0 <= byte < 5,
        forall|index: int| 0 <= index < 40 ==> bit_at(left, index) == bit_at(right, index),
    ensures
        left[byte] == right[byte],
{
    let first = 8 * byte;
    assert(bit_at(left, first) == bit_at(right, first));
    assert(bit_at(left, first + 1) == bit_at(right, first + 1));
    assert(bit_at(left, first + 2) == bit_at(right, first + 2));
    assert(bit_at(left, first + 3) == bit_at(right, first + 3));
    assert(bit_at(left, first + 4) == bit_at(right, first + 4));
    assert(bit_at(left, first + 5) == bit_at(right, first + 5));
    assert(bit_at(left, first + 6) == bit_at(right, first + 6));
    assert(bit_at(left, first + 7) == bit_at(right, first + 7));
    lemma_byte_is_its_bits(left[byte], right[byte]);
}

/// A frame is its forty bits and nothing more: two frames that agree in
/// every bit are the same frame.
pub proof fn law_same_bits_same_frame(left: Seq<u8>, right: Seq<u8>)
    requires
        left.len() == 5,
        right.len() == 5,
        forall|index: int| 0 <= index < 40 ==> bit_at(left, index) == bit_at(right, index),
    ensures
        left == right,
{
    lemma_same_byte(left, right, 0);
    lemma_same_byte(left, right, 1);
    lemma_same_byte(left, right, 2);
    lemma_same_byte(left, right, 3);
    lemma_same_byte(left, right, 4);
    assert(left =~= right);
}

/// Computes the checksum that a frame ought to carry in its last byte.
pub fn checksum_of(frame: &[u8; 5]) -> (sum: u8)
    ensures
        sum == checksum(frame@),
{
    let total: u16 = frame[0] as u16 + frame[1] as u16 + frame[2] as u16 + frame[3] as u16;
    assert(total & 0xff == total % 256) by (bit_vector);
    (total & 0xff) as u8
}

/// Records that bit `index` of the frame came in as a one.
pub fn set_bit(frame: &mut [u8; 5], index: u8)
    requires
        index < FRAME_BITS,
    ensures
        final(frame)@ == with_bit(old(frame)@, index as int),
{
    let byte: usize = (index / 8) as usize;
    let shift: u8 = 7 - index % 8;
    frame[byte] = frame[byte] | (1u8 << shift);
}

} // verus!
