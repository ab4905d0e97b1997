//! The nibble unpacker: splits each packed ADPCM byte into its two 4-bit
//! codes, high nibble first, building one flat ordered code sequence.

use vstd::prelude::*;

verus! {

/// The high 4 bits of a byte, as a 4-bit code.
pub open spec fn high_nibble(b: u8) -> u8 {
    b >> 4
}

/// The low 4 bits of a byte, as a 4-bit code.
pub open spec fn low_nibble(b: u8) -> u8 {
    b & 0x0f
}

/// The flat code sequence of a packed byte sequence: for each byte, its high
/// nibble followed by its low nibble, in byte order.
pub open spec fn nibbles_of(bytes: Seq<u8>) -> Seq<u8>
    decreases bytes.len(),
{
    if bytes.len() == 0 {
        Seq::empty()
    } else {
        seq![high_nibble(bytes.first()), low_nibble(bytes.first())] + nibbles_of(
            bytes.drop_first(),
        )
    }
}

/// A byte yields exactly two codes, so the flat sequence has twice the length
/// of the input.
pub proof fn lemma_nibbles_len(bytes: Seq<u8>)
    ensures
        nibbles_of(bytes).len() == 2 * bytes.len(),
    decreases bytes.len(),
{
    if bytes.len() > 0 {
        lemma_nibbles_len(bytes.drop_first());
    }
}

/// Every unpacked code is a 4-bit value.
pub proof fn lemma_nibbles_in_range(bytes: Seq<u8>)
    ensures
        forall|i: int| 0 <= i < nibbles_of(bytes).len() ==> #[trigger] nibbles_of(bytes)[i] < 16,
    decreases bytes.len(),
{
    if bytes.len() > 0 {
        let b = bytes.first();
        let tail = bytes.drop_first();
        assert(b >> 4 < 16 && b & 0x0f < 16) by (bit_vector);
        lemma_nibbles_in_range(tail);
        assert forall|i: int| 0 <= i < nibbles_of(bytes).len() implies #[trigger] nibbles_of(
            bytes,
        )[i] < 16 by {
            if i >= 2 {
                assert(nibbles_of(bytes)[i] == nibbles_of(tail)[i - 2]);
            }
        }
    }
}

/// Splits one byte into its two 4-bit codes, high nibble first.
pub fn _nibblegen(tag: &u8) -> (r: [u8; 2])
    ensures
        r@ == seq![high_nibble(*tag), low_nibble(*tag)],
        r@[0] < 16,
        r@[1] < 16,
{
    let b = *tag;
    let high = b >> 4;
    let low = b & 0x0f;
    proof {
        assert(b >> 4 < 16 && b & 0x0f < 16) by (bit_vector);
    }
    let r = [high, low];
    proof {
        assert(r@ =~= seq![high_nibble(b), low_nibble(b)]);
    }
    r
}

/// Unpacks a whole packed payload into its flat code sequence.
pub fn unpack(bytes: &[u8]) -> (codes: Vec<u8>)
    ensures
        codes@ == nibbles_of(bytes@),
        codes@.len() == 2 * bytes@.len(),
        forall|i: int| 0 <= i < codes@.len() ==> #[trigger] codes@[i] < 16,
{
    let n = bytes.len();
    let mut codes: Vec<u8> = Vec::new();
    proof {
        assert(bytes@.skip(0) == bytes@);
    }
    for i in 0..n
        invariant
            n == bytes@.len(),
            codes@.len() == 2 * i,
            nibbles_of(bytes@) == codes@ + nibbles_of(bytes@.skip(i as int)),
        decreases n - i,
    {
        let pair = _nibblegen(&bytes[i]);
        codes.push(pair[0]);
        codes.push(pair[1]);
        proof {
            assert(bytes@.skip(i as int).first() == bytes@[i as int]);
            assert(bytes@.skip(i as int).drop_first() == bytes@.skip(i + 1));
        }
    }
    proof {
        assert(nibbles_of(bytes@.skip(n as int)) =~= Seq::<u8>::empty());
        assert(codes@ =~= nibbles_of(bytes@));
        lemma_nibbles_len(bytes@);
        lemma_nibbles_in_range(bytes@);
    }
    codes
}

} // verus!
