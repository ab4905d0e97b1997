//! Little-endian serialization of decoded PCM samples, two bytes per sample.

use vstd::prelude::*;

verus! {

/// The low byte of a sample's two's-complement 16-bit representation.
pub open spec fn sample_lo(s: i16) -> u8 {
    (s as u16 & 0xff) as u8
}

/// The high byte of a sample's two's-complement 16-bit representation.
pub open spec fn sample_hi(s: i16) -> u8 {
    ((s as u16) >> 8) as u8
}

/// The little-endian byte sequence of a PCM sample sequence: for each sample
/// its low byte, then its high byte, in sample order.
pub open spec fn le_bytes_of(samples: Seq<i16>) -> Seq<u8>
    decreases samples.len(),
{
    if samples.len() == 0 {
        Seq::empty()
    } else {
        seq![sample_lo(samples.first()), sample_hi(samples.first())] + le_bytes_of(
            samples.drop_first(),
        )
    }
}

/// Serializes PCM samples to little-endian bytes, two per sample.
pub fn pcm_to_le_bytes(samples: &Vec<i16>) -> (out: Vec<u8>)
    ensures
        out@ == le_bytes_of(samples@),
        out@.len() == 2 * samples@.len(),
{
    let n = samples.len();
    let mut out: Vec<u8> = Vec::new();
    proof {
        assert(samples@.skip(0) == samples@);
    }
    for i in 0..n
        invariant
            n == samples@.len(),
            out@.len() == 2 * i,
            le_bytes_of(samples@) == out@ + le_bytes_of(samples@.skip(i as int)),
        decreases n - i,
    {
        let s = samples[i] as u16;
        out.push((s & 0xff) as u8);
        out.push((s >> 8) as u8);
        proof {
            assert(samples@.skip(i as int).first() == samples@[i as int]);
            assert(samples@.skip(i as int).drop_first() == samples@.skip(i + 1));
        }
    }
    proof {
        assert(le_bytes_of(samples@.skip(n as int)) =~= Seq::<u8>::empty());
        assert(out@ =~= le_bytes_of(samples@));
    }
    out
}

} // verus!
