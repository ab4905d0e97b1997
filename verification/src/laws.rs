//! Stream-level laws of the decoder: determinism, output length, saturation
//! at both sample boundaries, and the clamping of the step index at both
//! table ends.

use vstd::prelude::*;
use vstd::math::{min, max};
use crate::tables::{INDEX_ADJUST_TABLE, lemma_step_table_bounds, lemma_adjust_table_bounds};
use crate::decoder::{
    DecoderState, magnitude_of, diff_of, step_sample, step_state, decoded_from, state_after,
    decoded, initial_state, lemma_step_state_wf,
};
use crate::unpack::{nibbles_of, lemma_nibbles_len};

verus! {

/// Decoding is deterministic: any two decodes of the same code sequence from
/// a freshly initialized state yield the same PCM output.
pub proof fn lemma_decode_deterministic(codes: Seq<u8>, out1: Seq<i16>, out2: Seq<i16>)
    requires
        out1 == decoded(codes),
        out2 == decoded(codes),
    ensures
        out1 == out2,
{
}

/// A decode emits exactly one sample per code.
pub proof fn lemma_decoded_from_len(s: DecoderState, codes: Seq<u8>)
    ensures
        decoded_from(s, codes).len() == codes.len(),
    decreases codes.len(),
{
    if codes.len() > 0 {
        lemma_decoded_from_len(step_state(s, codes.first()), codes.drop_first());
    }
}

/// Unpacking `N` bytes and decoding every resulting code produces exactly
/// `2 N` PCM samples.
pub proof fn lemma_unpack_decode_length(bytes: Seq<u8>)
    ensures
        decoded(nibbles_of(bytes)).len() == 2 * bytes.len(),
{
    lemma_nibbles_len(bytes);
    lemma_decoded_from_len(initial_state(), nibbles_of(bytes));
}

/// Folding a whole code sequence keeps the state well-formed, so the step
/// index never leaves the table.
pub proof fn lemma_state_after_wf(s: DecoderState, codes: Seq<u8>)
    requires
        s.wf(),
        forall|i: int| 0 <= i < codes.len() ==> #[trigger] codes[i] < 16,
    ensures
        state_after(s, codes).wf(),
    decreases codes.len(),
{
    if codes.len() > 0 {
        lemma_step_state_wf(s, codes.first());
        assert(forall|i: int|
            0 <= i < codes.drop_first().len() ==> #[trigger] codes.drop_first()[i] < 16);
        lemma_state_after_wf(step_state(s, codes.first()), codes.drop_first());
    }
}

/// The sample at position `i` of a decode is the one step of the state that
/// the first `i` codes leave behind.
pub proof fn lemma_decoded_from_index(s: DecoderState, codes: Seq<u8>, i: int)
    requires
        0 <= i < codes.len(),
    ensures
        decoded_from(s, codes)[i] == step_sample(state_after(s, codes.take(i)), codes[i]) as i16,
    decreases i,
{
    lemma_decoded_from_len(s, codes);
    if i == 0 {
        assert(codes.take(0) =~= Seq::<u8>::empty());
    } else {
        let s1 = step_state(s, codes.first());
        lemma_decoded_from_index(s1, codes.drop_first(), i - 1);
        assert(codes.drop_first().take(i - 1) =~= codes.take(i).drop_first());
        assert(codes.take(i).first() == codes.first());
        assert(state_after(s1, codes.take(i).drop_first()) == state_after(s, codes.take(i)));
        assert(codes.drop_first()[i - 1] == codes[i]);
    }
}

/// The difference a code selects is at most four step sizes in magnitude,
/// and its sign is the code's sign bit.
pub proof fn lemma_diff_bounds(code: u8, step: i32)
    requires
        7 <= step <= 32767,
    ensures
        0 <= magnitude_of(code, step) <= 4 * step,
        code & 8 == 0 ==> diff_of(code, step) == magnitude_of(code, step),
        code & 8 != 0 ==> diff_of(code, step) == -magnitude_of(code, step),
{
    assert(0 <= step >> 1 <= step && 0 <= step >> 2 <= step && 0 <= step >> 3 <= step)
        by (bit_vector)
        requires 7 <= step <= 32767;
}

/// A code with a clear sign bit never moves the output down, and the output
/// never exceeds the saturation ceiling 32767.
pub proof fn lemma_positive_code_monotone(s: DecoderState, code: u8)
    requires
        s.wf(),
        code < 16,
        code & 8 == 0,
    ensures
        s.predicted_sample <= step_sample(s, code) <= 32767,
{
    lemma_step_table_bounds(s.step_index as int);
    lemma_diff_bounds(code, s.step_size);
}

/// A code with a set sign bit never moves the output up, and the output
/// never falls below the saturation floor -32768.
pub proof fn lemma_negative_code_monotone(s: DecoderState, code: u8)
    requires
        s.wf(),
        code < 16,
        code & 8 != 0,
    ensures
        -32768 <= step_sample(s, code) <= s.predicted_sample,
{
    lemma_step_table_bounds(s.step_index as int);
    lemma_diff_bounds(code, s.step_size);
}

/// Once the output sits at the positive ceiling, any run of sign-clear codes
/// holds every further sample at 32767: saturation is absorbing.
pub proof fn lemma_high_run_stays_saturated(s: DecoderState, codes: Seq<u8>)
    requires
        s.wf(),
        s.predicted_sample == 32767,
        forall|i: int| 0 <= i < codes.len() ==> #[trigger] codes[i] < 16 && codes[i] & 8 == 0,
    ensures
        decoded_from(s, codes) =~= Seq::new(codes.len(), |i: int| 32767i16),
    decreases codes.len(),
{
    if codes.len() > 0 {
        let c = codes.first();
        lemma_positive_code_monotone(s, c);
        lemma_step_state_wf(s, c);
        lemma_high_run_stays_saturated(step_state(s, c), codes.drop_first());
    }
}

/// Once the output sits at the negative floor, any run of sign-set codes
/// holds every further sample at -32768: saturation is absorbing.
pub proof fn lemma_low_run_stays_saturated(s: DecoderState, codes: Seq<u8>)
    requires
        s.wf(),
        s.predicted_sample == -32768,
        forall|i: int| 0 <= i < codes.len() ==> #[trigger] codes[i] < 16 && codes[i] & 8 != 0,
    ensures
        decoded_from(s, codes) =~= Seq::new(codes.len(), |i: int| (-32768) as i16),
    decreases codes.len(),
{
    if codes.len() > 0 {
        let c = codes.first();
        lemma_negative_code_monotone(s, c);
        lemma_step_state_wf(s, c);
        lemma_low_run_stays_saturated(step_state(s, c), codes.drop_first());
    }
}

/// Codes whose magnitude part is at least 4 adjust the step index upward by
/// at least 2 each, so a run of them lifts the index to at least
/// `min(start + 2 * len, 88)` without ever passing 88.
pub proof fn lemma_index_run_up(s: DecoderState, codes: Seq<u8>)
    requires
        s.wf(),
        forall|i: int| 0 <= i < codes.len() ==> #[trigger] codes[i] < 16 && codes[i] % 8 >= 4,
    ensures
        state_after(s, codes).wf(),
        state_after(s, codes).step_index >= min(s.step_index + 2 * codes.len(), 88),
    decreases codes.len(),
{
    lemma_state_after_wf(s, codes);
    if codes.len() > 0 {
        let c = codes.first();
        lemma_adjust_table_bounds(c as int);
        lemma_step_state_wf(s, c);
        lemma_index_run_up(step_state(s, c), codes.drop_first());
    }
}

/// A long enough run of upward-adjusting codes caps the step index at 88
/// and pins the step size at the table ceiling 32767.
pub proof fn lemma_step_index_cap(s: DecoderState, codes: Seq<u8>)
    requires
        s.wf(),
        codes.len() >= 44,
        forall|i: int| 0 <= i < codes.len() ==> #[trigger] codes[i] < 16 && codes[i] % 8 >= 4,
    ensures
        state_after(s, codes).step_index == 88,
        state_after(s, codes).step_size == 32767,
{
    lemma_index_run_up(s, codes);
    lemma_step_table_bounds(88);
}

/// Codes whose magnitude part is below 4 adjust the step index by exactly
/// -1 each, so a run of them lowers the index to at most
/// `max(start - len, 0)` without ever passing below 0.
pub proof fn lemma_index_run_down(s: DecoderState, codes: Seq<u8>)
    requires
        s.wf(),
        forall|i: int| 0 <= i < codes.len() ==> #[trigger] codes[i] < 16 && codes[i] % 8 < 4,
    ensures
        state_after(s, codes).wf(),
        state_after(s, codes).step_index <= max(s.step_index - codes.len(), 0),
    decreases codes.len(),
{
    lemma_state_after_wf(s, codes);
    if codes.len() > 0 {
        let c = codes.first();
        lemma_adjust_table_bounds(c as int);
        lemma_step_state_wf(s, c);
        lemma_index_run_down(step_state(s, c), codes.drop_first());
    }
}

/// A long enough run of downward-adjusting codes floors the step index at 0
/// and pins the step size at the table floor 7.
pub proof fn lemma_step_index_floor(s: DecoderState, codes: Seq<u8>)
    requires
        s.wf(),
        codes.len() >= 88,
        forall|i: int| 0 <= i < codes.len() ==> #[trigger] codes[i] < 16 && codes[i] % 8 < 4,
    ensures
        state_after(s, codes).step_index == 0,
        state_after(s, codes).step_size == 7,
{
    lemma_index_run_down(s, codes);
    lemma_step_table_bounds(0);
}

/// Folding a concatenation is folding the two parts in turn.
pub proof fn lemma_state_after_concat(s: DecoderState, a: Seq<u8>, b: Seq<u8>)
    ensures
        state_after(s, a + b) == state_after(state_after(s, a), b),
    decreases a.len(),
{
    if a.len() == 0 {
        assert(a + b =~= b);
    } else {
        assert((a + b).first() == a.first());
        assert((a + b).drop_first() =~= a.drop_first() + b);
        lemma_state_after_concat(step_state(s, a.first()), a.drop_first(), b);
    }
}

/// The state after `k + 1` codes is one step beyond the state after `k`.
pub proof fn lemma_state_after_snoc(s: DecoderState, codes: Seq<u8>, k: int)
    requires
        0 <= k < codes.len(),
    ensures
        state_after(s, codes.take(k + 1)) == step_state(state_after(s, codes.take(k)), codes[k]),
    decreases codes.len(),
{
    assert(codes.take(k + 1) =~= codes.take(k) + seq![codes[k]]);
    lemma_state_after_concat(s, codes.take(k), seq![codes[k]]);
    let sk = state_after(s, codes.take(k));
    assert(state_after(sk, seq![codes[k]]) == step_state(sk, codes[k])) by {
        let one = seq![codes[k]];
        assert(one.len() == 1 && one.first() == codes[k]);
        assert(one.drop_first() =~= Seq::<u8>::empty());
        assert(state_after(step_state(sk, codes[k]), one.drop_first()) == step_state(
            sk,
            codes[k],
        ));
    }
}

/// Codes with all three magnitude bits set adjust the step index upward by
/// 8 each, so a run of them lifts it to at least `min(start + 8 * len, 88)`.
pub proof fn lemma_index_run_up_full(s: DecoderState, codes: Seq<u8>)
    requires
        s.wf(),
        forall|i: int| 0 <= i < codes.len() ==> #[trigger] codes[i] < 16 && codes[i] % 8 == 7,
    ensures
        state_after(s, codes).wf(),
        state_after(s, codes).step_index >= min(s.step_index + 8 * codes.len(), 88),
    decreases codes.len(),
{
    lemma_state_after_wf(s, codes);
    if codes.len() > 0 {
        let c = codes.first();
        assert(forall|j: int|
            0 <= j < 16 && j % 8 == 7 ==> #[trigger] INDEX_ADJUST_TABLE@[j] == 8);
        lemma_step_state_wf(s, c);
        lemma_index_run_up_full(step_state(s, c), codes.drop_first());
    }
}

/// At the ceiling step size, the two codes with all magnitude bits set
/// select the largest possible difference, 61436: upward for code 0x7,
/// downward for code 0xF.
pub proof fn lemma_full_magnitude_at_ceiling(code: u8)
    requires
        code == 7 || code == 15,
    ensures
        code == 7 ==> diff_of(code, 32767) == 61436,
        code == 15 ==> diff_of(code, 32767) == -61436,
{
    assert(code & 4 != 0 && code & 2 != 0 && code & 1 != 0) by (bit_vector)
        requires code == 7 || code == 15;
    assert(7u8 & 8 == 0 && 15u8 & 8 != 0) by (bit_vector);
    assert(32767i32 >> 1 == 16383 && 32767i32 >> 2 == 8191 && 32767i32 >> 3 == 4095)
        by (bit_vector);
}

/// A run of sign-clear codes from an already saturated output keeps the
/// state's prediction at the ceiling.
pub proof fn lemma_high_run_state(s: DecoderState, codes: Seq<u8>)
    requires
        s.wf(),
        s.predicted_sample == 32767,
        forall|i: int| 0 <= i < codes.len() ==> #[trigger] codes[i] < 16 && codes[i] & 8 == 0,
    ensures
        state_after(s, codes).wf(),
        state_after(s, codes).predicted_sample == 32767,
    decreases codes.len(),
{
    if codes.len() > 0 {
        let c = codes.first();
        lemma_positive_code_monotone(s, c);
        lemma_step_state_wf(s, c);
        lemma_high_run_state(step_state(s, c), codes.drop_first());
    }
}

/// A run of sign-set codes from an output saturated at the floor keeps the
/// state's prediction at the floor.
pub proof fn lemma_low_run_state(s: DecoderState, codes: Seq<u8>)
    requires
        s.wf(),
        s.predicted_sample == -32768,
        forall|i: int| 0 <= i < codes.len() ==> #[trigger] codes[i] < 16 && codes[i] & 8 != 0,
    ensures
        state_after(s, codes).wf(),
        state_after(s, codes).predicted_sample == -32768,
    decreases codes.len(),
{
    if codes.len() > 0 {
        let c = codes.first();
        lemma_negative_code_monotone(s, c);
        lemma_step_state_wf(s, c);
        lemma_low_run_state(step_state(s, c), codes.drop_first());
    }
}

/// A run of the maximal positive code 0x7 drives the output to the ceiling:
/// from any well-formed state, every sample from position 12 on is exactly
/// 32767, never more.
pub proof fn lemma_max_positive_run_saturates(s: DecoderState, codes: Seq<u8>, i: int)
    requires
        s.wf(),
        forall|j: int| 0 <= j < codes.len() ==> #[trigger] codes[j] == 7,
        12 <= i < codes.len(),
    ensures
        decoded_from(s, codes)[i] == 32767,
{
    assert(7u8 & 8 == 0) by (bit_vector);
    assert(codes[11] == 7 && codes[12] == 7 && codes[i] == 7);
    let s11 = state_after(s, codes.take(11));
    lemma_index_run_up_full(s, codes.take(11));
    assert(s11.step_index == 88);
    lemma_step_table_bounds(88);
    assert(s11.step_size == 32767);

    lemma_state_after_snoc(s, codes, 11);
    let s12 = state_after(s, codes.take(12));
    lemma_full_magnitude_at_ceiling(7);
    lemma_step_state_wf(s11, 7);
    assert(s12.predicted_sample >= 28668);
    assert(s12.step_index == 88 && s12.step_size == 32767);

    lemma_state_after_snoc(s, codes, 12);
    let s13 = state_after(s, codes.take(13));
    assert(s13.predicted_sample == 32767);
    lemma_step_state_wf(s12, 7);

    lemma_decoded_from_index(s, codes, i);
    if i == 12 {
        assert(decoded_from(s, codes)[i] == 32767);
    } else {
        let mid = codes.subrange(13, i);
        assert(codes.take(i) =~= codes.take(13) + mid);
        lemma_state_after_concat(s, codes.take(13), mid);
        lemma_high_run_state(s13, mid);
        let si = state_after(s, codes.take(i));
        lemma_positive_code_monotone(si, 7);
        assert(decoded_from(s, codes)[i] == 32767);
    }
}

/// A run of the maximal negative code 0xF drives the output to the floor:
/// from any well-formed state, every sample from position 12 on is exactly
/// -32768, never less.
pub proof fn lemma_max_negative_run_saturates(s: DecoderState, codes: Seq<u8>, i: int)
    requires
        s.wf(),
        forall|j: int| 0 <= j < codes.len() ==> #[trigger] codes[j] == 15,
        12 <= i < codes.len(),
    ensures
        decoded_from(s, codes)[i] == -32768,
{
    assert(15u8 & 8 != 0) by (bit_vector);
    assert(codes[11] == 15 && codes[12] == 15 && codes[i] == 15);
    let s11 = state_after(s, codes.take(11));
    lemma_index_run_up_full(s, codes.take(11));
    assert(s11.step_index == 88);
    lemma_step_table_bounds(88);
    assert(s11.step_size == 32767);

    lemma_state_after_snoc(s, codes, 11);
    let s12 = state_after(s, codes.take(12));
    lemma_full_magnitude_at_ceiling(15);
    lemma_step_state_wf(s11, 15);
    assert(s12.predicted_sample <= -28669);
    assert(s12.step_index == 88 && s12.step_size == 32767);

    lemma_state_after_snoc(s, codes, 12);
    let s13 = state_after(s, codes.take(13));
    assert(s13.predicted_sample == -32768);
    lemma_step_state_wf(s12, 15);

    lemma_decoded_from_index(s, codes, i);
    if i == 12 {
        assert(decoded_from(s, codes)[i] == -32768);
    } else {
        let mid = codes.subrange(13, i);
        assert(codes.take(i) =~= codes.take(13) + mid);
        lemma_state_after_concat(s, codes.take(13), mid);
        lemma_low_run_state(s13, mid);
        let si = state_after(s, codes.take(i));
        lemma_negative_code_monotone(si, 15);
        assert(decoded_from(s, codes)[i] == -32768);
    }
}

} // verus!
