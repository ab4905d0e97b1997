//! The ADPCM decoder state machine: a strict sequential fold of 4-bit codes
//! through the adaptive predictor, emitting one clamped 16-bit PCM sample per
//! code.

use vstd::prelude::*;
use crate::tables::{STEP_SIZE_TABLE, INDEX_ADJUST_TABLE};
use crate::tables::{lemma_step_table_bounds, lemma_adjust_table_bounds};

verus! {

/// The per-stream decoder state: the previous reconstructed sample, the
/// current position in the step-size table, and the step size it selects.
pub struct DecoderState {
    pub predicted_sample: i32,
    pub step_index: i8,
    pub step_size: i32,
}

impl DecoderState {
    /// Well-formedness: the step index stays inside the table, the step size
    /// is the table entry at that index, and the predicted sample carries a
    /// clamped 16-bit value.
    pub open spec fn wf(self) -> bool {
        &&& 0 <= self.step_index <= 88
        &&& self.step_size == STEP_SIZE_TABLE@[self.step_index as int]
        &&& -32768 <= self.predicted_sample <= 32767
    }
}

/// The standard IMA ADPCM initial state: no history, smallest step.
pub open spec fn initial_state() -> DecoderState {
    DecoderState { predicted_sample: 0, step_index: 0, step_size: 7 }
}

/// The unsigned difference a code selects: its three magnitude bits scale the
/// step size by 1, 1/2 and 1/4, and the unconditional step/8 term is the
/// rounding bias of the IMA definition.
pub open spec fn magnitude_of(code: u8, step: i32) -> int {
    (if code & 4 != 0 { step as int } else { 0 }) + (if code & 2 != 0 { (step >> 1) as int } else { 0 })
        + (if code & 1 != 0 { (step >> 2) as int } else { 0 }) + (step >> 3) as int
}

/// The signed difference a code selects: bit 3 of the code is the sign.
pub open spec fn diff_of(code: u8, step: i32) -> int {
    if code & 8 != 0 { -magnitude_of(code, step) } else { magnitude_of(code, step) }
}

/// Saturation of a reconstructed sample into the signed 16-bit range.
pub open spec fn clamp_sample(v: int) -> int {
    if v > 32767 { 32767 } else if v < -32768 { -32768 } else { v }
}

/// Saturation of a step index into the table range [0, 88].
pub open spec fn clamp_index(v: int) -> int {
    if v < 0 { 0 } else if v > 88 { 88 } else { v }
}

/// The sample one decode step emits: the predicted sample moved by the code's
/// difference, saturated into the 16-bit range.
pub open spec fn step_sample(s: DecoderState, code: u8) -> int {
    clamp_sample(s.predicted_sample + diff_of(code, s.step_size))
}

/// The step index after one decode step: adjusted by the code's table entry,
/// saturated into [0, 88].
pub open spec fn step_index_after(s: DecoderState, code: u8) -> int {
    clamp_index(s.step_index + INDEX_ADJUST_TABLE@[code as int])
}

/// The whole state after one decode step; the emitted sample feeds back as
/// the next predicted sample.
pub open spec fn step_state(s: DecoderState, code: u8) -> DecoderState {
    DecoderState {
        predicted_sample: step_sample(s, code) as i32,
        step_index: step_index_after(s, code) as i8,
        step_size: STEP_SIZE_TABLE@[step_index_after(s, code)],
    }
}

/// The PCM sequence a code sequence decodes to from a given state, one sample
/// per code, each step's state feeding the next.
pub open spec fn decoded_from(s: DecoderState, codes: Seq<u8>) -> Seq<i16>
    decreases codes.len(),
{
    if codes.len() == 0 {
        Seq::empty()
    } else {
        seq![step_sample(s, codes.first()) as i16] + decoded_from(
            step_state(s, codes.first()),
            codes.drop_first(),
        )
    }
}

/// The state left behind after folding a whole code sequence.
pub open spec fn state_after(s: DecoderState, codes: Seq<u8>) -> DecoderState
    decreases codes.len(),
{
    if codes.len() == 0 {
        s
    } else {
        state_after(step_state(s, codes.first()), codes.drop_first())
    }
}

/// The PCM sequence a code sequence decodes to from the standard initial
/// state.
pub open spec fn decoded(codes: Seq<u8>) -> Seq<i16> {
    decoded_from(initial_state(), codes)
}

/// One decode step keeps the state well-formed.
pub proof fn lemma_step_state_wf(s: DecoderState, code: u8)
    requires
        s.wf(),
        code < 16,
    ensures
        step_state(s, code).wf(),
        -32768 <= step_sample(s, code) <= 32767,
        0 <= step_index_after(s, code) <= 88,
{
    lemma_step_table_bounds(step_index_after(s, code));
}

impl DecoderState {
    /// A freshly initialized decoder: predicted sample 0, step index 0, step
    /// size 7.
    pub fn new() -> (s: Self)
        ensures
            s == initial_state(),
            s.wf(),
    {
        let s = DecoderState { predicted_sample: 0, step_index: 0, step_size: 7 };
        proof {
            lemma_step_table_bounds(0);
        }
        s
    }

    /// One transition of the state machine: decodes a single 4-bit code and
    /// returns the clamped PCM sample it reconstructs.
    pub fn step(&mut self, code: u8) -> (sample: i16)
        requires
            old(self).wf(),
            code < 16,
        ensures
            final(self).wf(),
            *final(self) == step_state(*old(self), code),
            sample == step_sample(*old(self), code),
    {
        let step = self.step_size;
        proof {
            lemma_step_table_bounds(self.step_index as int);
            assert(0 <= step >> 1 <= step && 0 <= step >> 2 <= step && 0 <= step >> 3 <= step)
                by (bit_vector)
                requires 7 <= step <= 32767;
        }
        let mut diff: i32 = 0;
        if code & 4 != 0 {
            diff += step;
        }
        if code & 2 != 0 {
            diff += step >> 1;
        }
        if code & 1 != 0 {
            diff += step >> 2;
        }
        diff += step >> 3;
        if code & 8 != 0 {
            diff = -diff;
        }
        assert(diff == diff_of(code, step));

        let mut new_sample: i32 = self.predicted_sample + diff;
        if new_sample > 32767 {
            new_sample = 32767;
        } else if new_sample < -32768 {
            new_sample = -32768;
        }
        assert(new_sample == clamp_sample(old(self).predicted_sample + diff_of(code, step)));

        proof {
            lemma_adjust_table_bounds(code as int);
        }
        let mut index: i8 = self.step_index + INDEX_ADJUST_TABLE[code as usize];
        if index < 0 {
            index = 0;
        } else if index > 88 {
            index = 88;
        }

        self.predicted_sample = new_sample;
        self.step_index = index;
        self.step_size = STEP_SIZE_TABLE[index as usize];
        proof {
            lemma_step_state_wf(*old(self), code);
        }
        new_sample as i16
    }
}

/// Decodes a whole code sequence from a freshly initialized state, one PCM
/// sample per code. The output is a function of the codes alone.
pub fn decode(codes: &[u8]) -> (out: Vec<i16>)
    requires
        forall|i: int| 0 <= i < codes@.len() ==> #[trigger] codes@[i] < 16,
    ensures
        out@ == decoded(codes@),
        out@.len() == codes@.len(),
{
    let n = codes.len();
    let mut state = DecoderState::new();
    let mut out: Vec<i16> = Vec::new();
    proof {
        assert(codes@.skip(0) == codes@);
    }
    for i in 0..n
        invariant
            n == codes@.len(),
            forall|j: int| 0 <= j < codes@.len() ==> #[trigger] codes@[j] < 16,
            out@.len() == i,
            state.wf(),
            decoded(codes@) == out@ + decoded_from(state, codes@.skip(i as int)),
        decreases n - i,
    {
        proof {
            assert(codes@.skip(i as int).first() == codes@[i as int]);
            assert(codes@.skip(i as int).drop_first() == codes@.skip(i + 1));
        }
        let sample = state.step(codes[i]);
        out.push(sample);
    }
    proof {
        assert(decoded_from(state, codes@.skip(n as int)) =~= Seq::<i16>::empty());
        assert(out@ =~= decoded(codes@));
    }
    out
}

} // verus!
