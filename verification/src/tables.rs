//! The two fixed lookup tables of the IMA/DVI ADPCM quantizer.

use vstd::prelude::*;

verus! {

/// Quantizer step size for each step index 0..=88. Entries grow roughly
/// exponentially from 7 up to the 16-bit sample ceiling 32767.
pub const STEP_SIZE_TABLE: [i32; 89] = [
    7, 8, 9, 10, 11, 12, 13, 14, 16, 17,
    19, 21, 23, 25, 28, 31, 34, 37, 41, 45,
    50, 55, 60, 66, 73, 80, 88, 97, 107, 118,
    130, 143, 157, 173, 190, 209, 230, 253, 279, 307,
    337, 371, 408, 449, 494, 544, 598, 658, 724, 796,
    876, 963, 1060, 1166, 1282, 1411, 1552, 1707, 1878, 2066,
    2272, 2499, 2749, 3024, 3327, 3660, 4026, 4428, 4871, 5358,
    5894, 6484, 7132, 7845, 8630, 9493, 10442, 11487, 12635, 13899,
    15289, 16818, 18500, 20350, 22385, 24623, 27086, 29794, 32767,
];

/// Step-index delta applied after decoding each 4-bit code. Only the three
/// magnitude bits of the code matter, so the second half repeats the first.
pub const INDEX_ADJUST_TABLE: [i8; 16] = [
    -1, -1, -1, -1, 2, 4, 6, 8,
    -1, -1, -1, -1, 2, 4, 6, 8,
];

/// Every step size lies between the smallest step 7 and the 16-bit sample
/// ceiling 32767, and the table floor and ceiling sit at the two ends.
pub proof fn lemma_step_table_bounds(i: int)
    requires
        0 <= i < 89,
    ensures
        7 <= STEP_SIZE_TABLE@[i] <= 32767,
        STEP_SIZE_TABLE@[0] == 7,
        STEP_SIZE_TABLE@[88] == 32767,
{
    assert(forall|j: int| 0 <= j < 89 ==> 7 <= #[trigger] STEP_SIZE_TABLE@[j] <= 32767);
}

/// Every index adjustment lies in [-1, 8]; codes whose magnitude is below 4
/// adjust by exactly -1, and the others adjust by at least 2.
pub proof fn lemma_adjust_table_bounds(i: int)
    requires
        0 <= i < 16,
    ensures
        -1 <= INDEX_ADJUST_TABLE@[i] <= 8,
        i % 8 < 4 ==> INDEX_ADJUST_TABLE@[i] == -1,
        i % 8 >= 4 ==> 2 <= INDEX_ADJUST_TABLE@[i],
{
    assert(forall|j: int| 0 <= j < 16 ==> -1 <= #[trigger] INDEX_ADJUST_TABLE@[j] <= 8);
    assert(forall|j: int| 0 <= j < 16 && j % 8 < 4 ==> #[trigger] INDEX_ADJUST_TABLE@[j] == -1);
    assert(forall|j: int| 0 <= j < 16 && j % 8 >= 4 ==> 2 <= #[trigger] INDEX_ADJUST_TABLE@[j]);
}

} // verus!
