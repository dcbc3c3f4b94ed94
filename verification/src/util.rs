//! Small sample-domain helpers.

use vstd::prelude::*;
use crate::constants::PRN_CODE_LEN;

verus! {

/// Samples in one code period at the default rate of two samples per chip.
pub fn get_num_samples_per_msec() -> (n: usize)
    ensures
        n == 2 * PRN_CODE_LEN,
{
    PRN_CODE_LEN * 2
}

} // verus!
