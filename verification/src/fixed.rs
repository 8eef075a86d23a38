//! Fixed-point scale used for amplitudes, interpolation weights and gains.

use vstd::prelude::*;

verus! {

/// One amplitude (or phase) unit in fixed point: the value that stands for
/// `1.0`. An amplitude of full scale is `FP_ONE`, silence is `0`, and the
/// most negative full-scale amplitude is `-FP_ONE`.
pub const FP_ONE: i64 = 65536;

/// Truncating division of a scaled product by `FP_ONE` (rounding toward
/// zero, as the host's floating-point-to-integer conversion would).
pub open spec fn fp_unscale(p: int) -> int {
    if p >= 0 {
        p / (FP_ONE as int)
    } else {
        -((-p) / (FP_ONE as int))
    }
}

/// Divides a scaled product by `FP_ONE`, truncating toward zero.
pub fn fp_unscale_exec(p: i64) -> (r: i64)
    requires
        -0x4000_0000_0000_0000 <= p <= 0x4000_0000_0000_0000,
    ensures
        r == fp_unscale(p as int),
{
    if p >= 0 {
        ((p as u64) / (FP_ONE as u64)) as i64
    } else {
        let q: u64 = ((-p) as u64) / (FP_ONE as u64);
        -(q as i64)
    }
}

} // verus!
