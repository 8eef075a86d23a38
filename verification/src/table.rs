//! Waveform tables: one cycle of a periodic waveform as fixed-point samples.

use vstd::prelude::*;
use crate::fixed::FP_ONE;

verus! {

/// A constructor was handed a configuration the synthesizer cannot run
/// with: a table too short (or too long) for interpolation, an amplitude
/// outside full scale, a zero sample rate, or a negative frequency.
#[derive(Clone, Copy, Debug, PartialEq, Eq, Structural)]
pub struct InvalidConfiguration;

/// Largest accepted table length. The cap keeps the scaled phase span
/// `len * FP_ONE` comfortably inside the fixed-point phase arithmetic.
pub const MAX_TABLE_LEN: usize = 0x10_0000;

/// One full cycle of a periodic waveform, as an immutable, ordered
/// sequence of fixed-point amplitudes. Oscillators read it; nothing
/// mutates it after construction.
#[derive(Debug)]
pub struct WaveTable {
    samples: Vec<i64>,
}

impl View for WaveTable {
    type V = Seq<i64>;

    closed spec fn view(&self) -> Seq<i64> {
        self.samples@
    }
}

impl WaveTable {
    /// The table invariant: at least two points (linear interpolation
    /// needs two), at most `MAX_TABLE_LEN`, every amplitude within full
    /// scale.
    pub open spec fn wf(&self) -> bool {
        Self::acceptable(self@)
    }

    /// Which sample sequences `new` accepts.
    pub open spec fn acceptable(samples: Seq<i64>) -> bool {
        &&& 2 <= samples.len() <= MAX_TABLE_LEN
        &&& forall|k: int|
            0 <= k < samples.len() ==> -FP_ONE <= #[trigger] samples[k] <= FP_ONE
    }

    /// Builds a table from one cycle of samples. Rejects a table shorter
    /// than two points, longer than `MAX_TABLE_LEN`, or holding an
    /// amplitude outside `[-FP_ONE, FP_ONE]`.
    pub fn new(samples: Vec<i64>) -> (r: Result<WaveTable, InvalidConfiguration>)
        ensures
            r is Ok <==> Self::acceptable(samples@),
            r matches Ok(t) ==> t@ == samples@ && t.wf(),
    {
        if samples.len() < 2 || samples.len() > MAX_TABLE_LEN {
            return Err(InvalidConfiguration);
        }
        let mut k: usize = 0;
        while k < samples.len()
            invariant
                k <= samples@.len(),
                forall|i: int| 0 <= i < k ==> -FP_ONE <= #[trigger] samples@[i] <= FP_ONE,
            decreases samples@.len() - k,
        {
            let s = samples[k];
            if s < -FP_ONE || s > FP_ONE {
                return Err(InvalidConfiguration);
            }
            k = k + 1;
        }
        Ok(WaveTable { samples })
    }

    /// The number of points in the cycle.
    pub fn len(&self) -> (n: usize)
        ensures
            n == self@.len(),
    {
        self.samples.len()
    }

    /// The amplitude at index `k`.
    pub fn sample_at(&self, k: usize) -> (s: i64)
        requires
            k < self@.len(),
        ensures
            s == self@[k as int],
    {
        self.samples[k]
    }
}

/// Fills `wave_table_size` points of a naive (non-band-limited) square
/// wave: `-FP_ONE` through the midpoint index, `FP_ONE` for the rest.
pub fn square(wave_table_size: usize) -> (t: Vec<i64>)
    ensures
        t@.len() == wave_table_size,
        forall|k: int|
            0 <= k < wave_table_size ==> #[trigger] t@[k] == (if k > wave_table_size as int / 2 {
                FP_ONE as int
            } else {
                -FP_ONE as int
            }),
{
    let mut wave_table: Vec<i64> = Vec::with_capacity(wave_table_size);
    let mut n: usize = 0;
    while n < wave_table_size
        invariant
            n <= wave_table_size,
            wave_table@.len() == n,
            forall|k: int|
                0 <= k < n ==> #[trigger] wave_table@[k] == (if k > wave_table_size as int / 2 {
                    FP_ONE as int
                } else {
                    -FP_ONE as int
                }),
        decreases wave_table_size - n,
    {
        if n > wave_table_size / 2 {
            wave_table.push(FP_ONE);
        } else {
            wave_table.push(-FP_ONE);
        }
        n = n + 1;
    }
    wave_table
}

} // verus!
