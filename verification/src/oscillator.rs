//! The table-lookup oscillator: a phase cursor stepped through a waveform
//! table, with linear interpolation between neighbouring table points.

use vstd::prelude::*;
use vstd::arithmetic::div_mod::{
    lemma_div_is_ordered, lemma_div_is_ordered_by_denominator, lemma_mod_division_less_than_divisor,
    lemma_multiply_divide_lt,
};
use crate::fixed::{fp_unscale, fp_unscale_exec, FP_ONE};
use crate::source::SampleSource;
use crate::table::{InvalidConfiguration, WaveTable};

verus! {

/// Largest phase increment an oscillator ever holds. `set_frequency`
/// divides by at least `1000`, so its result stays under this bound, and
/// a phase advance can never overflow the cursor.
pub const MAX_PHASE_INCREMENT: u64 = u64::MAX / 1000;

/// Linear interpolation into table `t` at the fixed-point cursor `phase`:
/// with `i = phase / FP_ONE`, `frac = phase % FP_ONE` and
/// `j = (i + 1) % t.len()`, the value is
/// `(t[i] * (FP_ONE - frac) + t[j] * frac) / FP_ONE`.
pub open spec fn lerp_at(t: Seq<i64>, phase: int) -> int {
    let i = phase / (FP_ONE as int);
    let frac = phase % (FP_ONE as int);
    let j = (i + 1) % (t.len() as int);
    fp_unscale(t[i] * ((FP_ONE as int) - frac) + t[j] * frac)
}

/// Convexity of linear interpolation: for any cursor inside the table's
/// phase span, the interpolated value lies between the two table points
/// it reads, inclusive.
pub proof fn lemma_lerp_convex(t: Seq<i64>, phase: int)
    requires
        2 <= t.len(),
        0 <= phase < t.len() * (FP_ONE as int),
    ensures
        ({
            let i = phase / (FP_ONE as int);
            let j = (i + 1) % (t.len() as int);
            let lo = if t[i] <= t[j] { t[i] as int } else { t[j] as int };
            let hi = if t[i] <= t[j] { t[j] as int } else { t[i] as int };
            lo <= lerp_at(t, phase) <= hi
        }),
{
    let fp = FP_ONE as int;
    let len = t.len() as int;
    let i = phase / fp;
    let frac = phase % fp;
    let j = (i + 1) % len;
    lemma_mod_division_less_than_divisor(phase, fp);
    lemma_mod_division_less_than_divisor(i + 1, len);
    lemma_multiply_divide_lt(phase, fp, len);
    let a = t[i] as int;
    let b = t[j] as int;
    let lo = if a <= b { a } else { b };
    let hi = if a <= b { b } else { a };
    let num = a * (fp - frac) + b * frac;
    assert(lo * fp <= num <= hi * fp) by (nonlinear_arith)
        requires
            0 <= frac < fp,
            lo <= a <= hi,
            lo <= b <= hi,
            num == a * (fp - frac) + b * frac,
    ;
    if num >= 0 {
        assert(lerp_at(t, phase) == num / fp);
        if lo >= 0 {
            assert(lo == (fp * lo) / fp) by {
                vstd::arithmetic::div_mod::lemma_div_multiples_vanish(lo, fp);
            }
            assert((fp * lo) / fp <= num / fp) by {
                lemma_div_is_ordered(fp * lo, num, fp);
            }
        } else {
            assert(num / fp >= 0) by {
                vstd::arithmetic::div_mod::lemma_div_pos_is_pos(num, fp);
            }
        }
        assert(hi == (fp * hi) / fp) by {
            vstd::arithmetic::div_mod::lemma_div_multiples_vanish(hi, fp);
        }
        assert(num / fp <= (fp * hi) / fp) by {
            lemma_div_is_ordered(num, fp * hi, fp);
        }
    } else {
        assert(lerp_at(t, phase) == -((-num) / fp));
        assert(lo < 0);
        assert((-num) <= fp * (-lo));
        assert((-num) / fp <= (fp * (-lo)) / fp) by {
            lemma_div_is_ordered(-num, fp * (-lo), fp);
        }
        assert((fp * (-lo)) / fp == -lo) by {
            vstd::arithmetic::div_mod::lemma_div_multiples_vanish(-lo, fp);
        }
        assert((-num) / fp >= 0) by {
            vstd::arithmetic::div_mod::lemma_div_pos_is_pos(-num, fp);
        }
        assert(-((-num) / fp) <= 0 <= hi || -((-num) / fp) <= hi);
        if hi < 0 {
            assert(fp * (-hi) <= -num);
            assert((fp * (-hi)) / fp <= (-num) / fp) by {
                lemma_div_is_ordered(fp * (-hi), -num, fp);
            }
            assert((fp * (-hi)) / fp == -hi) by {
                vstd::arithmetic::div_mod::lemma_div_multiples_vanish(-hi, fp);
            }
        }
    }
}

/// The phase cursor after `k` samples have been pulled, starting from
/// cursor `p` with per-sample increment `inc` over a span of `span`
/// fixed-point phase units: each pull adds `inc` and wraps modulo `span`,
/// exactly as `get_sample` does.
pub open spec fn phase_after(p: int, inc: int, span: int, k: nat) -> int
    decreases k,
{
    if k == 0 {
        p
    } else {
        (phase_after(p, inc, span, (k - 1) as nat) + inc) % span
    }
}

/// Phase wraparound: after any number of pulls the cursor equals
/// `(p + k * inc) % span`, and in particular stays in `[0, span)` —
/// whether the increment is smaller or larger than the span.
pub proof fn lemma_phase_after_closed_form(p: int, inc: int, span: int, k: nat)
    requires
        0 < span,
        0 <= p < span,
        0 <= inc,
    ensures
        phase_after(p, inc, span, k) == (p + k * inc) % span,
        0 <= phase_after(p, inc, span, k) < span,
    decreases k,
{
    if k == 0 {
        vstd::arithmetic::div_mod::lemma_small_mod(p as nat, span as nat);
    } else {
        let km1 = (k - 1) as nat;
        lemma_phase_after_closed_form(p, inc, span, km1);
        vstd::arithmetic::div_mod::lemma_add_mod_noop_right(inc, p + km1 * inc, span);
        assert(km1 * inc + inc == k * inc) by (nonlinear_arith)
            requires
                km1 == k - 1,
        ;
        lemma_mod_division_less_than_divisor(p + k * inc, span);
    }
}

/// Cycle return: whenever `k` increments add up to a whole number of
/// spans, the cursor is back where it started after `k` pulls.
pub proof fn lemma_phase_cycle(p: int, inc: int, span: int, k: nat)
    requires
        0 < span,
        0 <= p < span,
        0 <= inc,
        (k * inc) % span == 0,
    ensures
        phase_after(p, inc, span, k) == p,
{
    lemma_phase_after_closed_form(p, inc, span, k);
    let m = (k * inc) / span;
    vstd::arithmetic::div_mod::lemma_fundamental_div_mod(k * inc, span);
    vstd::arithmetic::div_mod::lemma_mod_multiples_vanish(m, p, span);
    vstd::arithmetic::div_mod::lemma_small_mod(p as nat, span as nat);
}

/// Frequency correctness, spelt out: with the increment that
/// `set_frequency` derives for a frequency of `f` millihertz over a
/// table of `n` points at `r` samples per second — and that division
/// exact — the cursor is back at its start after `k` samples whenever
/// `k * f == 1000 * r`, that is, after `sample_rate / frequency` samples:
/// one full cycle.
pub proof fn lemma_one_cycle_in_rate_over_frequency(p: int, f: int, n: int, r: int, k: int)
    requires
        1 <= f,
        2 <= n,
        1 <= r,
        0 <= p < n * (FP_ONE as int),
        (f * n * (FP_ONE as int)) % (1000 * r) == 0,
        k * f == 1000 * r,
    ensures
        phase_after(p, (f * n * (FP_ONE as int)) / (1000 * r), n * (FP_ONE as int), k as nat) == p,
{
    let fp = FP_ONE as int;
    let d = 1000 * r;
    let num = f * n * fp;
    let inc = num / d;
    let span = n * fp;
    assert(0 < span) by (nonlinear_arith)
        requires
            2 <= n,
            0 < fp,
            span == n * fp,
    ;
    assert(0 <= num) by (nonlinear_arith)
        requires
            1 <= f,
            2 <= n,
            0 < fp,
            num == f * n * fp,
    ;
    vstd::arithmetic::div_mod::lemma_div_pos_is_pos(num, d);
    vstd::arithmetic::div_mod::lemma_fundamental_div_mod(num, d);
    assert(num == d * inc);
    assert(0 < k) by (nonlinear_arith)
        requires
            k * f == d,
            1 <= f,
            0 < d,
    ;
    assert(k * inc == span) by (nonlinear_arith)
        requires
            num == d * inc,
            k * f == d,
            num == f * n * fp,
            span == n * fp,
            0 < d,
            1 <= f,
    ;
    assert((k * inc) % span == 0) by {
        vstd::arithmetic::div_mod::lemma_mod_self_0(span);
    }
    assert(k as nat * inc == k * inc);
    lemma_phase_cycle(p, inc, span, k as nat);
}

/// The oscillator: a sample rate, a shared waveform table, a fixed-point
/// phase cursor in `[0, len * FP_ONE)`, and the per-sample increment the
/// last `set_frequency` call derived.
pub struct WaveTableOscillator {
    sample_rate: u32,
    wave_table: WaveTable,
    phase: u64,
    phase_increment: u64,
}

impl WaveTableOscillator {
    /// The configured sample rate, in samples per second.
    pub closed spec fn rate_spec(&self) -> u32 {
        self.sample_rate
    }

    /// The waveform table's samples.
    pub closed spec fn table_spec(&self) -> Seq<i64> {
        self.wave_table@
    }

    /// The waveform table itself, as a value.
    pub closed spec fn wave_table_spec(&self) -> WaveTable {
        self.wave_table
    }

    /// The phase cursor, scaled by `FP_ONE`.
    pub closed spec fn phase_spec(&self) -> u64 {
        self.phase
    }

    /// The per-sample phase step, scaled by `FP_ONE`.
    pub closed spec fn increment_spec(&self) -> u64 {
        self.phase_increment
    }

    /// The phase span: one table cycle in fixed-point phase units.
    pub open spec fn span(&self) -> int {
        self.table_spec().len() * (FP_ONE as int)
    }

    /// The oscillator invariant: a well-formed table, a positive sample
    /// rate, the cursor wrapped inside one cycle, and a bounded increment.
    pub open spec fn wf(&self) -> bool {
        &&& WaveTable::acceptable(self.table_spec())
        &&& self.rate_spec() >= 1
        &&& (self.phase_spec() as int) < self.span()
        &&& self.increment_spec() <= MAX_PHASE_INCREMENT
    }

    /// The sample the next `get_sample` call returns.
    pub open spec fn lerp_spec(&self) -> int {
        lerp_at(self.table_spec(), self.phase_spec() as int)
    }

    /// Builds a silent oscillator over `wave_table`: phase and increment
    /// start at zero. Rejects a zero sample rate.
    pub fn new(sample_rate: u32, wave_table: WaveTable) -> (r: Result<
        WaveTableOscillator,
        InvalidConfiguration,
    >)
        requires
            wave_table.wf(),
        ensures
            r is Ok <==> sample_rate >= 1,
            r matches Ok(o) ==> {
                &&& o.wf()
                &&& o.rate_spec() == sample_rate
                &&& o.table_spec() == wave_table@
                &&& o.phase_spec() == 0
                &&& o.increment_spec() == 0
            },
    {
        if sample_rate == 0 {
            return Err(InvalidConfiguration);
        }
        Ok(WaveTableOscillator { sample_rate, wave_table, phase: 0, phase_increment: 0 })
    }

    /// Derives the phase increment `frequency * len / sample_rate` from a
    /// frequency in millihertz, leaving the phase cursor untouched so a
    /// frequency change mid-stream is phase-continuous. Rejects a negative
    /// frequency. Frequencies at or above Nyquist are accepted; they alias.
    pub fn set_frequency(&mut self, frequency_mhz: i64) -> (r: Result<(), InvalidConfiguration>)
        requires
            old(self).wf(),
            frequency_mhz * old(self).table_spec().len() * (FP_ONE as int) <= u64::MAX,
        ensures
            final(self).wf(),
            r is Ok <==> frequency_mhz >= 0,
            r is Ok ==> final(self).increment_spec() == (frequency_mhz * old(self).table_spec().len()
                * (FP_ONE as int)) / (1000 * old(self).rate_spec()),
            r is Err ==> final(self).increment_spec() == old(self).increment_spec(),
            final(self).rate_spec() == old(self).rate_spec(),
            final(self).table_spec() == old(self).table_spec(),
            final(self).phase_spec() == old(self).phase_spec(),
    {
        if frequency_mhz < 0 {
            return Err(InvalidConfiguration);
        }
        let f: u64 = frequency_mhz as u64;
        let len: u64 = self.wave_table.len() as u64;
        proof {
            assert(f * len <= f * len * (FP_ONE as int)) by (nonlinear_arith)
                requires
                    f >= 0,
                    len >= 2,
            ;
        }
        let num: u64 = f * len * (FP_ONE as u64);
        let den: u64 = 1000u64 * (self.sample_rate as u64);
        let inc: u64 = num / den;
        proof {
            lemma_div_is_ordered_by_denominator(num as int, 1000, den as int);
            lemma_div_is_ordered(num as int, u64::MAX as int, 1000);
        }
        self.phase_increment = inc;
        Ok(())
    }

    /// Returns the interpolated sample at the current phase, then advances
    /// the phase by the increment and wraps it modulo the phase span.
    pub fn get_sample(&mut self) -> (s: i64)
        requires
            old(self).wf(),
        ensures
            final(self).wf(),
            s == old(self).lerp_spec(),
            -FP_ONE <= s <= FP_ONE,
            (final(self).phase_spec() as int) == ((old(self).phase_spec()
                + old(self).increment_spec()) as int) % old(self).span(),
            final(self).rate_spec() == old(self).rate_spec(),
            final(self).table_spec() == old(self).table_spec(),
            final(self).wave_table_spec() == old(self).wave_table_spec(),
            final(self).increment_spec() == old(self).increment_spec(),
    {
        let sample = self.lerp();
        let len: u64 = self.wave_table.len() as u64;
        let span: u64 = len * (FP_ONE as u64);
        self.phase = (self.phase + self.phase_increment) % span;
        proof {
            lemma_mod_division_less_than_divisor(
                (old(self).phase_spec() + old(self).increment_spec()) as int,
                span as int,
            );
        }
        sample
    }

    /// Linear interpolation at the current phase, without advancing it.
    pub fn lerp(&self) -> (s: i64)
        requires
            self.wf(),
        ensures
            s == self.lerp_spec(),
            -FP_ONE <= s <= FP_ONE,
    {
        let fp: u64 = FP_ONE as u64;
        proof {
            lemma_multiply_divide_lt(
                self.phase_spec() as int,
                FP_ONE as int,
                self.table_spec().len() as int,
            );
            lemma_mod_division_less_than_divisor(self.phase_spec() as int, FP_ONE as int);
        }
        let truncated_index: usize = (self.phase / fp) as usize;
        let frac_u: u64 = self.phase % fp;
        let len: usize = self.wave_table.len();
        let next_index: usize = (truncated_index + 1) % len;
        proof {
            lemma_mod_division_less_than_divisor(truncated_index + 1, len as int);
        }
        let a: i64 = self.wave_table.sample_at(truncated_index);
        let b: i64 = self.wave_table.sample_at(next_index);
        let frac: i64 = frac_u as i64;
        proof {
            assert(-(0x2_0000_0000 as int) <= a * (FP_ONE - frac) <= 0x2_0000_0000) by (
            nonlinear_arith)
                requires
                    -FP_ONE <= a <= FP_ONE,
                    0 <= frac < FP_ONE,
            ;
            assert(-(0x2_0000_0000 as int) <= b * frac <= 0x2_0000_0000) by (nonlinear_arith)
                requires
                    -FP_ONE <= b <= FP_ONE,
                    0 <= frac < FP_ONE,
            ;
        }
        let num: i64 = a * (FP_ONE - frac) + b * frac;
        let s = fp_unscale_exec(num);
        proof {
            lemma_lerp_convex(self.table_spec(), self.phase_spec() as int);
        }
        s
    }

    /// The current phase cursor, scaled by `FP_ONE`.
    pub fn phase(&self) -> (p: u64)
        ensures
            p == self.phase_spec(),
    {
        self.phase
    }

    /// The current per-sample phase step, scaled by `FP_ONE`.
    pub fn phase_increment(&self) -> (i: u64)
        ensures
            i == self.increment_spec(),
    {
        self.phase_increment
    }
}

impl SampleSource for WaveTableOscillator {
    open spec fn inv(&self) -> bool {
        self.wf()
    }

    open spec fn sample_of(&self) -> i64 {
        self.lerp_spec() as i64
    }

    closed spec fn stepped(&self) -> Self {
        WaveTableOscillator {
            phase: (((self.phase + self.phase_increment) as int) % self.span()) as u64,
            ..*self
        }
    }

    open spec fn rate_of(&self) -> u32 {
        self.rate_spec()
    }

    open spec fn channels_of(&self) -> u16 {
        2
    }

    /// One pull of the oscillator is one `get_sample` call: the stream an
    /// oscillator produces repeats its table every `span / increment`
    /// samples and never ends on its own.
    fn next_sample(&mut self) -> (s: i64) {
        let s = self.get_sample();
        proof {
            assert(*self == old(self).stepped());
        }
        s
    }

    fn sample_rate(&self) -> (r: u32) {
        self.sample_rate
    }

    /// The oscillator emits the same mono cycle on both channels of a
    /// stereo sink.
    fn channels(&self) -> (c: u16) {
        2
    }
}

/// How one pull steps the oscillator's state: the phase advances by the
/// increment and wraps modulo the span; table, rate and increment stay.
pub proof fn lemma_oscillator_stepped(o: WaveTableOscillator)
    requires
        o.wf(),
    ensures
        (o.stepped().phase_spec() as int) == ((o.phase_spec() + o.increment_spec()) as int)
            % o.span(),
        o.stepped().table_spec() == o.table_spec(),
        o.stepped().rate_spec() == o.rate_spec(),
        o.stepped().increment_spec() == o.increment_spec(),
{
    lemma_mod_division_less_than_divisor((o.phase_spec() + o.increment_spec()) as int, o.span());
}

} // verus!
