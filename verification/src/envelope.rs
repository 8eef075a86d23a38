//! The fade-out envelope: a combinator that wraps any sample source,
//! attenuates its output with a gain falling linearly from full scale to
//! zero over a fixed duration, and ends the stream when the duration has
//! elapsed.

use vstd::prelude::*;
use vstd::arithmetic::div_mod::{
    lemma_div_is_ordered, lemma_div_multiples_vanish, lemma_div_pos_is_pos,
    lemma_fundamental_div_mod, lemma_fundamental_div_mod_converse_div, lemma_multiply_divide_lt,
};
use vstd::arithmetic::mul::lemma_mul_inequality;
use crate::fixed::{fp_unscale, fp_unscale_exec, FP_ONE};
use crate::source::SampleSource;
use crate::table::InvalidConfiguration;

verus! {

/// Largest accepted product of duration (milliseconds) and sample rate.
/// The cap keeps the elapsed-time and gain arithmetic inside `u64`.
pub const MAX_SCALED_DURATION: u64 = 0x100_0000_0000;

/// The gain emitted for the sample at elapsed count `elapsed`, against a
/// target of `scaled_duration` = duration (ms) x sample rate (Hz)
/// millisample units: full scale at zero, falling linearly to zero at the
/// duration. Meaningful while `elapsed * 1000 < scaled_duration`.
pub open spec fn gain_at(elapsed: int, scaled_duration: int) -> int {
    FP_ONE - (FP_ONE * elapsed * 1000) / scaled_duration
}

/// The envelope wrapper: an inner sample source, the target duration,
/// and how many samples have been emitted so far.
pub struct FadeOut<S: SampleSource> {
    inner: S,
    sample_rate: u32,
    duration_ms: u64,
    elapsed_samples: u64,
}

impl<S: SampleSource> FadeOut<S> {
    /// The wrapped source.
    pub closed spec fn inner_spec(&self) -> S {
        self.inner
    }

    /// The output sample rate: the inner source's.
    pub closed spec fn rate_spec(&self) -> u32 {
        self.sample_rate
    }

    /// The target duration, in milliseconds.
    pub closed spec fn duration_ms_spec(&self) -> u64 {
        self.duration_ms
    }

    /// How many samples have been emitted.
    pub closed spec fn elapsed_spec(&self) -> u64 {
        self.elapsed_samples
    }

    /// The target duration in millisample units: duration x sample rate.
    pub open spec fn scaled_duration(&self) -> int {
        self.duration_ms_spec() * self.rate_spec()
    }

    /// Whether the stream has ended: elapsed samples over the rate have
    /// reached the duration. The transition is one-way; `elapsed_spec`
    /// never decreases.
    pub open spec fn exhausted(&self) -> bool {
        self.elapsed_spec() * 1000 >= self.scaled_duration()
    }

    /// The gain the next emitted sample is scaled by.
    pub open spec fn gain_spec(&self) -> int {
        gain_at(self.elapsed_spec() as int, self.scaled_duration())
    }

    /// The wrapper invariant: a well-formed inner source whose rate the
    /// wrapper reports, and duration and elapsed count small enough for
    /// the gain arithmetic.
    pub open spec fn wf(&self) -> bool {
        &&& self.inner_spec().inv()
        &&& self.rate_spec() >= 1
        &&& self.rate_spec() == self.inner_spec().rate_of()
        &&& self.scaled_duration() <= MAX_SCALED_DURATION
        &&& self.elapsed_spec() * 1000 <= self.scaled_duration() + 1000
    }

    /// Wraps `inner` in a fade-out over `duration_ms` milliseconds. The
    /// wrapper starts with nothing emitted; a zero duration is already
    /// exhausted, not an error. Rejects a zero-rate inner source and a
    /// duration whose scaled value would overflow the gain arithmetic.
    pub fn new(inner: S, duration_ms: u64) -> (r: Result<FadeOut<S>, InvalidConfiguration>)
        requires
            inner.inv(),
        ensures
            r is Ok <==> (inner.rate_of() >= 1 && duration_ms * inner.rate_of()
                <= MAX_SCALED_DURATION),
            r matches Ok(f) ==> {
                &&& f.wf()
                &&& f.inner_spec() == inner
                &&& f.rate_spec() == inner.rate_of()
                &&& f.duration_ms_spec() == duration_ms
                &&& f.elapsed_spec() == 0
            },
    {
        let sample_rate = inner.sample_rate();
        if sample_rate == 0 {
            return Err(InvalidConfiguration);
        }
        let rate64: u64 = sample_rate as u64;
        if duration_ms > MAX_SCALED_DURATION / rate64 {
            proof {
                lemma_mul_div_bound(duration_ms as int, rate64 as int, MAX_SCALED_DURATION as int);
            }
            return Err(InvalidConfiguration);
        }
        proof {
            lemma_mul_div_bound(duration_ms as int, rate64 as int, MAX_SCALED_DURATION as int);
        }
        Ok(FadeOut { inner, sample_rate, duration_ms, elapsed_samples: 0 })
    }

    /// Pulls one enveloped sample. Before the duration has elapsed, the
    /// result is the inner source's next sample scaled by the current
    /// gain, and the elapsed count steps; at or past the duration the
    /// stream has ended and nothing changes.
    pub fn next(&mut self) -> (r: Option<i64>)
        requires
            old(self).wf(),
        ensures
            final(self).wf(),
            final(self).rate_spec() == old(self).rate_spec(),
            final(self).duration_ms_spec() == old(self).duration_ms_spec(),
            r is Some <==> !old(self).exhausted(),
            old(self).exhausted() ==> *final(self) == *old(self),
            !old(self).exhausted() ==> {
                &&& r matches Some(v) && v == fp_unscale(
                    old(self).gain_spec() * old(self).inner_spec().sample_of(),
                )
                &&& final(self).elapsed_spec() == old(self).elapsed_spec() + 1
                &&& final(self).inner_spec() == old(self).inner_spec().stepped()
                &&& 0 < old(self).gain_spec() <= FP_ONE
            },
    {
        let scaled: u64 = self.duration_ms * (self.sample_rate as u64);
        let elapsed_ms_rate: u64 = self.elapsed_samples * 1000;
        if elapsed_ms_rate >= scaled {
            return None;
        }
        proof {
            assert((FP_ONE as int) * (elapsed_ms_rate as int) <= (FP_ONE as int)
                * (MAX_SCALED_DURATION as int)) by (nonlinear_arith)
                requires
                    0 <= (elapsed_ms_rate as int) <= (MAX_SCALED_DURATION as int),
            ;
        }
        let num: u64 = (FP_ONE as u64) * elapsed_ms_rate;
        let fraction: u64 = num / scaled;
        proof {
            lemma_multiply_divide_lt(num as int, scaled as int, FP_ONE as int);
            lemma_div_pos_is_pos(num as int, scaled as int);
        }
        let gain: i64 = FP_ONE - (fraction as i64);
        let inner_sample: i64 = self.inner.next_sample();
        proof {
            assert(-(0x10_0000_0000 as int) <= gain * inner_sample <= 0x10_0000_0000) by (
            nonlinear_arith)
                requires
                    0 < gain <= FP_ONE,
                    -FP_ONE <= inner_sample <= FP_ONE,
            ;
        }
        let out: i64 = fp_unscale_exec(gain * inner_sample);
        self.elapsed_samples = self.elapsed_samples + 1;
        Some(out)
    }

    /// The reported sample rate: the inner source's, passed through
    /// unchanged — the wrapper attenuates, it does not resample.
    pub fn sample_rate(&self) -> (r: u32)
        ensures
            r == self.rate_spec(),
    {
        self.sample_rate
    }

    /// The reported channel count: the inner source's, passed through
    /// unchanged — the wrapper attenuates, it does not remix.
    pub fn channels(&self) -> (c: u16)
        requires
            self.wf(),
        ensures
            c == self.inner_spec().channels_of(),
    {
        self.inner.channels()
    }

    /// The number of samples emitted so far.
    pub fn elapsed_samples(&self) -> (e: u64)
        ensures
            e == self.elapsed_spec(),
    {
        self.elapsed_samples
    }

    /// The target duration, in milliseconds.
    pub fn duration_ms(&self) -> (d: u64)
        ensures
            d == self.duration_ms_spec(),
    {
        self.duration_ms
    }
}

/// `a <= m / b` and `a * b <= m` say the same thing for a positive `b`:
/// the check `new` runs is exactly the bound `wf` needs.
proof fn lemma_mul_div_bound(a: int, b: int, m: int)
    requires
        0 <= a,
        1 <= b,
        0 <= m,
    ensures
        a <= m / b <==> a * b <= m,
{
    if a <= m / b {
        lemma_mul_inequality(a, m / b, b);
        lemma_fundamental_div_mod(m, b);
        assert((m / b) * b <= m) by (nonlinear_arith)
            requires
                m == b * (m / b) + m % b,
                0 <= m % b,
        ;
    }
    if a * b <= m {
        lemma_div_is_ordered(a * b, m, b);
        assert(a * b == b * a);
        lemma_div_multiples_vanish(a, b);
    }
}

/// Envelope monotonicity over the wrapper itself: of two states of one
/// fade-out (same duration and rate), the one that has emitted more
/// samples emits the smaller or equal gain — the gain sequence a fixed
/// inner stream sees is non-increasing.
pub proof fn lemma_envelope_monotone<S: SampleSource>(f1: FadeOut<S>, f2: FadeOut<S>)
    requires
        f1.duration_ms_spec() == f2.duration_ms_spec(),
        f1.rate_spec() == f2.rate_spec(),
        !f1.exhausted(),
        f1.elapsed_spec() <= f2.elapsed_spec(),
    ensures
        f2.gain_spec() <= f1.gain_spec(),
{
    lemma_gain_nonincreasing(
        f1.elapsed_spec() as int,
        f2.elapsed_spec() as int,
        f1.scaled_duration(),
    );
}

/// A fade-out that has not reached its duration emits a positive gain of
/// at most full scale; `next` ends the stream exactly when the elapsed
/// time reaches the duration, not before.
pub proof fn lemma_envelope_gain_range<S: SampleSource>(f: FadeOut<S>)
    requires
        !f.exhausted(),
    ensures
        0 < f.gain_spec() <= FP_ONE,
{
    lemma_gain_range(f.elapsed_spec() as int, f.scaled_duration());
}

/// Envelope linearity at the midpoint, over the wrapper itself: a
/// fade-out whose elapsed time is exactly half its duration emits the
/// gain `FP_ONE / 2`.
pub proof fn lemma_envelope_midpoint<S: SampleSource>(f: FadeOut<S>)
    requires
        0 < f.scaled_duration(),
        2 * (f.elapsed_spec() * 1000) == f.scaled_duration(),
    ensures
        f.gain_spec() == FP_ONE / 2,
{
    lemma_gain_midpoint(f.elapsed_spec() as int, f.scaled_duration());
}

/// Envelope monotonicity: for one target duration, the gain emitted at a
/// later elapsed count never exceeds the gain emitted at an earlier one.
pub proof fn lemma_gain_nonincreasing(e1: int, e2: int, scaled_duration: int)
    requires
        0 <= e1 <= e2,
        0 < scaled_duration,
    ensures
        gain_at(e2, scaled_duration) <= gain_at(e1, scaled_duration),
{
    assert(FP_ONE * e1 * 1000 <= FP_ONE * e2 * 1000) by (nonlinear_arith)
        requires
            0 <= e1 <= e2,
    ;
    lemma_div_is_ordered(FP_ONE * e1 * 1000, FP_ONE * e2 * 1000, scaled_duration);
}

/// Before the duration has elapsed the gain is positive and at most full
/// scale; the stream ends, with gain gone, exactly when the elapsed time
/// reaches the duration — never before.
pub proof fn lemma_gain_range(e: int, scaled_duration: int)
    requires
        0 <= e,
        e * 1000 < scaled_duration,
    ensures
        0 < gain_at(e, scaled_duration) <= FP_ONE,
{
    assert(FP_ONE * e * 1000 < FP_ONE * scaled_duration) by (nonlinear_arith)
        requires
            0 <= e,
            e * 1000 < scaled_duration,
    ;
    assert(FP_ONE * e * 1000 >= 0) by (nonlinear_arith)
        requires
            0 <= e,
    ;
    lemma_multiply_divide_lt(FP_ONE * e * 1000, scaled_duration, FP_ONE as int);
    lemma_div_pos_is_pos(FP_ONE * e * 1000, scaled_duration);
}

/// Envelope linearity at the midpoint: when the elapsed time is exactly
/// half the duration, the gain is exactly half of full scale.
pub proof fn lemma_gain_midpoint(e: int, scaled_duration: int)
    requires
        0 < scaled_duration,
        2 * (e * 1000) == scaled_duration,
    ensures
        gain_at(e, scaled_duration) == FP_ONE / 2,
{
    let m = e * 1000;
    assert(FP_ONE * e * 1000 == (FP_ONE / 2) * (2 * m) + 0) by (nonlinear_arith)
        requires
            m == e * 1000,
    ;
    lemma_fundamental_div_mod_converse_div(FP_ONE * e * 1000, 2 * m, FP_ONE / 2, 0);
}

} // verus!
