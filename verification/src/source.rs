//! The sample-producing capability: a pull interface implemented by the
//! oscillator and by any combinator that hands samples on, so consumers
//! and further combinators need not know what stands behind it.

use vstd::prelude::*;
use crate::fixed::FP_ONE;
use crate::table::InvalidConfiguration;

verus! {

/// A pull-based producer of fixed-point amplitude samples at a fixed
/// sample rate and channel count. Each pull is a pure O(1) computation:
/// the next sample and the next state are functions of the current state
/// alone, which `sample_of` and `stepped` name.
pub trait SampleSource: Sized {
    /// The producer's invariant; every pull preserves it.
    spec fn inv(&self) -> bool;

    /// The sample the next pull returns.
    spec fn sample_of(&self) -> i64;

    /// The state after one pull.
    spec fn stepped(&self) -> Self;

    /// The sample rate, in samples per second.
    spec fn rate_of(&self) -> u32;

    /// The channel count of the produced stream.
    spec fn channels_of(&self) -> u16;

    /// Pulls one sample, within full scale, and steps the state.
    fn next_sample(&mut self) -> (s: i64)
        requires
            old(self).inv(),
        ensures
            final(self).inv(),
            s == old(self).sample_of(),
            -FP_ONE <= s <= FP_ONE,
            *final(self) == old(self).stepped(),
            final(self).rate_of() == old(self).rate_of(),
            final(self).channels_of() == old(self).channels_of(),
    ;

    /// The sample rate, in samples per second.
    fn sample_rate(&self) -> (r: u32)
        ensures
            r == self.rate_of(),
    ;

    /// The channel count of the produced stream.
    fn channels(&self) -> (c: u16)
        ensures
            c == self.channels_of(),
    ;
}

/// A source that emits the same amplitude forever: the simplest inner
/// stream to shape with an envelope, and the one whose enveloped output
/// shows the gains themselves.
pub struct ConstantSource {
    value: i64,
    sample_rate: u32,
}

impl ConstantSource {
    /// The constant amplitude emitted.
    pub closed spec fn value_spec(&self) -> i64 {
        self.value
    }

    /// The configured sample rate.
    pub closed spec fn rate_spec(&self) -> u32 {
        self.sample_rate
    }

    /// The invariant: a positive rate and a full-scale-bounded amplitude.
    pub open spec fn wf(&self) -> bool {
        &&& self.rate_spec() >= 1
        &&& -FP_ONE <= self.value_spec() <= FP_ONE
    }

    /// Builds a constant source. Rejects a zero sample rate and an
    /// amplitude outside `[-FP_ONE, FP_ONE]`.
    pub fn new(value: i64, sample_rate: u32) -> (r: Result<ConstantSource, InvalidConfiguration>)
        ensures
            r is Ok <==> (sample_rate >= 1 && -FP_ONE <= value <= FP_ONE),
            r matches Ok(c) ==> {
                &&& c.wf()
                &&& c.value_spec() == value
                &&& c.rate_spec() == sample_rate
            },
    {
        if sample_rate == 0 || value < -FP_ONE || value > FP_ONE {
            return Err(InvalidConfiguration);
        }
        Ok(ConstantSource { value, sample_rate })
    }
}

impl SampleSource for ConstantSource {
    open spec fn inv(&self) -> bool {
        self.wf()
    }

    open spec fn sample_of(&self) -> i64 {
        self.value_spec()
    }

    open spec fn stepped(&self) -> Self {
        *self
    }

    open spec fn rate_of(&self) -> u32 {
        self.rate_spec()
    }

    open spec fn channels_of(&self) -> u16 {
        2
    }

    fn next_sample(&mut self) -> (s: i64) {
        self.value
    }

    fn sample_rate(&self) -> (r: u32) {
        self.sample_rate
    }

    fn channels(&self) -> (c: u16) {
        2
    }
}

} // verus!
