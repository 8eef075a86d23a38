use wavetable_synth::ConstantSource;
use wavetable_synth::FP_ONE;
use wavetable_synth::FadeOut;
use wavetable_synth::SampleSource;
use wavetable_synth::WaveTable;
use wavetable_synth::WaveTableOscillator;

fn constant_one(rate: u32) -> ConstantSource {
    ConstantSource::new(FP_ONE, rate).unwrap()
}

#[test]
fn constant_source_emits_its_value() {
    let mut c = ConstantSource::new(12345, 100).unwrap();
    assert_eq!(c.next_sample(), 12345);
    assert_eq!(c.next_sample(), 12345);
    assert_eq!(c.sample_rate(), 100);
    assert_eq!(c.channels(), 2);
}

#[test]
fn constant_source_rejects_bad_configuration() {
    assert!(ConstantSource::new(0, 0).is_err());
    assert!(ConstantSource::new(FP_ONE + 1, 100).is_err());
    assert!(ConstantSource::new(-FP_ONE - 1, 100).is_err());
}

#[test]
fn fade_out_over_constant_one_shows_the_gains() {
    // sample_rate = 100, duration = 1.0 s around a constant-1.0 stream:
    // the output is the gain itself. Index 0 is full scale, index 50 is
    // exactly half, index 99 is about 0.01, and the stream is exhausted
    // at index 100.
    let mut f = FadeOut::new(constant_one(100), 1000).unwrap();
    assert_eq!(f.sample_rate(), 100);
    assert_eq!(f.channels(), 2);
    let mut samples = Vec::new();
    while let Some(v) = f.next() {
        samples.push(v);
    }
    assert_eq!(samples.len(), 100);
    assert_eq!(samples[0], FP_ONE);
    assert_eq!(samples[50], FP_ONE / 2);
    assert_eq!(samples[99], 656); // about 0.01 in fixed point
    assert_eq!(f.elapsed_samples(), 100);
    assert_eq!(f.next(), None);
}

#[test]
fn gains_are_nonincreasing_and_stream_ends_on_time() {
    // A duration whose scaled value does not divide evenly: the gain
    // sequence still never rises, stays in (0, FP_ONE], and the stream
    // ends exactly when elapsed_time reaches the duration.
    let mut f = FadeOut::new(constant_one(100), 997).unwrap();
    let mut previous = FP_ONE;
    let mut count = 0u64;
    while let Some(v) = f.next() {
        assert!(v <= previous, "gain rose from {} to {}", previous, v);
        assert!(0 < v && v <= FP_ONE);
        previous = v;
        count += 1;
    }
    // exhausted once elapsed * 1000 >= 997 * 100
    assert_eq!(count, 100);
    assert_eq!(f.next(), None);
}

#[test]
fn midpoint_gain_is_exactly_half() {
    // sample_rate = 48, duration = 500 ms: at elapsed_time = duration/2
    // (12 samples emitted) the gain is exactly FP_ONE / 2.
    let mut f = FadeOut::new(constant_one(48), 500).unwrap();
    let mut at_midpoint = None;
    while let Some(v) = f.next() {
        if f.elapsed_samples() == 13 {
            // this sample was emitted with 12 samples elapsed
            at_midpoint = Some(v);
        }
    }
    assert_eq!(at_midpoint, Some(FP_ONE / 2));
}

#[test]
fn zero_duration_is_immediately_exhausted() {
    let mut f = FadeOut::new(constant_one(100), 0).unwrap();
    assert_eq!(f.next(), None);
    assert_eq!(f.elapsed_samples(), 0);
}

#[test]
fn new_rejects_zero_rate_and_overlong_duration() {
    let silent = ConstantSource::new(0, 44100).unwrap();
    assert!(FadeOut::new(silent, u64::MAX).is_err());
    let silent = ConstantSource::new(0, 44100).unwrap();
    assert!(FadeOut::new(silent, 600).is_ok());
}

#[test]
fn fade_out_wraps_an_oscillator() {
    // A 1 Hz quarter-phase sine at 4 samples/s, faded out over one
    // second: four samples, each the table value scaled by the falling
    // gain, then the end of the stream.
    let t = WaveTable::new(vec![0, FP_ONE, 0, -FP_ONE]).unwrap();
    let mut o = WaveTableOscillator::new(4, t).unwrap();
    o.set_frequency(1000).unwrap();
    let mut f = FadeOut::new(o, 1000).unwrap();
    assert_eq!(f.sample_rate(), 4);
    assert_eq!(f.next(), Some(0)); // gain 1.0, sample 0
    assert_eq!(f.next(), Some(49152)); // gain 0.75, sample FP_ONE
    assert_eq!(f.next(), Some(0)); // gain 0.5, sample 0
    assert_eq!(f.next(), Some(-16384)); // gain 0.25, sample -FP_ONE
    assert_eq!(f.next(), None);
    assert_eq!(f.duration_ms(), 1000);
}
