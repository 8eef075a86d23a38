use wavetable_synth::FP_ONE;
use wavetable_synth::SampleSource;
use wavetable_synth::WaveTable;
use wavetable_synth::WaveTableOscillator;
use wavetable_synth::square;

fn quarter_sine_table() -> WaveTable {
    WaveTable::new(vec![0, FP_ONE, 0, -FP_ONE]).unwrap()
}

#[test]
fn new_starts_silent_and_rejects_zero_rate() {
    assert!(WaveTableOscillator::new(0, quarter_sine_table()).is_err());
    let o = WaveTableOscillator::new(44100, quarter_sine_table()).unwrap();
    assert_eq!(o.phase(), 0);
    assert_eq!(o.phase_increment(), 0);
    assert_eq!(o.sample_rate(), 44100);
    assert_eq!(o.channels(), 2);
}

#[test]
fn set_frequency_derives_increment() {
    // frequency * table_length / sample_rate: 1 Hz over 4 points at
    // 4 samples/s steps exactly one table index (FP_ONE) per sample.
    let mut o = WaveTableOscillator::new(4, quarter_sine_table()).unwrap();
    o.set_frequency(1000).unwrap();
    assert_eq!(o.phase_increment(), FP_ONE as u64);

    // A non-exact division truncates: 261.63 Hz over 64 points at
    // 44100 samples/s.
    let t = WaveTable::new(square(64_usize)).unwrap();
    let mut o64 = WaveTableOscillator::new(44100, t).unwrap();
    o64.set_frequency(261630).unwrap();
    let expected = (261630u128 * 64 * 65536 / (1000 * 44100)) as u64;
    assert_eq!(o64.phase_increment(), expected);

    // Setting a frequency does not move the phase cursor.
    o.set_frequency(2000).unwrap();
    assert_eq!(o.phase(), 0);
}

#[test]
fn set_frequency_rejects_negative() {
    let mut o = WaveTableOscillator::new(4, quarter_sine_table()).unwrap();
    assert!(o.set_frequency(-1).is_err());
    assert_eq!(o.phase_increment(), 0);
    assert!(o.set_frequency(0).is_ok());
    assert_eq!(o.phase_increment(), 0);
}

#[test]
fn quarter_sine_steps_through_exact_table_values() {
    // sample_rate = 4, frequency = 1 Hz: the increment is exactly one
    // index, so successive samples are the table values with zero
    // interpolation error, repeating forever.
    let mut o = WaveTableOscillator::new(4, quarter_sine_table()).unwrap();
    o.set_frequency(1000).unwrap();
    let expected = [0, FP_ONE, 0, -FP_ONE, 0, FP_ONE, 0, -FP_ONE];
    for (k, e) in expected.iter().enumerate() {
        assert_eq!(o.get_sample(), *e, "sample {}", k);
    }
    assert_eq!(o.phase(), 0);
}

#[test]
fn interpolation_stays_between_neighbouring_points() {
    // A two-point ramp table pulled with a fractional increment: each
    // sample is a convex blend of the two neighbouring table points.
    let t = WaveTable::new(vec![0, FP_ONE]).unwrap();
    let mut o = WaveTableOscillator::new(3, t).unwrap();
    o.set_frequency(1000).unwrap();
    assert_eq!(o.phase_increment(), 43690);
    assert_eq!(o.get_sample(), 0);
    assert_eq!(o.get_sample(), 43690);
    assert_eq!(o.get_sample(), 43692);
    for _ in 0..1000 {
        let s = o.get_sample();
        assert!(0 <= s && s <= FP_ONE);
    }
}

#[test]
fn phase_stays_wrapped_for_small_and_large_increments() {
    let span = 4 * FP_ONE as u64;

    // Increment smaller than the span.
    let mut o = WaveTableOscillator::new(44100, quarter_sine_table()).unwrap();
    o.set_frequency(440000).unwrap();
    assert!(o.phase_increment() < span);
    for _ in 0..10000 {
        o.get_sample();
        assert!(o.phase() < span);
    }

    // Increment larger than the span: 1 kHz at 1 sample/s.
    let mut o = WaveTableOscillator::new(1, quarter_sine_table()).unwrap();
    o.set_frequency(1_000_000).unwrap();
    assert!(o.phase_increment() > span);
    for _ in 0..10000 {
        o.get_sample();
        assert!(o.phase() < span);
    }
}

#[test]
fn oscillator_is_a_sample_source() {
    let mut o = WaveTableOscillator::new(4, quarter_sine_table()).unwrap();
    o.set_frequency(1000).unwrap();
    assert_eq!(SampleSource::sample_rate(&o), 4);
    assert_eq!(SampleSource::channels(&o), 2);
    assert_eq!(o.next_sample(), 0);
    assert_eq!(o.next_sample(), FP_ONE);
}
