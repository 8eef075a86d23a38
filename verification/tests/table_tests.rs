use wavetable_synth::table::MAX_TABLE_LEN;
use wavetable_synth::FP_ONE;
use wavetable_synth::InvalidConfiguration;
use wavetable_synth::WaveTable;
use wavetable_synth::square;

#[test]
fn square_four_follows_midpoint_rule() {
    // The half-split rule: index n gets FP_ONE only when n > size / 2,
    // so the midpoint index itself still gets -FP_ONE.
    let t = square(4);
    assert_eq!(t, vec![-FP_ONE, -FP_ONE, -FP_ONE, FP_ONE]);
}

#[test]
fn square_five_follows_midpoint_rule() {
    let t = square(5);
    assert_eq!(t, vec![-FP_ONE, -FP_ONE, -FP_ONE, FP_ONE, FP_ONE]);
}

#[test]
fn square_sixty_four_splits_at_midpoint() {
    let t = square(64);
    assert_eq!(t.len(), 64);
    for (n, s) in t.iter().enumerate() {
        if n > 32 {
            assert_eq!(*s, FP_ONE, "index {}", n);
        } else {
            assert_eq!(*s, -FP_ONE, "index {}", n);
        }
    }
}

#[test]
fn square_table_is_accepted() {
    let t = WaveTable::new(square(64)).unwrap();
    assert_eq!(t.len(), 64);
    assert_eq!(t.sample_at(0), -FP_ONE);
    assert_eq!(t.sample_at(63), FP_ONE);
}

#[test]
fn wave_table_rejects_short_tables() {
    assert_eq!(WaveTable::new(vec![]).unwrap_err(), InvalidConfiguration);
    assert_eq!(WaveTable::new(vec![0]).unwrap_err(), InvalidConfiguration);
    assert!(WaveTable::new(vec![0, 0]).is_ok());
}

#[test]
fn wave_table_rejects_out_of_scale_amplitudes() {
    assert_eq!(
        WaveTable::new(vec![0, FP_ONE + 1]).unwrap_err(),
        InvalidConfiguration
    );
    assert_eq!(
        WaveTable::new(vec![-FP_ONE - 1, 0]).unwrap_err(),
        InvalidConfiguration
    );
    assert!(WaveTable::new(vec![-FP_ONE, FP_ONE]).is_ok());
}

#[test]
fn wave_table_rejects_overlong_tables() {
    assert!(WaveTable::new(vec![0; MAX_TABLE_LEN]).is_ok());
    assert_eq!(
        WaveTable::new(vec![0; MAX_TABLE_LEN + 1]).unwrap_err(),
        InvalidConfiguration
    );
}

#[test]
fn sine_quarter_points_land_on_exact_table() {
    // One cycle of sin sampled at four quarter-phase points, scaled to
    // fixed point, is the exact table [0, FP_ONE, 0, -FP_ONE] up to a
    // rounding error of at most one unit.
    let expected = [0i64, FP_ONE, 0, -FP_ONE];
    for (k, e) in expected.iter().enumerate() {
        let x = (2.0_f32 * std::f32::consts::PI * k as f32 / 4.0).sin();
        let fixed = (x * FP_ONE as f32) as i64;
        assert!((fixed - e).abs() <= 1, "index {}: {} vs {}", k, fixed, e);
    }
}
