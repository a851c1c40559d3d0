use std::f32::consts::PI;

use imbe::consts::{SAMPLES_PER_FRAME, SAMPLE_RATE};
use imbe::params::BaseParams;

/// Fundamental frequency as the sample-synthesis stage derives it from the
/// exact rational the library carries.
fn fundamental(p: &BaseParams) -> f32 {
    PI * p.fund_num as f32 / p.fund_den as f32
}

#[test]
fn test_params() {
    let p = BaseParams::new(207);

    assert!((fundamental(&p) - 0.050979191).abs() < 0.00000001);
    assert_eq!(p.harmonics, 56);
    assert_eq!(p.bands, 12);

    let p = BaseParams::new(0);

    assert!((fundamental(&p) - 0.318135965).abs() < 0.00000001);
    assert_eq!(p.harmonics, 9);
    assert_eq!(p.bands, 3);

    let p = BaseParams::new(104);

    assert!((fundamental(&p) - 0.087570527).abs() < 0.00000001);
    assert_eq!(p.harmonics, 33);
    assert_eq!(p.bands, 11);
}

#[test]
fn test_duration() {
    // Verify it's 20ms.
    assert_eq!(SAMPLES_PER_FRAME * 1000 / SAMPLE_RATE, 20);
}

#[test]
fn test_param_ranges() {
    // For every valid period, L is in [9, 56], K is in [3, 12] with
    // K = min(ceil(L/3), 12), and the fundamental lies strictly inside (0, pi).
    for period in 0..=207u8 {
        let p = BaseParams::new(period);
        assert!(9 <= p.harmonics && p.harmonics <= 56);
        assert!(3 <= p.bands && p.bands <= 12);
        assert_eq!(p.bands, ((p.harmonics + 2) / 3).min(12));
        assert!(0 < p.fund_num && p.fund_num < p.fund_den);
        let f = fundamental(&p);
        assert!(0.0 < f && f < PI);
    }
}

#[test]
fn test_params_default() {
    let p = BaseParams::default();
    assert_eq!(p.harmonics, 30);
    assert_eq!(p.bands, 10);
    assert!((fundamental(&p) - 0.02985 * PI).abs() < 1e-7);
}
