use std::f32::consts::PI;

use imbe::bands::edges;
use imbe::descramble::Bootstrap;
use imbe::params::BaseParams;

#[test]
fn test_edges() {
    let chunks = [
        0b001000010010,
        0b110011001100,
        0b111000111000,
        0b111111111111,
        0b10100110101,
        0b00101111010,
        0b01110111011,
        0b00001000,
    ];

    let b = Bootstrap::new(&chunks);
    let p = BaseParams::new(b.unwrap_period());

    let fundamental = PI * p.fund_num as f32 / p.fund_den as f32;
    assert!((fundamental - 0.17575344).abs() < 0.000001);

    let (lower, upper) = edges(1, &p);
    assert_eq!(lower, 4);
    assert_eq!(upper, 11);

    let (lower, upper) = edges(2, &p);
    assert_eq!(lower, 11);
    assert_eq!(upper, 18);

    let (lower, upper) = edges(5, &p);
    assert_eq!(lower, 33);
    assert_eq!(upper, 40);

    let (lower, upper) = edges(8, &p);
    assert_eq!(lower, 54);
    assert_eq!(upper, 61);

    let (lower, upper) = edges(16, &p);
    assert_eq!(lower, 111);
    assert_eq!(upper, 119);
}

#[test]
fn test_edges_tile() {
    // Consecutive noise bands share exactly one boundary, and for every valid
    // period the first lower edge is at least 2 and the last upper edge at
    // most 125.
    for period in 0..=207u8 {
        let p = BaseParams::new(period);
        let mut prev_upper = 0;
        for l in 1..=p.harmonics as usize {
            let (lower, upper) = edges(l, &p);
            assert!(lower <= upper);
            if l > 1 {
                assert_eq!(lower, prev_upper);
            } else {
                assert!(lower >= 2);
            }
            prev_upper = upper;
        }
        assert!(prev_upper <= 125);
    }
}
