use imbe::window::{synthesis_full, window_energy_fiftieths_squared};

/// The window value at n as the sample-synthesis stage derives it from the
/// fiftieths the library carries.
fn get(w: &imbe::window::Window, n: i32) -> f32 {
    w.get(n) as f32 / 50.0
}

#[test]
fn test_syn_full() {
    let w = synthesis_full();

    assert_eq!(get(&w, -200), 0.0);
    assert_eq!(get(&w, -106), 0.0);
    assert_eq!(get(&w, -105), 0.0);
    assert_eq!(get(&w, -104), 0.02);
    assert_eq!(get(&w, -68), 0.74);
    assert_eq!(get(&w, 0), 1.0);
    assert_eq!(get(&w, 77), 0.56);
    assert_eq!(get(&w, 104), 0.02);
    assert_eq!(get(&w, 105), 0.0);
    assert_eq!(get(&w, 106), 0.0);
    assert_eq!(get(&w, 200), 0.0);
}

#[test]
fn test_window_shape() {
    let w = synthesis_full();

    // Linear ramp in steps of 0.02 up to the plateau, symmetric on the way
    // down, zero outside the support.
    for n in 0..50i32 {
        assert_eq!(w.get(-105 + n), n as u8);
        assert_eq!(w.get(105 - n), n as u8);
    }
    for n in -55..=55i32 {
        assert_eq!(w.get(n), 50);
    }
    for n in 106..400i32 {
        assert_eq!(w.get(n), 0);
        assert_eq!(w.get(-n), 0);
    }
    // Symmetry over the whole line.
    for n in 0..=300i32 {
        assert_eq!(w.get(n), w.get(-n));
    }
}

#[test]
fn test_window_energy() {
    // Sum of squared window values: 358350 / 50^2 = 143.34.
    assert_eq!(window_energy_fiftieths_squared(), 358350);
    let e = window_energy_fiftieths_squared() as f32 / 2500.0;
    assert!((e - 143.34).abs() < 1e-4);
}
