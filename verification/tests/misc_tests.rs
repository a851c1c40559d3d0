use imbe::allocs::{amps_used, BitAlloc};
use imbe::consts::SAMPLES_PER_FRAME;
use imbe::decoder::{frame_path, CAIFrame, FramePath};
use imbe::descramble::Bootstrap;
use imbe::errors::{error_total, golay_errors, hamming_errors};
use imbe::frame::{chunks_are_valid, ReceivedFrame};
use imbe::params::BaseParams;

#[test]
fn verify_amps() {
    // Verify the constraints on J_i.
    for l in 9..=56u32 {
        let amps = amps_used(l);

        let sum = amps.iter().fold(0, |sum, &x| sum + x + 1);
        assert_eq!(sum, l);

        assert!(l / 6 <= amps[0] + 1);

        for i in 0..=4 {
            assert!(amps[i] <= amps[i + 1]);
        }

        assert!(amps[5] + 1 <= (l as f32 / 6.0).ceil() as u32);
    }
}

#[test]
fn decode_verify_threads() {
    // Verify samples are split cleanly over threads.
    let threads: usize = 4;
    assert!(SAMPLES_PER_FRAME % threads == 0);
}

#[test]
fn decoder_verify_threads() {
    let threads: usize = 4;
    assert!(SAMPLES_PER_FRAME % threads == 0);
}

#[test]
fn enhance_test_errors() {
    let errors = [1, 2, 3, 4, 5, 6, 7];
    assert_eq!(error_total(&errors), 28);
    assert_eq!(golay_errors(&errors), 1);
    assert_eq!(hamming_errors(&errors), 5);
}

#[test]
fn errors_test_errors() {
    let errors = [1, 2, 3, 4, 5, 6, 7];
    assert_eq!(error_total(&errors), 28);
    assert_eq!(golay_errors(&errors), 1);
    assert_eq!(hamming_errors(&errors), 5);
}

/// Chunks whose period field decodes to the given value.
fn chunks_with_period(p: u8) -> [u32; 8] {
    [((p as u32) / 4) << 6, 0, 0, 0, 0, 0, 0, ((p as u32) % 4) << 1]
}

#[test]
fn test_error_totals_for_repeat_frame() {
    // The error pattern that trips the repeat rule: epsilon_T = 12 with
    // epsilon_0 = 2 from the first Golay chunk.
    let errors = [2, 0, 0, 0, 10, 0, 0];
    assert_eq!(error_total(&errors), 12);
    assert_eq!(golay_errors(&errors), 2);
    assert_eq!(hamming_errors(&errors), 10);
}

#[test]
fn test_bootstrap_classification() {
    for p in 0..=255u16 {
        let chunks = chunks_with_period(p as u8);
        let b = Bootstrap::new(&chunks);
        if p <= 207 {
            assert_eq!(b, Bootstrap::Period(p as u8));
        } else if (216..=219).contains(&p) {
            assert_eq!(b, Bootstrap::Silence);
        } else {
            assert_eq!(b, Bootstrap::Invalid);
        }
    }
}

#[test]
fn test_frame_path() {
    // An invalid bootstrap repeats, a silence bootstrap mutes, both before the
    // error metrics are consulted.
    assert_eq!(frame_path(Bootstrap::Invalid, false, false), FramePath::Repeat);
    assert_eq!(frame_path(Bootstrap::Invalid, false, true), FramePath::Repeat);
    assert_eq!(frame_path(Bootstrap::Silence, true, false), FramePath::Silence);
    // The repeat condition wins over the mute condition.
    assert_eq!(frame_path(Bootstrap::Period(32), true, true), FramePath::Repeat);
    assert_eq!(frame_path(Bootstrap::Period(32), false, true), FramePath::Silence);
    assert_eq!(frame_path(Bootstrap::Period(32), false, false), FramePath::Voice(32));
}

#[test]
fn test_chunk_validity() {
    let good = [0xFFF, 0xFFF, 0xFFF, 0xFFF, 0x7FF, 0x7FF, 0x7FF, 0x7F];
    assert!(chunks_are_valid(&good));
    let frame = ReceivedFrame::new(good, [0; 7]);
    assert_eq!(frame.chunks, good);

    for i in 0..8 {
        let mut bad = good;
        bad[i] = bad[i] + 1;
        assert!(!chunks_are_valid(&bad));
    }
}

#[test]
fn test_cai_frame() {
    let chunks = [1, 2, 3, 4, 5, 6, 7, 8];
    let errors = [1, 0, 2, 0, 3, 0, 4];
    let frame = CAIFrame::new(chunks, errors);
    assert_eq!(frame.get_chunks(), chunks);
    assert_eq!(frame.get_errors(), errors);
}

#[test]
fn test_alloc_rejects_bad_rows() {
    let p = BaseParams::new(32);
    assert_eq!(p.harmonics, 16);
    assert_eq!(p.bands, 6);

    // The row must hold L - 1 widths summing to 73 - K, each at most `max`.
    let good = vec![6, 6, 6, 5, 5, 6, 6, 5, 4, 4, 3, 3, 3, 3, 2];
    assert!(BitAlloc::new(good.clone(), 6, &p).is_some());

    let mut off_sum = good.clone();
    off_sum[0] = 7;
    assert!(BitAlloc::new(off_sum, 7, &p).is_none());

    let short = good[1..].to_vec();
    assert!(BitAlloc::new(short, 6, &p).is_none());

    assert!(BitAlloc::new(good.clone(), 5, &p).is_none());

    assert!(BitAlloc::new(vec![11, 6, 6, 5, 5, 6, 6, 5, 4, 4, 3, 3, 3, 3, 2], 11, &p).is_none());
}
