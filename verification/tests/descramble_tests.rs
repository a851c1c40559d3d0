use imbe::allocs::BitAlloc;
use imbe::descramble::{descramble, Bootstrap, VoiceDecisions};
use imbe::params::BaseParams;

/// The bit-allocation row for L = 16 harmonics: widths of b3..b17.
fn alloc_16(params: &BaseParams) -> BitAlloc {
    BitAlloc::new(
        vec![6, 6, 6, 5, 5, 6, 6, 5, 4, 4, 3, 3, 3, 3, 2],
        6,
        params,
    )
    .unwrap()
}

/// The bit-allocation row for L = 10 harmonics: widths of b3..b11.
fn alloc_10(params: &BaseParams) -> BitAlloc {
    BitAlloc::new(vec![9, 9, 8, 8, 8, 9, 7, 6, 5], 9, params).unwrap()
}

#[test]
#[should_panic]
fn test_invalid_period() {
    let chunks = [
        0b111111000000,
        0,
        0,
        0,
        0,
        0,
        0,
        0b00000010,
    ];

    Bootstrap::new(&chunks).unwrap_period();
}

#[test]
fn test_descramble_16() {
    let chunks = [
        0b001000010010,
        0b110011001100,
        0b111000111000,
        0b111111111111,
        0b10100110101,
        0b00101111010,
        0b01110111011,
        0b00001000,
    ];

    let b = Bootstrap::new(&chunks);
    let p = BaseParams::new(b.unwrap_period());
    let alloc = alloc_16(&p);
    let (amps, voice, gain_idx) = descramble(&chunks, &p, &alloc);

    assert_eq!(p.harmonics, 16);
    assert_eq!(p.bands, 6);
    assert_eq!(gain_idx, 0b010101);

    assert_eq!(amps.get(3), 0b000110);
    assert_eq!(amps.get(4), 0b100010);
    assert_eq!(amps.get(5), 0b011011);
    assert_eq!(amps.get(6), 0b11001);
    assert_eq!(amps.get(7), 0b01111);
    assert_eq!(amps.get(8), 0b100100);
    assert_eq!(amps.get(9), 0b110101);
    assert_eq!(amps.get(10), 0b10111);
    assert_eq!(amps.get(11), 0b1101);
    assert_eq!(amps.get(12), 0b1110);
    assert_eq!(amps.get(13), 0b111);
    assert_eq!(amps.get(14), 0b111);
    assert_eq!(amps.get(15), 0b110);
    assert_eq!(amps.get(16), 0b100);
    assert_eq!(amps.get(17), 0b10);

    assert_eq!(voice.unvoiced_count(), 9);

    assert!(voice.is_voiced(1));
    assert!(voice.is_voiced(2));
    assert!(voice.is_voiced(3));
    assert!(!voice.is_voiced(4));
    assert!(!voice.is_voiced(5));
    assert!(!voice.is_voiced(6));
    assert!(voice.is_voiced(7));
    assert!(voice.is_voiced(8));
    assert!(voice.is_voiced(9));
    assert!(!voice.is_voiced(10));
    assert!(!voice.is_voiced(11));
    assert!(!voice.is_voiced(12));
    assert!(!voice.is_voiced(13));
    assert!(!voice.is_voiced(14));
    assert!(!voice.is_voiced(15));
    assert!(voice.is_voiced(16));

    for l in 17..63 {
        assert!(!voice.is_voiced(l));
    }
}

#[test]
fn test_descramble_10() {
    let chunks = [
        0b000001010010,
        0b110011001100,
        0b111000111000,
        0b111111111111,
        0b11010110101,
        0b00101111010,
        0b01110111011,
        0b00001000,
    ];

    let b = Bootstrap::new(&chunks);
    let p = BaseParams::new(b.unwrap_period());
    let alloc = alloc_10(&p);
    let (amps, voice, gain_idx) = descramble(&chunks, &p, &alloc);

    assert_eq!(p.harmonics, 10);
    assert_eq!(p.bands, 4);
    assert_eq!(gain_idx, 0b010011);

    assert_eq!(amps.get(3), 0b010101011);
    assert_eq!(amps.get(4), 0b110101101);
    assert_eq!(amps.get(5), 0b01001011);
    assert_eq!(amps.get(6), 0b01011000);
    assert_eq!(amps.get(7), 0b10011101);
    assert_eq!(amps.get(8), 0b010111011);
    assert_eq!(amps.get(9), 0b1111110);
    assert_eq!(amps.get(10), 0b110110);
    assert_eq!(amps.get(11), 0b11100);

    assert_eq!(voice.unvoiced_count(), 3);

    assert!(voice.is_voiced(1));
    assert!(voice.is_voiced(2));
    assert!(voice.is_voiced(3));
    assert!(voice.is_voiced(4));
    assert!(voice.is_voiced(5));
    assert!(voice.is_voiced(6));
    assert!(!voice.is_voiced(7));
    assert!(!voice.is_voiced(8));
    assert!(!voice.is_voiced(9));
    assert!(voice.is_voiced(10));

    for l in 11..=63 {
        assert!(!voice.is_voiced(l));
    }
}

#[test]
fn test_descramble_16_2() {
    let chunks = [
        0b001000010010,
        0b110011001100,
        0b111000111000,
        0b111111111111,
        0b10101110101,
        0b00101111010,
        0b01110111011,
        0b00001000,
    ];

    let b = Bootstrap::new(&chunks);
    let p = BaseParams::new(b.unwrap_period());
    let alloc = alloc_16(&p);
    let (_, voice, _) = descramble(&chunks, &p, &alloc);

    assert_eq!(p.harmonics, 16);
    assert!(voice.is_voiced(1));
    assert!(voice.is_voiced(2));
    assert!(voice.is_voiced(3));
    assert!(!voice.is_voiced(4));
    assert!(!voice.is_voiced(5));
    assert!(!voice.is_voiced(6));
    assert!(voice.is_voiced(7));
    assert!(voice.is_voiced(8));
    assert!(voice.is_voiced(9));
    assert!(!voice.is_voiced(10));
    assert!(!voice.is_voiced(11));
    assert!(!voice.is_voiced(12));
    assert!(voice.is_voiced(13));
    assert!(voice.is_voiced(14));
    assert!(voice.is_voiced(15));
    assert!(voice.is_voiced(16));

    for l in 17..=63 {
        assert!(!voice.is_voiced(l));
    }
}

#[test]
fn test_voice() {
    let p = BaseParams::new(32);
    assert_eq!(p.harmonics, 16);
    assert_eq!(p.bands, 6);
    let v = VoiceDecisions::new(0b101011, &p);
    assert_eq!(v.unvoiced_count(), 6);
    assert_eq!(v.voiced, 0b1110001110001111);
    let v = VoiceDecisions::new(0b101010, &p);
    assert_eq!(v.unvoiced_count(), 7);
    assert_eq!(v.voiced, 0b1110001110001110);
    let v = VoiceDecisions::new(0b001001, &p);
    assert_eq!(v.unvoiced_count(), 12);
    assert_eq!(v.voiced, 0b0000001110000001);
    let v = VoiceDecisions::new(0b101000, &p);
    assert_eq!(v.unvoiced_count(), 10);
    assert_eq!(v.voiced, 0b1110001110000000);
    let v = VoiceDecisions::new(0b000000, &p);
    assert_eq!(v.unvoiced_count(), 16);
    assert_eq!(v.voiced, 0b0000000000000000);
    let v = VoiceDecisions::new(0b111111, &p);
    assert_eq!(v.unvoiced_count(), 0);
    assert_eq!(v.voiced, 0b1111111111111111);

    let p = BaseParams::new(36);
    assert_eq!(p.harmonics, 17);
    assert_eq!(p.bands, 6);
    let v = VoiceDecisions::new(0b101011, &p);
    assert_eq!(v.unvoiced_count(), 6);
    assert_eq!(v.voiced, 0b11100011100011111);
    let v = VoiceDecisions::new(0b101010, &p);
    assert_eq!(v.unvoiced_count(), 8);
    assert_eq!(v.voiced, 0b11100011100011100);
    let v = VoiceDecisions::new(0b001001, &p);
    assert_eq!(v.unvoiced_count(), 12);
    assert_eq!(v.voiced, 0b00000011100000011);
    let v = VoiceDecisions::new(0b101000, &p);
    assert_eq!(v.unvoiced_count(), 11);
    assert_eq!(v.voiced, 0b11100011100000000);
    let v = VoiceDecisions::new(0b000000, &p);
    assert_eq!(v.unvoiced_count(), 17);
    assert_eq!(v.voiced, 0b00000000000000000);
    let v = VoiceDecisions::new(0b111111, &p);
    assert_eq!(v.unvoiced_count(), 0);
    assert_eq!(v.voiced, 0b11111111111111111);

    let p = BaseParams::new(40);
    assert_eq!(p.harmonics, 18);
    assert_eq!(p.bands, 6);
    let v = VoiceDecisions::new(0b101011, &p);
    assert_eq!(v.unvoiced_count(), 6);
    assert_eq!(v.voiced, 0b111000111000111111);
    let v = VoiceDecisions::new(0b101010, &p);
    assert_eq!(v.unvoiced_count(), 9);
    assert_eq!(v.voiced, 0b111000111000111000);
    let v = VoiceDecisions::new(0b001001, &p);
    assert_eq!(v.unvoiced_count(), 12);
    assert_eq!(v.voiced, 0b000000111000000111);
    let v = VoiceDecisions::new(0b101000, &p);
    assert_eq!(v.unvoiced_count(), 12);
    assert_eq!(v.voiced, 0b111000111000000000);
    let v = VoiceDecisions::new(0b000000, &p);
    assert_eq!(v.unvoiced_count(), 18);
    assert_eq!(v.voiced, 0b000000000000000000);
    let v = VoiceDecisions::new(0b111111, &p);
    assert_eq!(v.unvoiced_count(), 0);
    assert_eq!(v.voiced, 0b111111111111111111);
}

#[test]
#[should_panic]
fn test_amp_bounds() {
    let chunks = [
        0b000001010010,
        0b110011001100,
        0b111000111000,
        0b111111111111,
        0b11110110101,
        0b00101111010,
        0b01110111011,
        0b00001000,
    ];

    let b = Bootstrap::new(&chunks);
    let p = BaseParams::new(b.unwrap_period());
    let alloc = alloc_10(&p);
    let (amps, _, _) = descramble(&chunks, &p, &alloc);

    assert_eq!(p.harmonics, 10);
    amps.get(12);
}

#[test]
fn test_gain_idx() {
    let chunks = [
        0b111111010111,
        0b111111111111,
        0b111111111111,
        0b111111111111,
        0b11111111111,
        0b11111111111,
        0b11111111111,
        0b1110111,
    ];

    assert_eq!(imbe::descramble::gain_idx(&chunks, 0b01), 0b010010);
}

#[test]
fn test_period() {
    let chunks = [
        0b010101111111,
        0b111111111111,
        0b111111111111,
        0b111111111111,
        0b11111111111,
        0b11111111111,
        0b11111111111,
        0b1111011,
    ];

    assert_eq!(imbe::descramble::period(&chunks), 0b01010101);
}
