//! The adaptive range coder.

use aria::arith::{compress_adaptive, decompress_adaptive, ArithDecoder, ArithEncoder};

fn round_trip(data: &[u8]) {
    let blob = compress_adaptive(data);
    let back = decompress_adaptive(&blob, data.len()).expect("decompress");
    assert_eq!(back, data, "round-trip mismatch (len {})", data.len());
}

#[test]
fn empty() {
    round_trip(&[]);
}

#[test]
fn all_zero() {
    round_trip(&[0u8; 4096]);
}

#[test]
fn single_byte_all_values() {
    for b in 0u16..=255 {
        round_trip(&[b as u8]);
    }
}

#[test]
fn repeated_text() {
    let mut data = Vec::new();
    for _ in 0..500 {
        data.extend_from_slice(b"the quick brown fox jumps over the lazy dog. ");
    }
    round_trip(&data);
}

#[test]
fn pseudo_random_lcg() {
    // Simple LCG (Numerical Recipes constants); no external crate.
    let mut state: u32 = 0x1234_5678;
    let mut data = Vec::with_capacity(50_000);
    for _ in 0..50_000 {
        state = state.wrapping_mul(1_664_525).wrapping_add(1_013_904_223);
        data.push((state >> 24) as u8);
    }
    round_trip(&data);
}

#[test]
fn all_one_bits() {
    round_trip(&[0xFFu8; 4096]);
}

#[test]
fn carry_stress() {
    // Long runs designed to provoke the 0xFF cache/carry path.
    let mut data = Vec::new();
    for i in 0..10_000u32 {
        data.push(if i % 7 == 0 { 0x00 } else { 0xFF });
    }
    round_trip(&data);
}

#[test]
fn repetitive_is_much_smaller() {
    let mut data = Vec::new();
    for _ in 0..2000 {
        data.extend_from_slice(b"AAAAAAAAAAAAAAAA");
    }
    let blob = compress_adaptive(&data);
    // Highly repetitive input must compress dramatically (header is 12 B).
    assert!(
        blob.len() * 8 < data.len(),
        "expected strong compression: {} -> {}",
        data.len(),
        blob.len()
    );
    // And it must still decode exactly.
    let back = decompress_adaptive(&blob, data.len()).expect("decompress");
    assert_eq!(back, data);
}

#[test]
fn stream_starts_with_magic_and_length() {
    assert_eq!(compress_adaptive(&[]), b"ARB1\0\0\0\0\0\0\0\0".to_vec());
    let blob = compress_adaptive(&[7; 300]);
    assert_eq!(&blob[..12], b"ARB1\x2c\x01\0\0\0\0\0\0");
    // The stream's first byte is the withheld zero.
    assert_eq!(blob[12], 0);
    assert_eq!(decompress_adaptive(&blob, 0).unwrap(), vec![7; 300]);
}

#[test]
fn other_streams_are_refused() {
    let refused = Err("not an ARB1 stream".to_string());
    assert_eq!(decompress_adaptive(&[], 0), refused);
    assert_eq!(decompress_adaptive(b"ARB1\0\0\0\0\0\0\0", 0), refused);
    assert_eq!(decompress_adaptive(b"ARB2\0\0\0\0\0\0\0\0", 0), refused);
}

#[test]
fn bits_come_back_under_any_probabilities() {
    // Out-of-range probabilities are clamped alike on both sides.
    let probs = [0u16, 1, 2, 17, 2048, 4000, 4095, 4096, 65535];
    let mut state: u32 = 1;
    let mut sent = Vec::new();
    let mut enc = ArithEncoder::default();
    for i in 0..5000usize {
        state = state.wrapping_mul(1_664_525).wrapping_add(1_013_904_223);
        let (p, bit) = (probs[i % probs.len()], (state >> 31) as u8);
        enc.encode_bit(p, bit);
        sent.push((p, bit));
    }
    let bytes = enc.finish();
    let mut dec = ArithDecoder::new(&bytes);
    for (p, bit) in sent {
        assert_eq!(dec.decode_bit(p), bit);
    }
    // Nothing sent is five bytes.
    assert_eq!(ArithEncoder::new().finish(), vec![0; 5]);
}

#[test]
fn probabilities_out_of_bounds_count_as_the_bounds() {
    let coded = |probs: [u16; 4]| {
        let mut e = ArithEncoder::new();
        for (i, p) in probs.iter().enumerate() {
            e.encode_bit(*p, (i % 2) as u8);
        }
        e.finish()
    };
    assert_eq!(coded([0, 4096, 0, 65535]), coded([1, 4095, 1, 4095]));
    assert_ne!(coded([0, 4096, 0, 65535]), coded([2, 4094, 2, 4094]));
}

#[test]
fn the_given_length_does_not_count() {
    let blob = compress_adaptive(b"abcabc");
    for n in [0, 6, 1000] {
        assert_eq!(decompress_adaptive(&blob, n).unwrap(), b"abcabc");
    }
}
