use anvil_import::codec::{bits_for_palette, decode_block_states};

/// Packs `indices` at the given bit width into 64-bit words, LSB-first,
/// continuously across word boundaries.
fn encode(indices: &[usize], bits: usize) -> Vec<i64> {
    let mut words: Vec<i64> = Vec::new();
    let mut acc: u128 = 0;
    let mut nbits: usize = 0;
    for &ix in indices {
        acc |= (ix as u128) << nbits;
        nbits += bits;
        while nbits >= 64 {
            words.push((acc as u64) as i64);
            acc >>= 64;
            nbits -= 64;
        }
    }
    if nbits > 0 {
        words.push((acc as u64) as i64);
    }
    words
}

#[test]
fn bit_width_floor_and_growth() {
    assert_eq!(bits_for_palette(16), 4);
    assert_eq!(bits_for_palette(17), 5);
    assert_eq!(bits_for_palette(1), 4);
    assert_eq!(bits_for_palette(2), 4);
    assert_eq!(bits_for_palette(32), 5);
    assert_eq!(bits_for_palette(33), 6);
    assert_eq!(bits_for_palette(256), 8);
    assert_eq!(bits_for_palette(257), 9);
}

#[test]
fn degenerate_palette_decodes_all_zero() {
    let words = vec![0x0123456789abcdefu64 as i64; 7];
    for palette_len in [0usize, 1usize] {
        let out = decode_block_states(&words, palette_len);
        assert_eq!(out.len(), 4096);
        assert!(out.iter().all(|&v| v == 0));
    }
    let empty: Vec<i64> = Vec::new();
    let out = decode_block_states(&empty, 0);
    assert_eq!(out.len(), 4096);
    assert!(out.iter().all(|&v| v == 0));
}

#[test]
fn empty_words_decode_all_zero() {
    let empty: Vec<i64> = Vec::new();
    let out = decode_block_states(&empty, 20);
    assert_eq!(out.len(), 4096);
    assert!(out.iter().all(|&v| v == 0));
}

#[test]
fn round_trip_all_widths() {
    for bits in 4usize..=9 {
        let palette_len = 1usize << bits;
        assert_eq!(bits_for_palette(palette_len), bits);
        let original: Vec<usize> = (0..4096).map(|i| (i * 7 + 3) % palette_len).collect();
        let words = encode(&original, bits);
        let decoded = decode_block_states(&words, palette_len);
        assert_eq!(decoded, original);
    }
}

#[test]
fn round_trip_unaligned_count() {
    for bits in 4usize..=9 {
        let palette_len = 1usize << bits;
        let count = 1000usize;
        let original: Vec<usize> = (0..count).map(|i| (i * 11 + 1) % palette_len).collect();
        let words = encode(&original, bits);
        let decoded = decode_block_states(&words, palette_len);
        assert_eq!(decoded.len(), 4096);
        assert_eq!(&decoded[..count], &original[..]);
        assert!(decoded[count..].iter().all(|&v| v == 0));
    }
}

#[test]
fn truncated_words_zero_fill() {
    let bits = 5usize;
    let palette_len = 17usize;
    let original: Vec<usize> = (0..4096).map(|i| i % palette_len).collect();
    let mut words = encode(&original, bits);
    words.truncate(words.len() - 3);
    let decoded = decode_block_states(&words, palette_len);
    assert_eq!(decoded.len(), 4096);
    let avail = 64 * words.len();
    for i in 0..4096 {
        if (i + 1) * bits <= avail {
            assert_eq!(decoded[i], original[i]);
        } else {
            assert_eq!(decoded[i], 0);
        }
    }
}

#[test]
fn straddling_indices_decode_exactly() {
    // With 5-bit indices, index 12 straddles the first word boundary.
    let palette_len = 32usize;
    let original: Vec<usize> = (0..16).map(|i| (31 - i) % 32).collect();
    let words = encode(&original, 5);
    let decoded = decode_block_states(&words, palette_len);
    assert_eq!(&decoded[..16], &original[..]);
}
