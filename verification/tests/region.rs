use anvil_import::region::{split_region_coord, region_file_name, chunk_payload};

#[test]
fn split_negative_one() {
    assert_eq!(split_region_coord(-1), (-1, 31));
}

#[test]
fn split_zero() {
    assert_eq!(split_region_coord(0), (0, 0));
}

#[test]
fn split_thirty_two() {
    assert_eq!(split_region_coord(32), (1, 0));
}

#[test]
fn split_negative_thirty_three() {
    assert_eq!(split_region_coord(-33), (-2, 31));
}

#[test]
fn split_reassembles() {
    for v in [-100, -65, -64, -63, -32, -31, -1, 0, 1, 31, 32, 63, 64, 1000] {
        let (region, local) = split_region_coord(v);
        assert!(local >= 0 && local < 32);
        assert_eq!(region * 32 + local, v);
    }
}

#[test]
fn file_names() {
    assert_eq!(region_file_name(0, 0), b"r.0.0.mca".to_vec());
    assert_eq!(region_file_name(-1, 2), b"r.-1.2.mca".to_vec());
    assert_eq!(region_file_name(12, -345), b"r.12.-345.mca".to_vec());
}

#[test]
fn payload_absent_and_present() {
    // Too short for a header table.
    assert!(chunk_payload(&vec![0u8; 100], 0, 0).is_none());

    // An empty slot yields no data.
    let region = vec![0u8; 8192];
    assert!(chunk_payload(&region, 3, 7).is_none());

    // One populated slot: offset sector 2, one sector long.
    let mut region = vec![0u8; 8192];
    let slot = (7usize * 32 + 3) * 4;
    region[slot..slot + 4].copy_from_slice(&((2u32 << 8) | 1u32).to_be_bytes());
    let payload = [9u8, 8, 7, 6, 5];
    let length = (payload.len() + 1) as u32;
    region.extend_from_slice(&length.to_be_bytes());
    region.push(2);
    region.extend_from_slice(&payload);
    let got = chunk_payload(&region, 3, 7).expect("slot should resolve");
    assert_eq!(got.0, 2);
    assert_eq!(got.1, payload.to_vec());

    // A claimed length above the sector allowance is rejected.
    let mut bad = region.clone();
    bad[8192..8196].copy_from_slice(&5000u32.to_be_bytes());
    assert!(chunk_payload(&bad, 3, 7).is_none());
}
