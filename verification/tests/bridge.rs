use elxr_chain::error_correction::bridge::{BRIDGE_HEADER, BRIDGE_TRAILER};
use elxr_chain::error_correction::{
    BridgeErrorCorrection, ErrorCorrection, ErrorCorrectionError, ErrorCorrectionType,
};

fn rolling_checksum(data: &[u8]) -> u8 {
    let mut acc = 0u8;
    for byte in data {
        acc = acc.wrapping_add(*byte).rotate_left(1);
    }
    acc
}

#[test]
fn bridge_frame_layout() {
    let codec = BridgeErrorCorrection::new();
    let frame = codec.encode(&[1, 2, 3]).unwrap();
    assert_eq!(
        frame,
        vec![
            0xB7, 0x03, 0x02, 0x01, 0x02, 0x03, 0x16, 0x01, 0x02, 0x03, 0x16, 0x01, 0x02, 0x03,
            0x16, 0xE8
        ]
    );
    assert_eq!(frame[0], BRIDGE_HEADER);
    assert_eq!(frame[15], BRIDGE_TRAILER);
}

#[test]
fn bridge_checksum_adds_then_rotates() {
    let codec = BridgeErrorCorrection::with_params(1, 1);
    let one = codec.encode(&[5]).unwrap();
    assert_eq!(one, vec![0xB7, 1, 1, 5, 10, 0xE8]);
    let wrapping = codec.encode(&[0x10, 0x20]).unwrap();
    assert_eq!(wrapping, vec![0xB7, 1, 1, 0x10, 0x20, 0x80, 0xE8]);
    let high_bit = codec.encode(&[0xC0]).unwrap();
    assert_eq!(high_bit, vec![0xB7, 1, 1, 0xC0, 0x81, 0xE8]);
    let carried = codec.encode(&[0xFF, 0x02]).unwrap();
    assert_eq!(carried[5], rolling_checksum(&[0xFF, 0x02]));
    assert_eq!(carried[5], 0x02);
}

#[test]
fn bridge_parameters_are_clamped() {
    let low = BridgeErrorCorrection::with_params(0, 0).encode(&[9]).unwrap();
    assert_eq!(low, vec![0xB7, 1, 1, 9, 18, 0xE8]);
    let high = BridgeErrorCorrection::with_params(9, 200).encode(&[9]).unwrap();
    assert_eq!(high[..3], [0xB7, 5, 5]);
    assert_eq!(high.len(), 4 + 5 * 2);
    let kept = BridgeErrorCorrection::with_params(4, 3).encode(&[9]).unwrap();
    assert_eq!(kept[..3], [0xB7, 4, 3]);
    assert_eq!(kept.len(), 4 + 4 * 2);
}

#[test]
fn bridge_rejects_empty_payload() {
    let codec = BridgeErrorCorrection::new();
    assert_eq!(codec.encode(&[]), Err(ErrorCorrectionError::InvalidData));
}

#[test]
fn bridge_round_trip() {
    for redundancy in 1..=5u8 {
        let codec = BridgeErrorCorrection::with_params(redundancy, 2);
        let payload: Vec<u8> = (0..=255).collect();
        let frame = codec.encode(&payload).unwrap();
        assert_eq!(frame.len(), 4 + redundancy as usize * 257);
        assert_eq!(codec.decode(&frame), Ok(payload));
    }
}

#[test]
fn bridge_fresh_frame_reads_clean() {
    let codec = BridgeErrorCorrection::new();
    let frame = codec.encode(b"fermentation").unwrap();
    assert!(!codec.has_errors(&frame));
}

#[test]
fn bridge_outvotes_one_damaged_data_byte() {
    let codec = BridgeErrorCorrection::new();
    let payload = [1u8, 2, 3];
    let mut frame = codec.encode(&payload).unwrap();
    frame[8] = 0x99;
    assert_eq!(codec.decode(&frame), Ok(payload.to_vec()));
    assert!(codec.has_errors(&frame));
}

#[test]
fn bridge_outvotes_one_damaged_checksum() {
    let codec = BridgeErrorCorrection::new();
    let payload = [1u8, 2, 3];
    let mut frame = codec.encode(&payload).unwrap();
    frame[6] ^= 0x01;
    assert_eq!(codec.decode(&frame), Ok(payload.to_vec()));
    assert!(codec.has_errors(&frame));
}

#[test]
fn bridge_outvotes_damage_at_every_place_of_every_block() {
    let codec = BridgeErrorCorrection::with_params(3, 1);
    let payload = [0x10u8, 0x20, 0x30, 0x40];
    let fresh = codec.encode(&payload).unwrap();
    for at in 3..fresh.len() - 1 {
        let mut frame = fresh.clone();
        frame[at] = frame[at].wrapping_add(1);
        assert_eq!(codec.decode(&frame), Ok(payload.to_vec()));
    }
}

#[test]
fn bridge_two_copies_survive_one_damaged_byte() {
    let codec = BridgeErrorCorrection::with_params(2, 1);
    let payload = [0x10u8, 0x20, 0x30, 0x40];
    let fresh = codec.encode(&payload).unwrap();
    for at in 3..fresh.len() - 1 {
        for change in [1u8, 0x80, 0xFF] {
            let mut frame = fresh.clone();
            frame[at] = frame[at].wrapping_add(change);
            assert_eq!(codec.decode(&frame), Ok(payload.to_vec()));
            assert!(codec.has_errors(&frame));
        }
    }
}

#[test]
fn bridge_gives_up_when_every_block_is_damaged() {
    let codec = BridgeErrorCorrection::new();
    let mut frame = codec.encode(&[1, 2, 3]).unwrap();
    frame[3] = 9;
    frame[7] = 9;
    frame[11] = 9;
    assert_eq!(codec.decode(&frame), Err(ErrorCorrectionError::Uncorrectable));
    assert!(codec.has_errors(&frame));
}

#[test]
fn bridge_tie_goes_to_the_smaller_byte() {
    let codec = BridgeErrorCorrection::new();
    let frame = [0xB7, 2, 1, 5, 10, 3, 6, 0xE8];
    assert_eq!(codec.decode(&frame), Ok(vec![3]));
    assert!(!codec.has_errors(&frame));
    let swapped = [0xB7, 2, 1, 3, 6, 5, 10, 0xE8];
    assert_eq!(codec.decode(&swapped), Ok(vec![3]));
}

#[test]
fn bridge_majority_wins_over_a_smaller_byte() {
    let codec = BridgeErrorCorrection::new();
    let frame = [0xB7, 3, 1, 5, 10, 3, 6, 5, 10, 0xE8];
    assert_eq!(codec.decode(&frame), Ok(vec![5]));
}

#[test]
fn bridge_more_than_half_of_the_blocks_decide() {
    let codec = BridgeErrorCorrection::new();
    // Three blocks hold 7, two hold 9; all five are intact.
    let frame = [0xB7, 5, 1, 7, 14, 9, 18, 7, 14, 9, 18, 7, 14, 0xE8];
    assert_eq!(codec.decode(&frame), Ok(vec![7]));
    assert!(!codec.has_errors(&frame));
    // Two blocks hold 7, three hold 9.
    let frame = [0xB7, 5, 1, 7, 14, 9, 18, 7, 14, 9, 18, 9, 18, 0xE8];
    assert_eq!(codec.decode(&frame), Ok(vec![9]));
    // Three copies of the payload among two damaged blocks.
    let frame = [0xB7, 5, 1, 7, 14, 0, 1, 7, 14, 0xFF, 0, 7, 14, 0xE8];
    assert_eq!(codec.decode(&frame), Ok(vec![7]));
    assert!(codec.has_errors(&frame));
}

#[test]
fn bridge_decode_goes_by_the_frame_not_the_codec() {
    let writer = BridgeErrorCorrection::with_params(5, 1);
    let reader = BridgeErrorCorrection::with_params(2, 4);
    let payload = [4u8, 5, 6, 7];
    let frame = writer.encode(&payload).unwrap();
    assert_eq!(reader.decode(&frame), Ok(payload.to_vec()));
    assert!(!reader.has_errors(&frame));
}

#[test]
fn bridge_bytes_behind_the_last_block_are_ignored() {
    let codec = BridgeErrorCorrection::new();
    // Five inner bytes in two blocks of two: the fifth belongs to no block.
    let frame = [0xB7, 2, 1, 5, 10, 5, 10, 0x77, 0xE8];
    assert_eq!(codec.decode(&frame), Ok(vec![5]));
    assert!(!codec.has_errors(&frame));
}

#[test]
fn bridge_rejects_malformed_frames() {
    let codec = BridgeErrorCorrection::new();
    let invalid = Err(ErrorCorrectionError::InvalidData);
    // Too short.
    assert_eq!(codec.decode(&[]), invalid);
    assert_eq!(codec.decode(&[0xB7, 1, 1, 0xE8]), invalid);
    // Wrong header, wrong trailer.
    assert_eq!(codec.decode(&[0xB8, 1, 1, 5, 10, 0xE8]), invalid);
    assert_eq!(codec.decode(&[0xB7, 1, 1, 5, 10, 0xE9]), invalid);
    // No redundancy.
    assert_eq!(codec.decode(&[0xB7, 0, 1, 5, 10, 0xE8]), invalid);
    // Blocks too small for a data byte and a checksum.
    assert_eq!(codec.decode(&[0xB7, 2, 1, 5, 10, 0xE8]), invalid);
    assert_eq!(codec.decode(&[0xB7, 1, 1, 5, 0xE8]), invalid);
}

#[test]
fn bridge_malformed_frames_read_damaged() {
    let codec = BridgeErrorCorrection::new();
    assert!(codec.has_errors(&[]));
    assert!(codec.has_errors(&[0xB7, 1, 1, 0xE8]));
    assert!(codec.has_errors(&[0xB8, 1, 1, 5, 10, 0xE8]));
    assert!(codec.has_errors(&[0xB7, 1, 1, 5, 10, 0xE9]));
    assert!(codec.has_errors(&[0xB7, 0, 1, 5, 10, 0xE8]));
    assert!(codec.has_errors(&[0xB7, 2, 1, 5, 10, 0xE8]));
    assert!(!codec.has_errors(&[0xB7, 1, 1, 5, 10, 0xE8]));
    assert!(codec.has_errors(&[0xB7, 1, 1, 5, 11, 0xE8]));
}

#[test]
fn bridge_encode_is_deterministic() {
    let first = BridgeErrorCorrection::with_params(4, 2);
    let second = BridgeErrorCorrection::with_params(4, 2);
    assert_eq!(first.encode(b"payload"), first.encode(b"payload"));
    assert_eq!(first.encode(b"payload"), second.encode(b"payload"));
}

#[test]
fn bridge_reports_its_tier() {
    assert_eq!(BridgeErrorCorrection::new().correction_type(), ErrorCorrectionType::Bridge);
}
