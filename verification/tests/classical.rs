use elxr_chain::error_correction::classical::CLASSICAL_MARKER;
use elxr_chain::error_correction::{
    ClassicalErrorCorrection, ErrorCorrection, ErrorCorrectionError, ErrorCorrectionType,
};

#[test]
fn classical_frame_of_four_bytes_at_a_quarter() {
    let codec = ClassicalErrorCorrection::new(25);
    let payload = [0x41u8, 0x42, 0x43, 0x44];
    let parity = 0x41u8 ^ 0x42 ^ 0x43 ^ 0x44;
    let frame = codec.encode(&payload).unwrap();
    assert_eq!(frame, vec![0x41, 0x42, 0x43, 0x44, CLASSICAL_MARKER, 25, parity]);
    assert_eq!(frame, vec![0x41, 0x42, 0x43, 0x44, 0x52, 0x19, 0x04]);
    assert_eq!(codec.decode(&frame), Ok(payload.to_vec()));
}

#[test]
fn classical_parity_folds_bytes_by_index() {
    let codec = ClassicalErrorCorrection::new(25);
    let payload = [1u8, 2, 3, 4, 5, 6, 7, 8];
    let frame = codec.encode(&payload).unwrap();
    let even = 1u8 ^ 3 ^ 5 ^ 7;
    let odd = 2u8 ^ 4 ^ 6 ^ 8;
    assert_eq!(frame, vec![1, 2, 3, 4, 5, 6, 7, 8, 0x52, 25, even, odd]);
    assert_eq!(frame[10..], [0x00, 0x08]);
}

#[test]
fn classical_parity_length_rounds_down() {
    let codec = ClassicalErrorCorrection::new(10);
    assert_eq!(codec.encode(&[7u8; 9]).unwrap().len(), 9 + 2);
    assert_eq!(codec.encode(&[7u8; 10]).unwrap().len(), 10 + 2 + 1);
    assert_eq!(codec.encode(&[7u8; 19]).unwrap().len(), 19 + 2 + 1);
    assert_eq!(codec.encode(&[7u8; 20]).unwrap().len(), 20 + 2 + 2);
}

#[test]
fn classical_redundancy_is_clamped() {
    let low = ClassicalErrorCorrection::new(0).encode(&[1]).unwrap();
    assert_eq!(low, vec![1, 0x52, 5]);
    let high = ClassicalErrorCorrection::new(200).encode(&[1]).unwrap();
    assert_eq!(high, vec![1, 0x52, 30]);
    let lowest_kept = ClassicalErrorCorrection::new(5).encode(&[1]).unwrap();
    assert_eq!(lowest_kept, vec![1, 0x52, 5]);
    let highest_kept = ClassicalErrorCorrection::new(30).encode(&[1]).unwrap();
    assert_eq!(highest_kept, vec![1, 0x52, 30]);
    let kept = ClassicalErrorCorrection::new(17).encode(&[1]).unwrap();
    assert_eq!(kept, vec![1, 0x52, 17]);
}

#[test]
fn classical_rejects_empty_payload() {
    let codec = ClassicalErrorCorrection::new(10);
    assert_eq!(codec.encode(&[]), Err(ErrorCorrectionError::InvalidData));
}

#[test]
fn classical_short_payload_has_no_parity_and_comes_back() {
    let codec = ClassicalErrorCorrection::new(8);
    let payload = [9u8, 8, 7, 6, 5, 4, 3, 2, 1, 0];
    let frame = codec.encode(&payload).unwrap();
    assert_eq!(frame.len(), payload.len() + 2);
    assert_eq!(codec.decode(&frame), Ok(payload.to_vec()));
}

#[test]
fn classical_round_trip_with_parity() {
    let codec = ClassicalErrorCorrection::new(10);
    let payload = [7u8; 20];
    let frame = codec.encode(&payload).unwrap();
    assert_eq!(frame.len(), 24);
    assert_eq!(frame[20..], [0x52, 0x0A, 0x00, 0x00]);
    assert_eq!(codec.decode(&frame), Ok(payload.to_vec()));
}

#[test]
fn classical_round_trip_fails_where_parity_lengths_disagree() {
    let codec = ClassicalErrorCorrection::new(10);
    let payload: Vec<u8> = (1..=100).collect();
    let frame = codec.encode(&payload).unwrap();
    // Ten per cent of 100 is 10, ten per cent of the frame's 112 bytes is 11.
    assert_eq!(frame.len(), 112);
    assert_eq!(codec.decode(&frame), Err(ErrorCorrectionError::InvalidData));
}

#[test]
fn classical_decode_goes_by_the_frame_not_the_codec() {
    let writer = ClassicalErrorCorrection::new(25);
    let reader = ClassicalErrorCorrection::new(8);
    let payload = [0x41u8, 0x42, 0x43, 0x44];
    let frame = writer.encode(&payload).unwrap();
    assert_eq!(reader.decode(&frame), Ok(payload.to_vec()));
    assert_eq!(reader.has_errors(&frame), writer.has_errors(&frame));
}

#[test]
fn classical_decode_takes_the_trailer_nearest_to_the_end() {
    let codec = ClassicalErrorCorrection::new(10);
    // Two places read as a trailer: the last two bytes, and the marker at
    // index 1 followed by 70 per cent of ten bytes, which is the seven bytes
    // behind it. The one nearest to the end counts.
    let frame = [1u8, 0x52, 70, 0, 0, 0, 0, 0, 0x52, 5];
    assert_eq!(codec.decode(&frame), Ok(vec![1, 0x52, 70, 0, 0, 0, 0, 0]));
    let only_far = [1u8, 0x52, 70, 0, 0, 0, 0, 0, 0, 0];
    assert_eq!(codec.decode(&only_far), Ok(vec![1]));
}

#[test]
fn classical_decode_accepts_an_empty_payload_region() {
    let codec = ClassicalErrorCorrection::new(10);
    assert_eq!(codec.decode(&[0x52, 40, 0]), Ok(vec![]));
}

#[test]
fn classical_decode_rejects_what_is_no_frame() {
    let codec = ClassicalErrorCorrection::new(10);
    assert_eq!(codec.decode(&[]), Err(ErrorCorrectionError::InvalidData));
    assert_eq!(codec.decode(&[0x52, 5]), Err(ErrorCorrectionError::InvalidData));
    assert_eq!(codec.decode(&[1, 2, 3, 4]), Err(ErrorCorrectionError::InvalidData));
    // A marker whose percentage does not fit the bytes behind it.
    assert_eq!(codec.decode(&[1, 0x52, 10, 0]), Err(ErrorCorrectionError::InvalidData));
}

#[test]
fn classical_has_errors_looks_at_the_last_two_bytes() {
    let codec = ClassicalErrorCorrection::new(10);
    assert!(codec.has_errors(&[1, 0x52, 8]));
    assert!(codec.has_errors(&[1, 0x52, 0x11]));
    assert!(!codec.has_errors(&[1, 0x52, 16]));
    assert!(!codec.has_errors(&[1, 0x52, 0xF0]));
    assert!(!codec.has_errors(&[1, 0x53, 8]));
    assert!(!codec.has_errors(&[0x52, 8]));
    assert!(!codec.has_errors(&[]));
}

#[test]
fn classical_fresh_frame_without_parity_reads_damaged_unless_sixteen_per_cent() {
    let eight = ClassicalErrorCorrection::new(8);
    assert!(eight.has_errors(&eight.encode(&[1]).unwrap()));
    let sixteen = ClassicalErrorCorrection::new(16);
    assert!(!sixteen.has_errors(&sixteen.encode(&[1]).unwrap()));
}

#[test]
fn classical_fresh_frame_with_one_parity_byte_reads_clean() {
    let codec = ClassicalErrorCorrection::new(25);
    let frame = codec.encode(&[0x41, 0x42, 0x43, 0x44]).unwrap();
    assert!(!codec.has_errors(&frame));
}

#[test]
fn classical_encode_is_deterministic() {
    let first = ClassicalErrorCorrection::new(12);
    let second = ClassicalErrorCorrection::new(12);
    let payload: Vec<u8> = (0..50).collect();
    assert_eq!(first.encode(&payload), first.encode(&payload));
    assert_eq!(first.encode(&payload), second.encode(&payload));
}

#[test]
fn classical_reports_its_tier() {
    assert_eq!(
        ClassicalErrorCorrection::new(10).correction_type(),
        ErrorCorrectionType::Classical
    );
}
