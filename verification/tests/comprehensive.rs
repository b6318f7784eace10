use elxr_chain::error_correction::{
    create_error_correction, BridgeErrorCorrection, ClassicalErrorCorrection, Codec,
    ComprehensiveErrorCorrection, ErrorCorrection, ErrorCorrectionError, ErrorCorrectionType,
    QuantumErrorCorrection,
};

#[test]
fn comprehensive_wraps_classical_in_bridge_in_quantum() {
    let codec = ComprehensiveErrorCorrection::new();
    let payload = [7u8];
    let classical = ClassicalErrorCorrection::new(8).encode(&payload).unwrap();
    let bridge = BridgeErrorCorrection::new().encode(&classical).unwrap();
    let quantum = QuantumErrorCorrection::new().encode(&bridge).unwrap();
    assert_eq!(codec.encode(&payload), Ok(quantum));
    assert_eq!(
        codec.encode(&payload).unwrap(),
        vec![
            0x51, 0x05, 0x04, 0xB7, 0x03, 0x02, 0x07, 0x52, 0x08, 0x91, 0x07, 0x52, 0x08, 0x91,
            0x07, 0x52, 0x08, 0x91, 0xE8, 0x42, 0x84, 0x09, 0x12, 0x08, 0x10, 0x20, 0x40, 0x45
        ]
    );
}

#[test]
fn comprehensive_rejects_empty_payload() {
    let codec = ComprehensiveErrorCorrection::new();
    assert_eq!(codec.encode(&[]), Err(ErrorCorrectionError::InvalidData));
}

#[test]
fn comprehensive_unwraps_quantum_then_bridge_then_classical() {
    let codec = ComprehensiveErrorCorrection::new();
    let classical = ClassicalErrorCorrection::new(8).encode(&[7]).unwrap();
    let bridge = BridgeErrorCorrection::new().encode(&classical).unwrap();
    assert_eq!(bridge.len(), 16);
    // The bridge frame laid out the way the quantum tier reads: blocks of
    // eight data bytes, each followed by its one syndrome.
    let mut frame = vec![0x51, 5, 1];
    frame.extend_from_slice(&bridge[..8]);
    frame.push(0);
    frame.extend_from_slice(&bridge[8..]);
    frame.push(0);
    frame.push(0x45);
    assert_eq!(codec.decode(&frame), Ok(vec![7]));
}

#[test]
fn comprehensive_decode_reports_the_layer_that_fails() {
    let codec = ComprehensiveErrorCorrection::new();
    // Not a quantum frame.
    assert_eq!(codec.decode(&[1, 2, 3]), Err(ErrorCorrectionError::InvalidData));
    // A quantum frame around a bridge frame whose only block is damaged.
    let frame = [0x51, 5, 1, 0xB7, 1, 1, 1, 2, 3, 0x17, 0xE8, 0, 0x45];
    assert_eq!(codec.decode(&frame), Err(ErrorCorrectionError::Uncorrectable));
    // A quantum frame around a bridge frame around what is no classical frame.
    let frame = [0x51, 5, 1, 0xB7, 1, 1, 1, 2, 3, 0x16, 0xE8, 0, 0x45];
    assert_eq!(codec.decode(&frame), Err(ErrorCorrectionError::InvalidData));
    // All three layers in order.
    let frame = [0x51, 5, 1, 0xB7, 1, 1, 7, 0x52, 8, 0x91, 0xE8, 0, 0x45];
    assert_eq!(codec.decode(&frame), Ok(vec![7]));
}

#[test]
fn comprehensive_fresh_frame_does_not_come_back() {
    let codec = ComprehensiveErrorCorrection::new();
    let frame = codec.encode(&[7]).unwrap();
    assert_eq!(codec.decode(&frame), Err(ErrorCorrectionError::InvalidData));
}

#[test]
fn comprehensive_fresh_frame_reads_damaged() {
    let codec = ComprehensiveErrorCorrection::new();
    for payload in [vec![7u8], vec![0u8; 8], (0..100).collect::<Vec<u8>>()] {
        let frame = codec.encode(&payload).unwrap();
        assert!(codec.has_errors(&frame));
    }
}

#[test]
fn comprehensive_reads_damaged_what_one_tier_reads_damaged() {
    let codec = ComprehensiveErrorCorrection::new();
    let bridge = BridgeErrorCorrection::new();
    let quantum = QuantumErrorCorrection::new();
    let classical = ClassicalErrorCorrection::new(8);
    let frames: Vec<Vec<u8>> = vec![
        vec![],
        vec![1, 0x52, 8],
        vec![0xB7, 1, 1, 5, 10, 0xE8],
        vec![0xB7, 1, 1, 5, 11, 0xE8],
        vec![0x51, 3, 1, 0, 0x45],
        vec![0x51, 3, 2, 1, 2, 3, 4, 5, 6, 7, 8, 0xAA, 0xAB, 0x45],
    ];
    for frame in frames {
        let any = quantum.has_errors(&frame)
            || bridge.has_errors(&frame)
            || classical.has_errors(&frame);
        assert_eq!(codec.has_errors(&frame), any);
        if bridge.has_errors(&frame) {
            assert!(codec.has_errors(&frame));
        }
    }
}

#[test]
fn comprehensive_encode_is_deterministic() {
    let first = ComprehensiveErrorCorrection::new();
    let second = ComprehensiveErrorCorrection::new();
    assert_eq!(first.encode(b"batch 17"), first.encode(b"batch 17"));
    assert_eq!(first.encode(b"batch 17"), second.encode(b"batch 17"));
}

#[test]
fn comprehensive_reports_its_tier() {
    assert_eq!(
        ComprehensiveErrorCorrection::new().correction_type(),
        ErrorCorrectionType::Comprehensive
    );
}

#[test]
fn factory_makes_the_requested_tier() {
    for tier in [
        ErrorCorrectionType::Classical,
        ErrorCorrectionType::Bridge,
        ErrorCorrectionType::Quantum,
        ErrorCorrectionType::Comprehensive,
    ] {
        assert_eq!(create_error_correction(tier).correction_type(), tier);
    }
    assert!(matches!(
        create_error_correction(ErrorCorrectionType::Classical),
        Codec::Classical(_)
    ));
    assert!(matches!(create_error_correction(ErrorCorrectionType::Bridge), Codec::Bridge(_)));
    assert!(matches!(create_error_correction(ErrorCorrectionType::Quantum), Codec::Quantum(_)));
    assert!(matches!(
        create_error_correction(ErrorCorrectionType::Comprehensive),
        Codec::Comprehensive(_)
    ));
}

#[test]
fn factory_uses_the_default_parameters() {
    let classical = create_error_correction(ErrorCorrectionType::Classical);
    assert_eq!(classical.encode(&[1]), Ok(vec![1, 0x52, 8]));
    let bridge = create_error_correction(ErrorCorrectionType::Bridge);
    assert_eq!(bridge.encode(&[5]), Ok(vec![0xB7, 3, 2, 5, 10, 5, 10, 5, 10, 0xE8]));
    let quantum = create_error_correction(ErrorCorrectionType::Quantum);
    assert_eq!(quantum.encode(&[1]), Ok(vec![0x51, 5, 4, 1, 1, 2, 4, 8, 0x45]));
    let comprehensive = create_error_correction(ErrorCorrectionType::Comprehensive);
    assert_eq!(comprehensive.encode(&[7]), ComprehensiveErrorCorrection::new().encode(&[7]));
}

#[test]
fn factory_codecs_decode_and_check_like_their_tier() {
    let bridge = create_error_correction(ErrorCorrectionType::Bridge);
    let frame = bridge.encode(b"elixir").unwrap();
    assert_eq!(bridge.decode(&frame), Ok(b"elixir".to_vec()));
    assert!(!bridge.has_errors(&frame));
    let classical = create_error_correction(ErrorCorrectionType::Classical);
    assert_eq!(classical.decode(&[1, 0x52, 8]), Ok(vec![1]));
    assert!(classical.has_errors(&[1, 0x52, 8]));
    let quantum = create_error_correction(ErrorCorrectionType::Quantum);
    assert_eq!(quantum.decode(&[0x51, 2, 4, 0, 0x45]), Err(ErrorCorrectionError::InvalidData));
    let comprehensive = create_error_correction(ErrorCorrectionType::Comprehensive);
    assert_eq!(comprehensive.encode(&[]), Err(ErrorCorrectionError::InvalidData));
    assert!(comprehensive.has_errors(&[]));
}

#[test]
fn every_tier_rejects_the_empty_payload() {
    for tier in [
        ErrorCorrectionType::Classical,
        ErrorCorrectionType::Bridge,
        ErrorCorrectionType::Quantum,
        ErrorCorrectionType::Comprehensive,
    ] {
        let codec = create_error_correction(tier);
        assert_eq!(codec.encode(b""), Err(ErrorCorrectionError::InvalidData));
    }
}

#[test]
fn error_kinds_are_told_apart() {
    let kinds = [
        ErrorCorrectionError::Uncorrectable,
        ErrorCorrectionError::InvalidData,
        ErrorCorrectionError::AlgorithmError,
        ErrorCorrectionError::UnsupportedType,
    ];
    for (i, first) in kinds.iter().enumerate() {
        for (j, second) in kinds.iter().enumerate() {
            assert_eq!(first == second, i == j);
        }
    }
    assert_eq!(format!("{:?}", ErrorCorrectionError::AlgorithmError), "AlgorithmError");
    assert_eq!(format!("{:?}", ErrorCorrectionError::UnsupportedType), "UnsupportedType");
}

#[test]
fn comprehensive_reads_every_frame_damaged() {
    let codec = ComprehensiveErrorCorrection::new();
    let bridge = BridgeErrorCorrection::new();
    let quantum = QuantumErrorCorrection::new();
    let classical = ClassicalErrorCorrection::new(8);
    // A frame that only the quantum tier could read as clean.
    let for_quantum = [0x51, 3, 1, 0, 0x45];
    assert!(!quantum.has_errors(&for_quantum));
    assert!(bridge.has_errors(&for_quantum));
    assert!(codec.has_errors(&for_quantum));
    // A frame that only the bridge tier could read as clean.
    let for_bridge = [0xB7, 1, 1, 5, 10, 0xE8];
    assert!(!bridge.has_errors(&for_bridge));
    assert!(quantum.has_errors(&for_bridge));
    assert!(codec.has_errors(&for_bridge));
    // A frame that the classical tier reads as clean.
    let for_classical = [1, 0x52, 16];
    assert!(!classical.has_errors(&for_classical));
    assert!(codec.has_errors(&for_classical));
    for first in 0..=255u8 {
        for len in 0..12usize {
            let frame = vec![first; len];
            assert!(codec.has_errors(&frame));
        }
    }
}

#[test]
fn comprehensive_layers_carry_the_defaults_of_their_tiers() {
    let payload: Vec<u8> = (1..=30).collect();
    let classical =
        create_error_correction(ErrorCorrectionType::Classical).encode(&payload).unwrap();
    // Eight per cent of thirty bytes are two parity bytes.
    assert_eq!(classical.len(), 30 + 2 + 2);
    assert_eq!(classical[30..32], [0x52, 8]);
    let bridge = create_error_correction(ErrorCorrectionType::Bridge).encode(&classical).unwrap();
    let quantum = create_error_correction(ErrorCorrectionType::Quantum).encode(&bridge).unwrap();
    assert_eq!(ComprehensiveErrorCorrection::new().encode(&payload), Ok(quantum.clone()));
    assert_eq!(
        create_error_correction(ErrorCorrectionType::Comprehensive).encode(&payload),
        Ok(quantum)
    );
    let with_ten = ClassicalErrorCorrection::new(10).encode(&payload).unwrap();
    assert_ne!(with_ten, classical);
}
