use elxr_chain::error_correction::bridge::bridge_error_correction::BridgeErrorCorrection;
use elxr_chain::pallet::types::{is_valid_stage_transition, FermentationStage};

const STAGES: [FermentationStage; 5] = [
    FermentationStage::Started,
    FermentationStage::Primary,
    FermentationStage::Secondary,
    FermentationStage::Aging,
    FermentationStage::Completed,
];

#[test]
fn stages_advance_one_step_at_a_time() {
    for (from, current) in STAGES.iter().enumerate() {
        for (to, next) in STAGES.iter().enumerate() {
            assert_eq!(is_valid_stage_transition(*current, *next), to == from + 1);
        }
    }
}

#[test]
fn stages_named_transitions() {
    assert!(is_valid_stage_transition(FermentationStage::Started, FermentationStage::Primary));
    assert!(is_valid_stage_transition(FermentationStage::Primary, FermentationStage::Secondary));
    assert!(is_valid_stage_transition(FermentationStage::Secondary, FermentationStage::Aging));
    assert!(is_valid_stage_transition(FermentationStage::Aging, FermentationStage::Completed));
    assert!(!is_valid_stage_transition(FermentationStage::Started, FermentationStage::Aging));
    assert!(!is_valid_stage_transition(FermentationStage::Primary, FermentationStage::Started));
    assert!(!is_valid_stage_transition(FermentationStage::Completed, FermentationStage::Started));
    assert!(!is_valid_stage_transition(FermentationStage::Aging, FermentationStage::Aging));
}

#[test]
fn pass_through_stage_hands_data_on_unchanged() {
    let stage = BridgeErrorCorrection::new(3, 2);
    assert_eq!(stage.encode_for_quantum_transmission(&[1, 2, 3]), vec![1, 2, 3]);
    assert_eq!(stage.encode_for_quantum_transmission(&[]), Vec::<u8>::new());
    assert_eq!(stage.decode_from_quantum_transmission(&[4, 5]), Ok(vec![4, 5]));
}

#[test]
fn pass_through_stage_compares_byte_for_byte() {
    let stage = BridgeErrorCorrection::new(3, 2);
    assert!(stage.verify_transmission(&[1, 2, 3], &[1, 2, 3]));
    assert!(stage.verify_transmission(&[], &[]));
    assert!(!stage.verify_transmission(&[1, 2, 3], &[1, 2, 4]));
    assert!(!stage.verify_transmission(&[1, 2, 3], &[1, 2]));
    assert!(!stage.verify_transmission(&[1, 2], &[1, 2, 3]));
    assert!(!stage.verify_transmission(&[0, 2, 3], &[1, 2, 3]));
}
