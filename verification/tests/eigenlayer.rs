use elxr_chain::eigenlayer::config::{
    ContractAddresses, FireblocksConfig, KeystoreConfig, SignerConfigWrapper, SignerKind,
};
use elxr_chain::eigenlayer::operator::{needs_refresh, OperatorInfo};
use elxr_chain::eigenlayer::types::{
    address_to_bytes, bytes_to_address, AVSIdentifier, Address, EigenlayerConversions,
    OperatorStatus, QuorumInfo, RestakeInfo, StakeAmount,
};
use std::path::PathBuf;

fn operator(status: OperatorStatus) -> RestakeInfo {
    RestakeInfo {
        operator_address: vec![0xAB; 20],
        restaked_amount: 32_000_000_000_000_000_000,
        public_key: vec![1, 2, 3],
        quorum_ids: vec![0, 2],
        status,
    }
}

#[test]
fn restake_info_conversions_keep_the_data() {
    let info = operator(OperatorStatus::Pending);
    assert_eq!(info.to_local(), info);
    assert_eq!(info.to_eigen(), info);
    assert_eq!(info.duplicate(), info);
}

#[test]
fn restake_info_knows_whether_it_is_active() {
    assert!(operator(OperatorStatus::Active).is_active());
    assert!(!operator(OperatorStatus::Pending).is_active());
    assert!(!operator(OperatorStatus::Paused).is_active());
    assert!(!operator(OperatorStatus::Removed).is_active());
}

#[test]
fn restake_info_knows_its_quorums() {
    let info = operator(OperatorStatus::Active);
    assert!(info.in_quorum(0));
    assert!(!info.in_quorum(1));
    assert!(info.in_quorum(2));
}

#[test]
fn addresses_have_twenty_bytes() {
    let bytes: Vec<u8> = (1..=20).collect();
    let address = bytes_to_address(&bytes).unwrap();
    assert_eq!(address.0[0], 1);
    assert_eq!(address.0[19], 20);
    assert_eq!(address_to_bytes(&address), bytes);
    assert_eq!(bytes_to_address(&[0u8; 19]), None);
    assert_eq!(bytes_to_address(&[0u8; 21]), None);
    assert_eq!(bytes_to_address(&[]), None);
    assert_eq!(bytes_to_address(&[0u8; 20]), Some(Address([0u8; 20])));
}

#[test]
fn plain_records_compare_by_value() {
    let avs = AVSIdentifier { registry_address: vec![1; 20], service_id: 7, name: "elxr".into() };
    assert_eq!(avs.clone(), avs);
    let quorum = QuorumInfo { quorum_id: 1, operator_count: 3, total_stake: 96, min_stake: 32 };
    assert_eq!(quorum.clone(), quorum);
    let stake = StakeAmount { token_address: vec![0; 20], amount: 5 };
    assert_eq!(stake.clone(), stake);
}

#[test]
fn operator_first_seen_starts_with_a_perfect_score() {
    let info = OperatorInfo::first_seen(operator(OperatorStatus::Active), 1_700_000_000);
    assert_eq!(info.restake_info, operator(OperatorStatus::Active));
    assert_eq!(info.last_updated, 1_700_000_000);
    assert_eq!(info.reliability_score, 100);
    assert_eq!(info.blocks_validated, 0);
    assert_eq!(info.slashes, 0);
}

#[test]
fn operator_seen_again_keeps_its_statistics() {
    let mut known = OperatorInfo::first_seen(operator(OperatorStatus::Pending), 10);
    known.record_slash(30, 20);
    known.record_successful_validation(30);
    let refreshed = known.seen_again(operator(OperatorStatus::Active), 40);
    assert_eq!(refreshed.restake_info, operator(OperatorStatus::Active));
    assert_eq!(refreshed.last_updated, 40);
    assert_eq!(refreshed.reliability_score, 71);
    assert_eq!(refreshed.blocks_validated, 1);
    assert_eq!(refreshed.slashes, 1);
}

#[test]
fn operator_validation_raises_the_score_up_to_a_hundred() {
    let mut info = OperatorInfo::first_seen(operator(OperatorStatus::Active), 0);
    info.record_successful_validation(5);
    assert_eq!(info.reliability_score, 100);
    assert_eq!(info.blocks_validated, 1);
    assert_eq!(info.last_updated, 5);
    info.reliability_score = 98;
    info.record_successful_validation(6);
    info.record_successful_validation(7);
    info.record_successful_validation(8);
    assert_eq!(info.reliability_score, 100);
    assert_eq!(info.blocks_validated, 4);
    assert_eq!(info.last_updated, 8);
}

#[test]
fn operator_slash_lowers_the_score_down_to_zero() {
    let mut info = OperatorInfo::first_seen(operator(OperatorStatus::Active), 0);
    info.record_slash(25, 3);
    assert_eq!(info.reliability_score, 75);
    assert_eq!(info.slashes, 1);
    assert_eq!(info.last_updated, 3);
    info.record_slash(200, 4);
    assert_eq!(info.reliability_score, 0);
    assert_eq!(info.slashes, 2);
    info.reliability_score = 40;
    info.record_slash(60, 5);
    assert_eq!(info.reliability_score, 0);
    info.reliability_score = 100;
    info.record_slash(255, 6);
    assert_eq!(info.reliability_score, 0);
    assert_eq!(info.slashes, 4);
}

#[test]
fn cache_is_stale_after_its_maximum_age() {
    assert!(!needs_refresh(1_000, 1_000, 300));
    assert!(!needs_refresh(1_300, 1_000, 300));
    assert!(needs_refresh(1_301, 1_000, 300));
    assert!(needs_refresh(1_000, 0, 300));
    assert!(!needs_refresh(u64::MAX, 0, u64::MAX));
}

fn keystore() -> KeystoreConfig {
    KeystoreConfig { path: PathBuf::from("/keys/operator.json"), password: "secret".into() }
}

fn fireblocks() -> FireblocksConfig {
    FireblocksConfig {
        api_key: "key".into(),
        private_key_path: PathBuf::from("/keys/fireblocks.pem"),
        api_url: "https://api.example".into(),
    }
}

#[test]
fn signer_selection_prefers_keystore_then_private_key_then_fireblocks() {
    let all = SignerConfigWrapper {
        keystore: Some(keystore()),
        private_key: Some("0x01".into()),
        fireblocks: Some(fireblocks()),
    };
    assert_eq!(all.signer_kind(), Some(SignerKind::Keystore));
    let two = SignerConfigWrapper {
        keystore: None,
        private_key: Some("0x01".into()),
        fireblocks: Some(fireblocks()),
    };
    assert_eq!(two.signer_kind(), Some(SignerKind::PrivateKey));
    let one =
        SignerConfigWrapper { keystore: None, private_key: None, fireblocks: Some(fireblocks()) };
    assert_eq!(one.signer_kind(), Some(SignerKind::Fireblocks));
    let none = SignerConfigWrapper { keystore: None, private_key: None, fireblocks: None };
    assert_eq!(none.signer_kind(), None);
}

#[test]
fn configuration_records_can_be_copied() {
    let addresses = ContractAddresses {
        delegation_manager: "0x01".into(),
        avs_directory: "0x02".into(),
        strategy_manager: "0x03".into(),
        elxr_registry_coordinator: "0x04".into(),
        bls_public_key_compendium: "0x05".into(),
        slasher: "0x06".into(),
    };
    let copy = addresses.clone();
    assert_eq!(copy.slasher, "0x06");
    assert_eq!(copy.delegation_manager, addresses.delegation_manager);
    let copy = keystore().clone();
    assert_eq!(copy.path, PathBuf::from("/keys/operator.json"));
    assert_eq!(copy.password, "secret");
}
