//! Scenario tests for the safety-rules engine.

use safety_rules::safety_rules::{PersistentSafetyStorage, SafetyData, SafetyRules};
use safety_rules::types::{
    BlockData, EpochChangeProof, EpochState, Error, LedgerInfo, LedgerInfoWithSignatures,
    QuorumCert, Timeout, TwoChainTimeout, TwoChainTimeoutCertificate, VoteProposal,
};

const AUTHOR: u64 = 1;

fn bootstrap_engine() -> SafetyRules {
    let storage = PersistentSafetyStorage {
        safety_data: SafetyData {
            epoch: 4,
            last_voted_round: 0,
            preferred_round: 0,
            last_vote: None,
        },
        author: AUTHOR,
    };
    let trusted = EpochState { epoch: 4, validators: vec![1, 2, 3] };
    SafetyRules::new(storage, trusted)
}

fn proof_4_to_5() -> EpochChangeProof {
    let next = EpochState { epoch: 5, validators: vec![1, 2, 3] };
    let li = LedgerInfo { epoch: 4, round: 0, version: 0, id: 0, next_epoch_state: Some(next) };
    EpochChangeProof {
        ledger_infos: vec![LedgerInfoWithSignatures { ledger_info: li, signers: vec![1, 2, 3] }],
    }
}

/// An engine initialized at epoch 5 with `last_voted_round = 10` and
/// `preferred_round = 8`.
fn engine_at_epoch_5() -> SafetyRules {
    let mut engine = bootstrap_engine();
    engine.initialize(&proof_4_to_5()).unwrap();
    engine
        .construct_and_sign_vote(&vote_proposal(10, 8))
        .unwrap();
    let state = engine.consensus_state().unwrap();
    assert_eq!(state.epoch, 5);
    assert_eq!(state.last_voted_round, 10);
    assert_eq!(state.preferred_round, 8);
    engine
}

fn vote_proposal(round: u64, qc_round: u64) -> VoteProposal {
    VoteProposal {
        block_data: BlockData {
            epoch: 5,
            round,
            author: AUTHOR,
            id: 100 + round,
            quorum_cert: QuorumCert { epoch: 5, round: qc_round },
        },
    }
}

#[test]
fn consensus_state_before_initialize_fails() {
    let engine = bootstrap_engine();
    assert_eq!(engine.consensus_state(), Err(Error::NotInitialized));
}

#[test]
fn operations_before_initialize_fail() {
    let mut engine = bootstrap_engine();
    assert_eq!(
        engine.construct_and_sign_vote(&vote_proposal(1, 0)),
        Err(Error::NotInitialized)
    );
    assert_eq!(
        engine.sign_timeout(&Timeout { epoch: 4, round: 1 }),
        Err(Error::NotInitialized)
    );
}

#[test]
fn initialize_advances_epoch_and_resets_rounds() {
    let mut engine = bootstrap_engine();
    engine.initialize(&proof_4_to_5()).unwrap();
    let state = engine.consensus_state().unwrap();
    assert_eq!(state.epoch, 5);
    assert_eq!(state.last_voted_round, 0);
    assert_eq!(state.preferred_round, 0);
    assert!(state.in_validator_set);
}

#[test]
fn vote_round_11_qc_9_succeeds_and_advances() {
    let mut engine = engine_at_epoch_5();
    let vote = engine
        .construct_and_sign_vote(&vote_proposal(11, 9))
        .unwrap();
    assert_eq!(vote.epoch, 5);
    assert_eq!(vote.round, 11);
    assert_eq!(vote.author, AUTHOR);
    let state = engine.consensus_state().unwrap();
    assert_eq!(state.last_voted_round, 11);
    assert_eq!(state.preferred_round, 9);
}

#[test]
fn second_vote_for_round_11_fails_and_changes_nothing() {
    let mut engine = engine_at_epoch_5();
    engine
        .construct_and_sign_vote(&vote_proposal(11, 9))
        .unwrap();
    assert_eq!(
        engine.construct_and_sign_vote(&vote_proposal(11, 9)),
        Err(Error::SafetyViolation)
    );
    let state = engine.consensus_state().unwrap();
    assert_eq!(state.last_voted_round, 11);
    assert_eq!(state.preferred_round, 9);
}

#[test]
fn vote_with_qc_below_preferred_round_fails_and_changes_nothing() {
    let mut engine = engine_at_epoch_5();
    engine
        .construct_and_sign_vote(&vote_proposal(11, 9))
        .unwrap();
    assert_eq!(
        engine.construct_and_sign_vote(&vote_proposal(12, 7)),
        Err(Error::SafetyViolation)
    );
    let state = engine.consensus_state().unwrap();
    assert_eq!(state.epoch, 5);
    assert_eq!(state.last_voted_round, 11);
    assert_eq!(state.preferred_round, 9);
}

#[test]
fn timeout_of_current_round_succeeds() {
    let mut engine = engine_at_epoch_5();
    engine
        .construct_and_sign_vote(&vote_proposal(11, 9))
        .unwrap();
    let sig = engine
        .sign_timeout(&Timeout { epoch: 5, round: 11 })
        .unwrap();
    assert_eq!(sig.signer, AUTHOR);
    assert_eq!(sig.round, 11);
    let state = engine.consensus_state().unwrap();
    assert_eq!(state.last_voted_round, 11);
}

#[test]
fn timeout_raises_last_voted_round() {
    let mut engine = engine_at_epoch_5();
    engine
        .sign_timeout(&Timeout { epoch: 5, round: 13 })
        .unwrap();
    let state = engine.consensus_state().unwrap();
    assert_eq!(state.last_voted_round, 13);
    assert_eq!(
        engine.sign_timeout(&Timeout { epoch: 5, round: 12 }),
        Err(Error::SafetyViolation)
    );
}

#[test]
fn initialize_with_stale_proof_fails_and_changes_nothing() {
    let mut engine = engine_at_epoch_5();
    assert_eq!(
        engine.initialize(&proof_4_to_5()),
        Err(Error::InvalidEpochChangeProof)
    );
    let state = engine.consensus_state().unwrap();
    assert_eq!(state.epoch, 5);
    assert_eq!(state.last_voted_round, 10);
    assert_eq!(state.preferred_round, 8);
}

#[test]
fn initialize_with_empty_proof_fails() {
    let mut engine = engine_at_epoch_5();
    assert_eq!(
        engine.initialize(&EpochChangeProof { ledger_infos: vec![] }),
        Err(Error::InvalidEpochChangeProof)
    );
}

#[test]
fn initialize_without_quorum_fails() {
    let mut engine = bootstrap_engine();
    let next = EpochState { epoch: 5, validators: vec![1, 2, 3] };
    let li = LedgerInfo { epoch: 4, round: 0, version: 0, id: 0, next_epoch_state: Some(next) };
    let proof = EpochChangeProof {
        ledger_infos: vec![LedgerInfoWithSignatures { ledger_info: li, signers: vec![1, 2] }],
    };
    assert_eq!(engine.initialize(&proof), Err(Error::InvalidEpochChangeProof));
    assert_eq!(engine.consensus_state(), Err(Error::NotInitialized));
}

#[test]
fn initialize_with_duplicate_signers_fails() {
    let mut engine = bootstrap_engine();
    let next = EpochState { epoch: 5, validators: vec![1, 2, 3] };
    let li = LedgerInfo { epoch: 4, round: 0, version: 0, id: 0, next_epoch_state: Some(next) };
    let proof = EpochChangeProof {
        ledger_infos: vec![LedgerInfoWithSignatures { ledger_info: li, signers: vec![1, 1, 2] }],
    };
    assert_eq!(engine.initialize(&proof), Err(Error::InvalidEpochChangeProof));
}

#[test]
fn initialize_chain_of_two_epochs() {
    let mut engine = bootstrap_engine();
    let li4 = LedgerInfo {
        epoch: 4,
        round: 0,
        version: 0,
        id: 0,
        next_epoch_state: Some(EpochState { epoch: 5, validators: vec![1, 2, 3] }),
    };
    let li5 = LedgerInfo {
        epoch: 5,
        round: 9,
        version: 90,
        id: 9,
        next_epoch_state: Some(EpochState { epoch: 6, validators: vec![1, 2] }),
    };
    let proof = EpochChangeProof {
        ledger_infos: vec![
            LedgerInfoWithSignatures { ledger_info: li4, signers: vec![1, 2, 3] },
            LedgerInfoWithSignatures { ledger_info: li5, signers: vec![1, 2, 3] },
        ],
    };
    engine.initialize(&proof).unwrap();
    let state = engine.consensus_state().unwrap();
    assert_eq!(state.epoch, 6);
    assert!(state.in_validator_set);
}

#[test]
fn leaving_the_validator_set_is_observable() {
    let mut engine = bootstrap_engine();
    let li4 = LedgerInfo {
        epoch: 4,
        round: 0,
        version: 0,
        id: 0,
        next_epoch_state: Some(EpochState { epoch: 5, validators: vec![2, 3] }),
    };
    let proof = EpochChangeProof {
        ledger_infos: vec![LedgerInfoWithSignatures { ledger_info: li4, signers: vec![1, 2, 3] }],
    };
    engine.initialize(&proof).unwrap();
    let state = engine.consensus_state().unwrap();
    assert_eq!(state.epoch, 5);
    assert!(!state.in_validator_set);
}

#[test]
fn vote_with_wrong_epoch_fails() {
    let mut engine = engine_at_epoch_5();
    let mut vp = vote_proposal(11, 9);
    vp.block_data.epoch = 4;
    assert_eq!(engine.construct_and_sign_vote(&vp), Err(Error::IncorrectEpoch));
}

#[test]
fn vote_with_qc_at_or_above_block_round_fails() {
    let mut engine = engine_at_epoch_5();
    assert_eq!(
        engine.construct_and_sign_vote(&vote_proposal(11, 11)),
        Err(Error::InvalidCertificate)
    );
    assert_eq!(
        engine.construct_and_sign_vote(&vote_proposal(11, 12)),
        Err(Error::InvalidCertificate)
    );
}

#[test]
fn vote_with_qc_from_other_epoch_fails() {
    let mut engine = engine_at_epoch_5();
    let mut vp = vote_proposal(11, 9);
    vp.block_data.quorum_cert.epoch = 4;
    assert_eq!(engine.construct_and_sign_vote(&vp), Err(Error::InvalidCertificate));
}

#[test]
fn sign_proposal_for_expected_proposer_succeeds() {
    let engine = engine_at_epoch_5();
    // validators are [1, 2, 3]; round 12 maps to validators[12 % 3] = 1.
    let block = BlockData {
        epoch: 5,
        round: 12,
        author: AUTHOR,
        id: 7,
        quorum_cert: QuorumCert { epoch: 5, round: 11 },
    };
    let sig = engine.sign_proposal(&block).unwrap();
    assert_eq!(sig.signer, AUTHOR);
    assert_eq!(sig.round, 12);
    assert_eq!(sig.id, 7);
}

#[test]
fn sign_proposal_for_wrong_round_fails() {
    let engine = engine_at_epoch_5();
    // round 13 maps to validators[13 % 3] = 2, not this validator.
    let block = BlockData {
        epoch: 5,
        round: 13,
        author: AUTHOR,
        id: 7,
        quorum_cert: QuorumCert { epoch: 5, round: 11 },
    };
    assert_eq!(engine.sign_proposal(&block), Err(Error::SafetyViolation));
}

#[test]
fn sign_proposal_does_not_touch_voting_history() {
    let mut engine = engine_at_epoch_5();
    let block = BlockData {
        epoch: 5,
        round: 12,
        author: AUTHOR,
        id: 7,
        quorum_cert: QuorumCert { epoch: 5, round: 11 },
    };
    engine.sign_proposal(&block).unwrap();
    let state = engine.consensus_state().unwrap();
    assert_eq!(state.last_voted_round, 10);
    assert_eq!(state.preferred_round, 8);
    assert_eq!(
        engine.sign_proposal(&BlockData { epoch: 4, ..block }),
        Err(Error::IncorrectEpoch)
    );
}

#[test]
fn two_chain_vote_tc_satisfies_lock() {
    let mut engine = engine_at_epoch_5();
    engine
        .construct_and_sign_vote(&vote_proposal(11, 9))
        .unwrap();
    // QC round 7 is below the preferred round 9, but the TC round 11
    // satisfies and advances the lock.
    let tc = TwoChainTimeoutCertificate { epoch: 5, round: 11 };
    let vote = engine
        .construct_and_sign_vote_two_chain(&vote_proposal(12, 7), Some(&tc))
        .unwrap();
    assert_eq!(vote.round, 12);
    let state = engine.consensus_state().unwrap();
    assert_eq!(state.last_voted_round, 12);
    assert_eq!(state.preferred_round, 11);
}

#[test]
fn two_chain_vote_without_tc_enforces_lock() {
    let mut engine = engine_at_epoch_5();
    engine
        .construct_and_sign_vote(&vote_proposal(11, 9))
        .unwrap();
    assert_eq!(
        engine.construct_and_sign_vote_two_chain(&vote_proposal(12, 7), None),
        Err(Error::SafetyViolation)
    );
}

#[test]
fn two_chain_timeout_justified_by_tc_succeeds() {
    let mut engine = engine_at_epoch_5();
    let timeout = TwoChainTimeout { epoch: 5, round: 12, hqc_round: 9 };
    let tc = TwoChainTimeoutCertificate { epoch: 5, round: 11 };
    let sig = engine.sign_timeout_with_qc(&timeout, Some(&tc)).unwrap();
    assert_eq!(sig.round, 12);
    let state = engine.consensus_state().unwrap();
    assert_eq!(state.last_voted_round, 12);
}

#[test]
fn two_chain_timeout_with_inconsistent_tc_fails() {
    let mut engine = engine_at_epoch_5();
    let timeout = TwoChainTimeout { epoch: 5, round: 13, hqc_round: 9 };
    // Neither the TC round 11 nor the embedded QC round 9 justifies
    // entering round 13.
    let tc = TwoChainTimeoutCertificate { epoch: 5, round: 11 };
    assert_eq!(
        engine.sign_timeout_with_qc(&timeout, Some(&tc)),
        Err(Error::InvalidCertificate)
    );
}

#[test]
fn two_chain_timeout_with_degenerate_qc_fails() {
    let mut engine = engine_at_epoch_5();
    let timeout = TwoChainTimeout { epoch: 5, round: 12, hqc_round: 12 };
    assert_eq!(
        engine.sign_timeout_with_qc(&timeout, None),
        Err(Error::InvalidCertificate)
    );
}

#[test]
fn sign_commit_vote_succeeds_and_leaves_state() {
    let mut engine = engine_at_epoch_5();
    let certified = LedgerInfoWithSignatures {
        ledger_info: LedgerInfo { epoch: 5, round: 9, version: 90, id: 9, next_epoch_state: None },
        signers: vec![1, 2, 3],
    };
    let new_li = LedgerInfo { epoch: 5, round: 9, version: 95, id: 19, next_epoch_state: None };
    let sig = engine.sign_commit_vote(&certified, &new_li).unwrap();
    assert_eq!(sig.round, 9);
    assert_eq!(sig.id, 19);
    let state = engine.consensus_state().unwrap();
    assert_eq!(state.last_voted_round, 10);
    assert_eq!(state.preferred_round, 8);
}

#[test]
fn sign_commit_vote_without_quorum_fails() {
    let engine = engine_at_epoch_5();
    let certified = LedgerInfoWithSignatures {
        ledger_info: LedgerInfo { epoch: 5, round: 9, version: 90, id: 9, next_epoch_state: None },
        signers: vec![1, 2],
    };
    let new_li = LedgerInfo { epoch: 5, round: 9, version: 95, id: 19, next_epoch_state: None };
    assert_eq!(
        engine.sign_commit_vote(&certified, &new_li),
        Err(Error::InvalidCertificate)
    );
}

#[test]
fn sign_commit_vote_regression_fails() {
    let engine = engine_at_epoch_5();
    let certified = LedgerInfoWithSignatures {
        ledger_info: LedgerInfo { epoch: 5, round: 9, version: 90, id: 9, next_epoch_state: None },
        signers: vec![1, 2, 3],
    };
    let older = LedgerInfo { epoch: 5, round: 9, version: 89, id: 19, next_epoch_state: None };
    assert_eq!(
        engine.sign_commit_vote(&certified, &older),
        Err(Error::InvalidCertificate)
    );
    let wrong_epoch = LedgerInfo { epoch: 6, round: 9, version: 95, id: 19, next_epoch_state: None };
    assert_eq!(
        engine.sign_commit_vote(&certified, &wrong_epoch),
        Err(Error::IncorrectEpoch)
    );
}

#[test]
fn votes_never_repeat_a_round_within_an_epoch() {
    let mut engine = engine_at_epoch_5();
    let mut rounds = Vec::new();
    let requests = [
        (11, 9),
        (11, 9),
        (12, 7),
        (12, 11),
        (13, 12),
        (13, 12),
        (12, 11),
    ];
    for (round, qc_round) in requests {
        if let Ok(vote) = engine.construct_and_sign_vote(&vote_proposal(round, qc_round)) {
            assert_eq!(vote.epoch, 5);
            assert!(!rounds.contains(&vote.round));
            rounds.push(vote.round);
        }
    }
    assert_eq!(rounds, vec![11, 12, 13]);
}
