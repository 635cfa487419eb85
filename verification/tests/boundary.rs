//! End-to-end tests of the serializing service and the client proxy.

use safety_rules::codec::{decode_response, encode_request};
use safety_rules::safety_rules::{PersistentSafetyStorage, Response, SafetyData, SafetyRules};
use safety_rules::serializer::{
    LocalService, SafetyRulesInput, SerializerClient, SerializerService,
};
use safety_rules::types::{
    BlockData, EpochChangeProof, EpochState, Error, LedgerInfo, LedgerInfoWithSignatures,
    QuorumCert, Timeout, TwoChainTimeoutCertificate, VoteProposal,
};

const AUTHOR: u64 = 1;

fn bootstrap_engine() -> SafetyRules {
    let storage = PersistentSafetyStorage {
        safety_data: SafetyData {
            epoch: 4,
            last_voted_round: 0,
            preferred_round: 0,
            last_vote: None,
        },
        author: AUTHOR,
    };
    let trusted = EpochState { epoch: 4, validators: vec![1, 2, 3] };
    SafetyRules::new(storage, trusted)
}

fn proof_4_to_5() -> EpochChangeProof {
    let next = EpochState { epoch: 5, validators: vec![1, 2, 3] };
    let li = LedgerInfo { epoch: 4, round: 0, version: 0, id: 0, next_epoch_state: Some(next) };
    EpochChangeProof {
        ledger_infos: vec![LedgerInfoWithSignatures { ledger_info: li, signers: vec![1, 2, 3] }],
    }
}

fn vote_proposal(round: u64, qc_round: u64) -> VoteProposal {
    VoteProposal {
        block_data: BlockData {
            epoch: 5,
            round,
            author: AUTHOR,
            id: 100 + round,
            quorum_cert: QuorumCert { epoch: 5, round: qc_round },
        },
    }
}

#[test]
fn service_executes_encoded_requests() {
    let mut service = SerializerService::new(bootstrap_engine());
    let request = encode_request(&SafetyRulesInput::Initialize(proof_4_to_5()));
    let reply = service.handle_message(request).unwrap();
    assert_eq!(decode_response(&reply), Ok(Response::Unit));

    let request = encode_request(&SafetyRulesInput::ConsensusState);
    let reply = service.handle_message(request).unwrap();
    match decode_response(&reply) {
        Ok(Response::State(state)) => {
            assert_eq!(state.epoch, 5);
            assert_eq!(state.last_voted_round, 0);
        },
        other => panic!("unexpected reply: {:?}", other),
    }
}

#[test]
fn service_reports_engine_errors_in_band() {
    let mut service = SerializerService::new(bootstrap_engine());
    let request = encode_request(&SafetyRulesInput::SignTimeout(Timeout { epoch: 4, round: 1 }));
    let reply = service.handle_message(request).unwrap();
    assert_eq!(
        decode_response(&reply),
        Ok(Response::Failure(Error::NotInitialized))
    );
}

#[test]
fn service_rejects_malformed_bytes_without_touching_the_engine() {
    let mut service = SerializerService::new(bootstrap_engine());
    assert_eq!(
        service.handle_message(vec![1, 2, 3]),
        Err(Error::SerializationError)
    );
    let request = encode_request(&SafetyRulesInput::Initialize(proof_4_to_5()));
    let reply = service.handle_message(request).unwrap();
    assert_eq!(decode_response(&reply), Ok(Response::Unit));
}

#[test]
fn client_runs_the_full_scenario_through_the_boundary() {
    let service = SerializerService::new(bootstrap_engine());
    let mut client = SerializerClient::new(service);

    client.initialize(&proof_4_to_5()).unwrap();
    client.construct_and_sign_vote(&vote_proposal(10, 8)).unwrap();

    let state = client.consensus_state().unwrap();
    assert_eq!(state.epoch, 5);
    assert_eq!(state.last_voted_round, 10);
    assert_eq!(state.preferred_round, 8);

    let vote = client.construct_and_sign_vote(&vote_proposal(11, 9)).unwrap();
    assert_eq!(vote.round, 11);
    assert_eq!(
        client.construct_and_sign_vote(&vote_proposal(11, 9)),
        Err(Error::SafetyViolation)
    );
    assert_eq!(
        client.construct_and_sign_vote(&vote_proposal(12, 7)),
        Err(Error::SafetyViolation)
    );

    let sig = client.sign_timeout(&Timeout { epoch: 5, round: 11 }).unwrap();
    assert_eq!(sig.round, 11);

    let state = client.consensus_state().unwrap();
    assert_eq!(state.last_voted_round, 11);
    assert_eq!(state.preferred_round, 9);
}

#[test]
fn client_signs_proposals_and_commit_votes() {
    let service = SerializerService::new(bootstrap_engine());
    let mut client = SerializerClient::new(service);
    client.initialize(&proof_4_to_5()).unwrap();

    let block = BlockData {
        epoch: 5,
        round: 12,
        author: AUTHOR,
        id: 7,
        quorum_cert: QuorumCert { epoch: 5, round: 11 },
    };
    let sig = client.sign_proposal(&block).unwrap();
    assert_eq!(sig.signer, AUTHOR);

    let certified = LedgerInfoWithSignatures {
        ledger_info: LedgerInfo { epoch: 5, round: 9, version: 90, id: 9, next_epoch_state: None },
        signers: vec![1, 2, 3],
    };
    let new_li = LedgerInfo { epoch: 5, round: 9, version: 95, id: 19, next_epoch_state: None };
    let sig = client.sign_commit_vote(certified, new_li).unwrap();
    assert_eq!(sig.id, 19);
}

#[test]
fn client_carries_two_chain_operations() {
    let service = SerializerService::new(bootstrap_engine());
    let mut client = SerializerClient::new(service);
    client.initialize(&proof_4_to_5()).unwrap();
    client.construct_and_sign_vote(&vote_proposal(10, 8)).unwrap();

    let tc = TwoChainTimeoutCertificate { epoch: 5, round: 11 };
    let vote = client
        .construct_and_sign_vote_two_chain(&vote_proposal(12, 7), Some(&tc))
        .unwrap();
    assert_eq!(vote.round, 12);

    let timeout = safety_rules::types::TwoChainTimeout { epoch: 5, round: 13, hqc_round: 12 };
    let sig = client.sign_timeout_with_qc(&timeout, None).unwrap();
    assert_eq!(sig.round, 13);

    let state = client.consensus_state().unwrap();
    assert_eq!(state.last_voted_round, 13);
    assert_eq!(state.preferred_round, 11);
}

#[test]
fn client_surfaces_not_initialized_unchanged() {
    let service = SerializerService::new(bootstrap_engine());
    let mut client = SerializerClient::new(service);
    assert_eq!(client.consensus_state(), Err(Error::NotInitialized));
    assert_eq!(
        client.construct_and_sign_vote(&vote_proposal(1, 0)),
        Err(Error::NotInitialized)
    );
}

#[test]
fn new_client_accepts_a_supplied_transport() {
    let service = SerializerService::new(bootstrap_engine());
    let transport = LocalService { serializer_service: service };
    let mut client = SerializerClient::new_client(transport);
    client.initialize(&proof_4_to_5()).unwrap();
    let state = client.consensus_state().unwrap();
    assert_eq!(state.epoch, 5);
}

#[test]
fn client_surfaces_initialize_failures() {
    let service = SerializerService::new(bootstrap_engine());
    let mut client = SerializerClient::new(service);
    client.initialize(&proof_4_to_5()).unwrap();
    assert_eq!(
        client.initialize(&proof_4_to_5()),
        Err(Error::InvalidEpochChangeProof)
    );
}
