//! Round-trip and rejection tests for the wire codec.

use safety_rules::codec::{decode_request, decode_response, encode_request, encode_response};
use safety_rules::safety_rules::Response;
use safety_rules::serializer::SafetyRulesInput;
use safety_rules::types::{
    BlockData, ConsensusState, EpochChangeProof, EpochState, Error, LedgerInfo,
    LedgerInfoWithSignatures, QuorumCert, Signature, Timeout, TwoChainTimeout,
    TwoChainTimeoutCertificate, Vote, VoteProposal,
};

fn sample_block() -> BlockData {
    BlockData {
        epoch: 5,
        round: 11,
        author: 1,
        id: 111,
        quorum_cert: QuorumCert { epoch: 5, round: 9 },
    }
}

fn sample_liws() -> LedgerInfoWithSignatures {
    LedgerInfoWithSignatures {
        ledger_info: LedgerInfo {
            epoch: 4,
            round: 8,
            version: 80,
            id: 40,
            next_epoch_state: Some(EpochState { epoch: 5, validators: vec![1, 2, 3] }),
        },
        signers: vec![1, 2, 3],
    }
}

fn request_round_trips(input: SafetyRulesInput) {
    let bytes = encode_request(&input);
    assert_eq!(decode_request(&bytes), Ok(input));
}

#[test]
fn consensus_state_request_round_trips() {
    request_round_trips(SafetyRulesInput::ConsensusState);
}

#[test]
fn initialize_request_round_trips() {
    request_round_trips(SafetyRulesInput::Initialize(EpochChangeProof {
        ledger_infos: vec![
            sample_liws(),
            LedgerInfoWithSignatures {
                ledger_info: LedgerInfo {
                    epoch: 5,
                    round: 2,
                    version: 20,
                    id: 50,
                    next_epoch_state: None,
                },
                signers: vec![],
            },
        ],
    }));
    request_round_trips(SafetyRulesInput::Initialize(EpochChangeProof { ledger_infos: vec![] }));
}

#[test]
fn vote_request_round_trips() {
    request_round_trips(SafetyRulesInput::ConstructAndSignVote(VoteProposal {
        block_data: sample_block(),
    }));
}

#[test]
fn sign_proposal_request_round_trips() {
    request_round_trips(SafetyRulesInput::SignProposal(sample_block()));
}

#[test]
fn sign_timeout_request_round_trips() {
    request_round_trips(SafetyRulesInput::SignTimeout(Timeout { epoch: 5, round: 11 }));
}

#[test]
fn sign_timeout_with_qc_request_round_trips() {
    let timeout = TwoChainTimeout { epoch: 5, round: 12, hqc_round: 9 };
    request_round_trips(SafetyRulesInput::SignTimeoutWithQC(timeout, None));
    request_round_trips(SafetyRulesInput::SignTimeoutWithQC(
        timeout,
        Some(TwoChainTimeoutCertificate { epoch: 5, round: 11 }),
    ));
}

#[test]
fn two_chain_vote_request_round_trips() {
    let vp = VoteProposal { block_data: sample_block() };
    request_round_trips(SafetyRulesInput::ConstructAndSignVoteTwoChain(vp, None));
    request_round_trips(SafetyRulesInput::ConstructAndSignVoteTwoChain(
        vp,
        Some(TwoChainTimeoutCertificate { epoch: 5, round: 10 }),
    ));
}

#[test]
fn sign_commit_vote_request_round_trips() {
    request_round_trips(SafetyRulesInput::SignCommitVote(
        sample_liws(),
        LedgerInfo { epoch: 5, round: 9, version: 95, id: 19, next_epoch_state: None },
    ));
}

fn response_round_trips(resp: Response) {
    let bytes = encode_response(&resp);
    assert_eq!(decode_response(&bytes), Ok(resp));
}

#[test]
fn success_responses_round_trip() {
    response_round_trips(Response::State(ConsensusState {
        epoch: 5,
        last_voted_round: 10,
        preferred_round: 8,
        in_validator_set: true,
    }));
    response_round_trips(Response::State(ConsensusState {
        epoch: 5,
        last_voted_round: 10,
        preferred_round: 8,
        in_validator_set: false,
    }));
    response_round_trips(Response::Unit);
    response_round_trips(Response::Vote(Vote {
        author: 1,
        epoch: 5,
        round: 11,
        id: 111,
        signature: Signature { signer: 1, epoch: 5, round: 11, id: 111 },
    }));
    response_round_trips(Response::Sig(Signature { signer: 1, epoch: 5, round: 12, id: 0 }));
}

#[test]
fn every_error_kind_round_trips() {
    let errors = [
        Error::NotInitialized,
        Error::InvalidEpochChangeProof,
        Error::IncorrectEpoch,
        Error::SafetyViolation,
        Error::InvalidCertificate,
        Error::SerializationError,
        Error::SecureStorageError,
        Error::InternalError,
    ];
    for e in errors {
        response_round_trips(Response::Failure(e));
    }
}

#[test]
fn unaligned_bytes_are_rejected() {
    let bytes = vec![0u8; 7];
    assert_eq!(decode_request(&bytes), Err(Error::SerializationError));
    assert_eq!(decode_response(&bytes), Err(Error::SerializationError));
}

#[test]
fn empty_bytes_are_rejected() {
    let bytes: Vec<u8> = vec![];
    assert_eq!(decode_request(&bytes), Err(Error::SerializationError));
    assert_eq!(decode_response(&bytes), Err(Error::SerializationError));
}

#[test]
fn unknown_tag_is_rejected() {
    let mut bytes = vec![0u8; 8];
    bytes[0] = 99;
    assert_eq!(decode_request(&bytes), Err(Error::SerializationError));
    assert_eq!(decode_response(&bytes), Err(Error::SerializationError));
}

#[test]
fn truncated_request_is_rejected() {
    let input = SafetyRulesInput::SignProposal(sample_block());
    let mut bytes = encode_request(&input);
    bytes.truncate(bytes.len() - 8);
    assert_eq!(decode_request(&bytes), Err(Error::SerializationError));
}

#[test]
fn trailing_words_are_rejected() {
    let input = SafetyRulesInput::ConsensusState;
    let mut bytes = encode_request(&input);
    bytes.extend_from_slice(&[0u8; 8]);
    assert_eq!(decode_request(&bytes), Err(Error::SerializationError));
}

#[test]
fn unknown_error_code_is_rejected() {
    // A failure response whose error code lies outside the taxonomy.
    let mut bytes = encode_response(&Response::Failure(Error::InternalError));
    bytes[8] = 200;
    assert_eq!(decode_response(&bytes), Err(Error::SerializationError));
}

#[test]
fn encoding_is_deterministic() {
    let input = SafetyRulesInput::Initialize(EpochChangeProof {
        ledger_infos: vec![sample_liws()],
    });
    assert_eq!(encode_request(&input), encode_request(&input));
}
