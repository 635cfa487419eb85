//! The request/response isolation boundary: a serializing service that owns
//! the engine and speaks bytes, and a client proxy that exposes the typed
//! operations over a pluggable byte transport.

use vstd::prelude::*;

use crate::codec::{
    decode_request, decode_response, encode_request, encode_response, spec_decode_request,
    spec_encode_response,
};
use crate::safety_rules::{step, Response, SafetyRules, SafetyRulesView};
use crate::types::{
    BlockData, ConsensusState, EpochChangeProof, EpochChangeProofView, Error, LedgerInfo,
    LedgerInfoView, LedgerInfoWithSignatures, LedgerInfoWithSignaturesView, Signature, Timeout,
    TwoChainTimeout, TwoChainTimeoutCertificate, Vote, VoteProposal,
};

verus! {

/// The tagged union of engine operations crossing the trust boundary: one
/// variant per operation, carrying exactly that operation's arguments.
#[derive(Clone, Debug, PartialEq, Eq)]
pub enum SafetyRulesInput {
    ConsensusState,
    Initialize(EpochChangeProof),
    ConstructAndSignVote(VoteProposal),
    SignProposal(crate::types::BlockData),
    SignTimeout(Timeout),
    SignTimeoutWithQC(TwoChainTimeout, Option<TwoChainTimeoutCertificate>),
    ConstructAndSignVoteTwoChain(VoteProposal, Option<TwoChainTimeoutCertificate>),
    SignCommitVote(LedgerInfoWithSignatures, LedgerInfo),
}

/// Mathematical model of a [`SafetyRulesInput`].
pub enum SafetyRulesInputView {
    ConsensusState,
    Initialize(EpochChangeProofView),
    ConstructAndSignVote(VoteProposal),
    SignProposal(crate::types::BlockData),
    SignTimeout(Timeout),
    SignTimeoutWithQC(TwoChainTimeout, Option<TwoChainTimeoutCertificate>),
    ConstructAndSignVoteTwoChain(VoteProposal, Option<TwoChainTimeoutCertificate>),
    SignCommitVote(LedgerInfoWithSignaturesView, LedgerInfoView),
}

impl View for SafetyRulesInput {
    type V = SafetyRulesInputView;

    open spec fn view(&self) -> SafetyRulesInputView {
        match self {
            SafetyRulesInput::ConsensusState => SafetyRulesInputView::ConsensusState,
            SafetyRulesInput::Initialize(p) => SafetyRulesInputView::Initialize(p@),
            SafetyRulesInput::ConstructAndSignVote(vp) => SafetyRulesInputView::ConstructAndSignVote(*vp),
            SafetyRulesInput::SignProposal(b) => SafetyRulesInputView::SignProposal(*b),
            SafetyRulesInput::SignTimeout(t) => SafetyRulesInputView::SignTimeout(*t),
            SafetyRulesInput::SignTimeoutWithQC(t, tc) => SafetyRulesInputView::SignTimeoutWithQC(*t, *tc),
            SafetyRulesInput::ConstructAndSignVoteTwoChain(vp, tc) => SafetyRulesInputView::ConstructAndSignVoteTwoChain(*vp, *tc),
            SafetyRulesInput::SignCommitVote(liws, li) => SafetyRulesInputView::SignCommitVote(liws@, li@),
        }
    }
}

/// The serializing service: sole owner of one engine instance. Because it
/// owns the engine outright and `handle_message` takes it exclusively, two
/// requests can never interleave against the same persistent state.
pub struct SerializerService {
    internal: SafetyRules,
}

impl View for SerializerService {
    type V = SafetyRulesView;

    closed spec fn view(&self) -> SafetyRulesView {
        self.internal@
    }
}

impl SerializerService {
    /// Wraps an engine, taking exclusive ownership of it.
    pub fn new(internal: SafetyRules) -> (r: SerializerService)
        ensures
            r@ == internal@,
    {
        SerializerService { internal }
    }

    /// One full exchange: decode the request bytes, dispatch the typed
    /// operation to the engine, encode the typed result. Malformed request
    /// bytes are reported as a serialization error and do not touch the
    /// engine; an engine error travels back inside the encoded response.
    pub fn handle_message(&mut self, input_message: Vec<u8>) -> (r: Result<Vec<u8>, Error>)
        ensures
            (match spec_decode_request(input_message@) {
                None => final(self)@ == old(self)@ && r == Err::<Vec<u8>, Error>(
                    Error::SerializationError,
                ),
                Some(req) => ({
                    let (s2, resp) = step(old(self)@, req);
                    &&& final(self)@ == s2
                    &&& r matches Ok(out) && out@ == spec_encode_response(resp)
                }),
            }),
    {
        let input = match decode_request(&input_message) {
            Ok(v) => v,
            Err(e) => {
                return Err(e);
            },
        };
        let output: Response = match &input {
            SafetyRulesInput::ConsensusState => match self.internal.consensus_state() {
                Ok(cs) => Response::State(cs),
                Err(e) => Response::Failure(e),
            },
            SafetyRulesInput::Initialize(li) => match self.internal.initialize(li) {
                Ok(u) => Response::Unit,
                Err(e) => Response::Failure(e),
            },
            SafetyRulesInput::ConstructAndSignVote(vote_proposal) => match self
                .internal
                .construct_and_sign_vote(vote_proposal) {
                Ok(v) => Response::Vote(v),
                Err(e) => Response::Failure(e),
            },
            SafetyRulesInput::SignProposal(block_data) => match self.internal.sign_proposal(
                block_data,
            ) {
                Ok(s) => Response::Sig(s),
                Err(e) => Response::Failure(e),
            },
            SafetyRulesInput::SignTimeout(timeout) => match self.internal.sign_timeout(timeout) {
                Ok(s) => Response::Sig(s),
                Err(e) => Response::Failure(e),
            },
            SafetyRulesInput::SignTimeoutWithQC(timeout, maybe_tc) => match self
                .internal
                .sign_timeout_with_qc(timeout, maybe_tc.as_ref()) {
                Ok(s) => Response::Sig(s),
                Err(e) => Response::Failure(e),
            },
            SafetyRulesInput::ConstructAndSignVoteTwoChain(vote_proposal, maybe_tc) => match self
                .internal
                .construct_and_sign_vote_two_chain(vote_proposal, maybe_tc.as_ref()) {
                Ok(v) => Response::Vote(v),
                Err(e) => Response::Failure(e),
            },
            SafetyRulesInput::SignCommitVote(ledger_info, new_ledger_info) => match self
                .internal
                .sign_commit_vote(ledger_info, new_ledger_info) {
                Ok(s) => Response::Sig(s),
                Err(e) => Response::Failure(e),
            },
        };
        Ok(encode_response(&output))
    }
}

/// The transport capability behind the client proxy: carry one encoded
/// request across the trust boundary, bring back the encoded response.
///
/// The contract is the correctness requirement every transport variant must
/// meet: a successful exchange is exactly one engine step on the decoded
/// request, with the response bytes encoding that step's result; a failed
/// exchange leaves the engine either unstepped or stepped at most once with
/// the response lost. A transport that is `infallible` — one that cannot
/// lose an exchange, such as the in-process one — owes the successful
/// outcome on every call, and stays infallible.
pub trait TSerializerClient: Sized {
    /// The engine state behind this transport.
    spec fn engine(&self) -> SafetyRulesView;

    /// Whether this transport can never lose an exchange.
    spec fn infallible(&self) -> bool;

    fn request(&mut self, input: SafetyRulesInput) -> (r: Result<Vec<u8>, Error>)
        ensures
            ({
                let (s2, resp) = step(old(self).engine(), input@);
                match r {
                    Ok(bytes) => final(self).engine() == s2 && bytes@ == spec_encode_response(
                        resp,
                    ),
                    Err(e) => final(self).engine() == old(self).engine() || final(self).engine()
                        == s2,
                }
            }),
            old(self).infallible() ==> r is Ok && final(self).infallible(),
    ;
}

/// The in-process transport: it owns the serializing service, so the
/// exclusive-access guarantee holds by construction.
pub struct LocalService {
    pub serializer_service: SerializerService,
}

impl TSerializerClient for LocalService {
    closed spec fn engine(&self) -> SafetyRulesView {
        self.serializer_service@
    }

    open spec fn infallible(&self) -> bool {
        true
    }

    fn request(&mut self, input: SafetyRulesInput) -> (r: Result<Vec<u8>, Error>)
        ensures
            r matches Ok(bytes) && bytes@ == spec_encode_response(
                step(old(self).engine(), input@).1,
            ),
            final(self).engine() == step(old(self).engine(), input@).0,
    {
        proof {
            crate::codec::lemma_input_bounded(input);
            crate::codec::lemma_request_round_trip(input@);
        }
        let input_message = encode_request(&input);
        self.serializer_service.handle_message(input_message)
    }
}

/// The client proxy: exposes the engine's typed operations, but carries
/// each of them as encoded bytes through its transport. Every call is one
/// engine step at most; a returned success value or engine error is exactly
/// what that step produced, and over an infallible transport every call
/// returns exactly the engine step's own result — the success value, or the
/// engine's error unchanged in kind.
pub struct SerializerClient<T: TSerializerClient> {
    service: T,
}

impl SerializerClient<LocalService> {
    /// A client over the in-process transport, taking exclusive ownership
    /// of the serializing service.
    pub fn new(serializer_service: SerializerService) -> (r: SerializerClient<LocalService>)
        ensures
            r.engine() == serializer_service@,
            r.infallible(),
    {
        let service = LocalService { serializer_service };
        SerializerClient { service }
    }
}

impl<T: TSerializerClient> SerializerClient<T> {
    /// A client over any transport meeting the boundary contract.
    pub fn new_client(service: T) -> (r: SerializerClient<T>)
        ensures
            r.engine() == service.engine(),
            r.infallible() == service.infallible(),
    {
        SerializerClient { service }
    }

    /// The engine state behind this client's transport.
    pub closed spec fn engine(&self) -> SafetyRulesView {
        self.service.engine()
    }

    /// Whether this client's transport can never lose an exchange.
    pub closed spec fn infallible(&self) -> bool {
        self.service.infallible()
    }

    fn request(&mut self, input: SafetyRulesInput) -> (r: Result<Vec<u8>, Error>)
        ensures
            ({
                let (s2, resp) = step(old(self).engine(), input@);
                match r {
                    Ok(bytes) => final(self).engine() == s2 && bytes@ == spec_encode_response(
                        resp,
                    ),
                    Err(e) => final(self).engine() == old(self).engine() || final(self).engine()
                        == s2,
                }
            }),
            old(self).infallible() ==> r is Ok && final(self).infallible(),
    {
        self.service.request(input)
    }

    /// Reads the engine's observable state through the boundary.
    pub fn consensus_state(&mut self) -> (r: Result<ConsensusState, Error>)
        ensures
            ({
                let (s2, resp) = step(old(self).engine(), SafetyRulesInputView::ConsensusState);
                match r {
                    Ok(cs) => final(self).engine() == s2 && resp == Response::State(cs),
                    Err(e) => final(self).engine() == old(self).engine() || final(self).engine()
                        == s2,
                }
            }),
            old(self).infallible() ==> ({
                let (s2, resp) = step(old(self).engine(), SafetyRulesInputView::ConsensusState);
                &&& final(self).engine() == s2
                &&& final(self).infallible()
                &&& (resp matches Response::State(cs) ==> r == Ok::<ConsensusState, Error>(cs))
                &&& (resp matches Response::Failure(e) ==> r == Err::<ConsensusState, Error>(e))
            }),
    {
        let response = match self.request(SafetyRulesInput::ConsensusState) {
            Ok(b) => b,
            Err(e) => {
                return Err(e);
            },
        };
        proof {
            let (s2, resp) = step(old(self).engine(), SafetyRulesInputView::ConsensusState);
            crate::codec::lemma_response_round_trip(resp);
        }
        match decode_response(&response) {
            Ok(Response::State(cs)) => Ok(cs),
            Ok(Response::Failure(e)) => Err(e),
            Ok(_) => Err(Error::SerializationError),
            Err(e) => Err(e),
        }
    }

    /// Carries an epoch-change proof to the engine.
    pub fn initialize(&mut self, proof: &EpochChangeProof) -> (r: Result<(), Error>)
        ensures
            ({
                let (s2, resp) = step(
                    old(self).engine(),
                    SafetyRulesInputView::Initialize(proof@),
                );
                match r {
                    Ok(u) => final(self).engine() == s2 && resp == Response::Unit,
                    Err(e) => final(self).engine() == old(self).engine() || final(self).engine()
                        == s2,
                }
            }),
            old(self).infallible() ==> ({
                let (s2, resp) = step(
                    old(self).engine(),
                    SafetyRulesInputView::Initialize(proof@),
                );
                &&& final(self).engine() == s2
                &&& final(self).infallible()
                &&& (resp == Response::Unit ==> r == Ok::<(), Error>(()))
                &&& (resp matches Response::Failure(e) ==> r == Err::<(), Error>(e))
            }),
    {
        let owned = crate::types::clone_proof(proof);
        let response = match self.request(SafetyRulesInput::Initialize(owned)) {
            Ok(b) => b,
            Err(e) => {
                return Err(e);
            },
        };
        proof {
            let (s2, resp) = step(old(self).engine(), SafetyRulesInputView::Initialize(proof@));
            crate::codec::lemma_response_round_trip(resp);
        }
        match decode_response(&response) {
            Ok(Response::Unit) => Ok(()),
            Ok(Response::Failure(e)) => Err(e),
            Ok(_) => Err(Error::SerializationError),
            Err(e) => Err(e),
        }
    }

    /// Submits a vote proposal under the single-chain voting rule.
    pub fn construct_and_sign_vote(&mut self, vote_proposal: &VoteProposal) -> (r: Result<
        Vote,
        Error,
    >)
        ensures
            ({
                let (s2, resp) = step(
                    old(self).engine(),
                    SafetyRulesInputView::ConstructAndSignVote(*vote_proposal),
                );
                match r {
                    Ok(v) => final(self).engine() == s2 && resp == Response::Vote(v),
                    Err(e) => final(self).engine() == old(self).engine() || final(self).engine()
                        == s2,
                }
            }),
            old(self).infallible() ==> ({
                let (s2, resp) = step(
                    old(self).engine(),
                    SafetyRulesInputView::ConstructAndSignVote(*vote_proposal),
                );
                &&& final(self).engine() == s2
                &&& final(self).infallible()
                &&& (resp matches Response::Vote(v) ==> r == Ok::<Vote, Error>(v))
                &&& (resp matches Response::Failure(e) ==> r == Err::<Vote, Error>(e))
            }),
    {
        let response = match self.request(
            SafetyRulesInput::ConstructAndSignVote(*vote_proposal),
        ) {
            Ok(b) => b,
            Err(e) => {
                return Err(e);
            },
        };
        proof {
            let (s2, resp) = step(
                old(self).engine(),
                SafetyRulesInputView::ConstructAndSignVote(*vote_proposal),
            );
            crate::codec::lemma_response_round_trip(resp);
        }
        match decode_response(&response) {
            Ok(Response::Vote(v)) => Ok(v),
            Ok(Response::Failure(e)) => Err(e),
            Ok(_) => Err(Error::SerializationError),
            Err(e) => Err(e),
        }
    }

    /// Asks for a proposal signature over the block candidate.
    pub fn sign_proposal(&mut self, block_data: &BlockData) -> (r: Result<Signature, Error>)
        ensures
            ({
                let (s2, resp) = step(
                    old(self).engine(),
                    SafetyRulesInputView::SignProposal(*block_data),
                );
                match r {
                    Ok(sig) => final(self).engine() == s2 && resp == Response::Sig(sig),
                    Err(e) => final(self).engine() == old(self).engine() || final(self).engine()
                        == s2,
                }
            }),
            old(self).infallible() ==> ({
                let (s2, resp) = step(
                    old(self).engine(),
                    SafetyRulesInputView::SignProposal(*block_data),
                );
                &&& final(self).engine() == s2
                &&& final(self).infallible()
                &&& (resp matches Response::Sig(sig) ==> r == Ok::<Signature, Error>(sig))
                &&& (resp matches Response::Failure(e) ==> r == Err::<Signature, Error>(e))
            }),
    {
        let response = match self.request(SafetyRulesInput::SignProposal(*block_data)) {
            Ok(b) => b,
            Err(e) => {
                return Err(e);
            },
        };
        proof {
            let (s2, resp) = step(
                old(self).engine(),
                SafetyRulesInputView::SignProposal(*block_data),
            );
            crate::codec::lemma_response_round_trip(resp);
        }
        match decode_response(&response) {
            Ok(Response::Sig(s)) => Ok(s),
            Ok(Response::Failure(e)) => Err(e),
            Ok(_) => Err(Error::SerializationError),
            Err(e) => Err(e),
        }
    }

    /// Asks for a signature over a single-chain round timeout.
    pub fn sign_timeout(&mut self, timeout: &Timeout) -> (r: Result<Signature, Error>)
        ensures
            ({
                let (s2, resp) = step(
                    old(self).engine(),
                    SafetyRulesInputView::SignTimeout(*timeout),
                );
                match r {
                    Ok(sig) => final(self).engine() == s2 && resp == Response::Sig(sig),
                    Err(e) => final(self).engine() == old(self).engine() || final(self).engine()
                        == s2,
                }
            }),
            old(self).infallible() ==> ({
                let (s2, resp) = step(
                    old(self).engine(),
                    SafetyRulesInputView::SignTimeout(*timeout),
                );
                &&& final(self).engine() == s2
                &&& final(self).infallible()
                &&& (resp matches Response::Sig(sig) ==> r == Ok::<Signature, Error>(sig))
                &&& (resp matches Response::Failure(e) ==> r == Err::<Signature, Error>(e))
            }),
    {
        let response = match self.request(SafetyRulesInput::SignTimeout(*timeout)) {
            Ok(b) => b,
            Err(e) => {
                return Err(e);
            },
        };
        proof {
            let (s2, resp) = step(old(self).engine(), SafetyRulesInputView::SignTimeout(*timeout));
            crate::codec::lemma_response_round_trip(resp);
        }
        match decode_response(&response) {
            Ok(Response::Sig(s)) => Ok(s),
            Ok(Response::Failure(e)) => Err(e),
            Ok(_) => Err(Error::SerializationError),
            Err(e) => Err(e),
        }
    }

    /// Asks for a signature over a two-chain round timeout, with an
    /// optional justifying timeout certificate.
    pub fn sign_timeout_with_qc(
        &mut self,
        timeout: &TwoChainTimeout,
        timeout_cert: Option<&TwoChainTimeoutCertificate>,
    ) -> (r: Result<Signature, Error>)
        ensures
            ({
                let (s2, resp) = step(
                    old(self).engine(),
                    SafetyRulesInputView::SignTimeoutWithQC(
                        *timeout,
                        crate::safety_rules::opt_tc_view(timeout_cert),
                    ),
                );
                match r {
                    Ok(sig) => final(self).engine() == s2 && resp == Response::Sig(sig),
                    Err(e) => final(self).engine() == old(self).engine() || final(self).engine()
                        == s2,
                }
            }),
            old(self).infallible() ==> ({
                let (s2, resp) = step(
                    old(self).engine(),
                    SafetyRulesInputView::SignTimeoutWithQC(
                        *timeout,
                        crate::safety_rules::opt_tc_view(timeout_cert),
                    ),
                );
                &&& final(self).engine() == s2
                &&& final(self).infallible()
                &&& (resp matches Response::Sig(sig) ==> r == Ok::<Signature, Error>(sig))
                &&& (resp matches Response::Failure(e) ==> r == Err::<Signature, Error>(e))
            }),
    {
        let owned_tc: Option<TwoChainTimeoutCertificate> = match timeout_cert {
            Some(tc) => Some(*tc),
            None => None,
        };
        let response = match self.request(
            SafetyRulesInput::SignTimeoutWithQC(*timeout, owned_tc),
        ) {
            Ok(b) => b,
            Err(e) => {
                return Err(e);
            },
        };
        proof {
            let (s2, resp) = step(
                old(self).engine(),
                SafetyRulesInputView::SignTimeoutWithQC(
                    *timeout,
                    crate::safety_rules::opt_tc_view(timeout_cert),
                ),
            );
            crate::codec::lemma_response_round_trip(resp);
        }
        match decode_response(&response) {
            Ok(Response::Sig(s)) => Ok(s),
            Ok(Response::Failure(e)) => Err(e),
            Ok(_) => Err(Error::SerializationError),
            Err(e) => Err(e),
        }
    }

    /// Submits a vote proposal under the two-chain voting rule, with an
    /// optional timeout certificate toward the lock check.
    pub fn construct_and_sign_vote_two_chain(
        &mut self,
        vote_proposal: &VoteProposal,
        timeout_cert: Option<&TwoChainTimeoutCertificate>,
    ) -> (r: Result<Vote, Error>)
        ensures
            ({
                let (s2, resp) = step(
                    old(self).engine(),
                    SafetyRulesInputView::ConstructAndSignVoteTwoChain(
                        *vote_proposal,
                        crate::safety_rules::opt_tc_view(timeout_cert),
                    ),
                );
                match r {
                    Ok(v) => final(self).engine() == s2 && resp == Response::Vote(v),
                    Err(e) => final(self).engine() == old(self).engine() || final(self).engine()
                        == s2,
                }
            }),
            old(self).infallible() ==> ({
                let (s2, resp) = step(
                    old(self).engine(),
                    SafetyRulesInputView::ConstructAndSignVoteTwoChain(
                        *vote_proposal,
                        crate::safety_rules::opt_tc_view(timeout_cert),
                    ),
                );
                &&& final(self).engine() == s2
                &&& final(self).infallible()
                &&& (resp matches Response::Vote(v) ==> r == Ok::<Vote, Error>(v))
                &&& (resp matches Response::Failure(e) ==> r == Err::<Vote, Error>(e))
            }),
    {
        let owned_tc: Option<TwoChainTimeoutCertificate> = match timeout_cert {
            Some(tc) => Some(*tc),
            None => None,
        };
        let response = match self.request(
            SafetyRulesInput::ConstructAndSignVoteTwoChain(*vote_proposal, owned_tc),
        ) {
            Ok(b) => b,
            Err(e) => {
                return Err(e);
            },
        };
        proof {
            let (s2, resp) = step(
                old(self).engine(),
                SafetyRulesInputView::ConstructAndSignVoteTwoChain(
                    *vote_proposal,
                    crate::safety_rules::opt_tc_view(timeout_cert),
                ),
            );
            crate::codec::lemma_response_round_trip(resp);
        }
        match decode_response(&response) {
            Ok(Response::Vote(v)) => Ok(v),
            Ok(Response::Failure(e)) => Err(e),
            Ok(_) => Err(Error::SerializationError),
            Err(e) => Err(e),
        }
    }

    /// Asks for a commit-vote signature over the ledger info to finalize.
    pub fn sign_commit_vote(
        &mut self,
        ledger_info: LedgerInfoWithSignatures,
        new_ledger_info: LedgerInfo,
    ) -> (r: Result<Signature, Error>)
        ensures
            ({
                let (s2, resp) = step(
                    old(self).engine(),
                    SafetyRulesInputView::SignCommitVote(ledger_info@, new_ledger_info@),
                );
                match r {
                    Ok(sig) => final(self).engine() == s2 && resp == Response::Sig(sig),
                    Err(e) => final(self).engine() == old(self).engine() || final(self).engine()
                        == s2,
                }
            }),
            old(self).infallible() ==> ({
                let (s2, resp) = step(
                    old(self).engine(),
                    SafetyRulesInputView::SignCommitVote(ledger_info@, new_ledger_info@),
                );
                &&& final(self).engine() == s2
                &&& final(self).infallible()
                &&& (resp matches Response::Sig(sig) ==> r == Ok::<Signature, Error>(sig))
                &&& (resp matches Response::Failure(e) ==> r == Err::<Signature, Error>(e))
            }),
    {
        let ghost liws_view = ledger_info@;
        let ghost li_view = new_ledger_info@;
        let response = match self.request(
            SafetyRulesInput::SignCommitVote(ledger_info, new_ledger_info),
        ) {
            Ok(b) => b,
            Err(e) => {
                return Err(e);
            },
        };
        proof {
            let (s2, resp) = step(
                old(self).engine(),
                SafetyRulesInputView::SignCommitVote(liws_view, li_view),
            );
            crate::codec::lemma_response_round_trip(resp);
        }
        match decode_response(&response) {
            Ok(Response::Sig(s)) => Ok(s),
            Ok(Response::Failure(e)) => Err(e),
            Ok(_) => Err(Error::SerializationError),
            Err(e) => Err(e),
        }
    }
}

} // verus!
