//! The safety-rules state machine: validates and signs consensus artifacts
//! against the persisted voting history.
//!
//! Every operation is specified twice: a `spec` step function states, over
//! the engine's mathematical view, exactly which inputs succeed, which error
//! each rejected input earns, and how the persistent state changes; the
//! executable method is proved to implement that step. The laws at the end
//! of the module (no equivocation, monotone voting rounds, lock enforcement,
//! strict epoch advance) are proved from the step functions alone.

use vstd::prelude::*;

use crate::types::{
    clone_epoch_state, BlockData, ConsensusState, EpochChangeProof, EpochChangeProofView,
    EpochState, EpochStateView, Error, LedgerInfo, LedgerInfoWithSignatures, Signature, Timeout,
    TwoChainTimeout, TwoChainTimeoutCertificate, Vote, VoteProposal,
};

verus! {

/// The durable record of this validator's voting progress.
#[derive(Clone, Copy, Debug, PartialEq, Eq)]
pub struct SafetyData {
    pub epoch: u64,
    pub last_voted_round: u64,
    pub preferred_round: u64,
    /// The most recently signed vote, if any.
    pub last_vote: Option<Vote>,
}

/// The persistent safety state: the safety data plus the identity whose key
/// this engine signs with. Owned exclusively by the engine; durability is
/// delegated to the storage collaborator that handed it in at bootstrap.
#[derive(Clone, Copy, Debug, PartialEq, Eq)]
pub struct PersistentSafetyStorage {
    pub safety_data: SafetyData,
    /// Identity of this validator, the signer of every artifact.
    pub author: u64,
}

/// Mathematical view of the engine.
pub struct SafetyRulesView {
    pub storage: PersistentSafetyStorage,
    /// The validator set currently trusted to certify epoch changes; its
    /// epoch always equals the storage epoch.
    pub trusted: EpochStateView,
    /// Whether a successful `initialize` has happened.
    pub initialized: bool,
}

/// A typed operation result crossing the trust boundary: the success value
/// of the matching operation, or the error that rejected it.
#[derive(Clone, Copy, Debug, PartialEq, Eq)]
pub enum Response {
    State(ConsensusState),
    Unit,
    Vote(Vote),
    Sig(Signature),
    Failure(Error),
}

/// Well-formedness of an engine view: the trusted validator set is the one
/// for the stored epoch.
pub open spec fn wf(s: SafetyRulesView) -> bool {
    s.trusted.epoch == s.storage.safety_data.epoch
}

/// The larger of two rounds.
pub open spec fn max_round(a: u64, b: u64) -> u64 {
    if a >= b {
        a
    } else {
        b
    }
}

/// The least number of signers that certifies a state for a validator set
/// of `n` members: a strict two-thirds supermajority.
pub open spec fn quorum_size(n: nat) -> nat {
    2 * n / 3 + 1
}

/// Whether `signers` meets quorum for `validators`: pairwise-distinct
/// members of the set, at least `quorum_size` of them.
pub open spec fn quorum_ok(signers: Seq<u64>, validators: Seq<u64>) -> bool {
    &&& signers.no_duplicates()
    &&& forall|i: int| 0 <= i < signers.len() ==> validators.contains(#[trigger] signers[i])
    &&& signers.len() >= quorum_size(validators.len())
}

/// One link of an epoch-change proof is accepted by the verifier set `ver`
/// iff it ends `ver`'s epoch, meets quorum for `ver`, and announces the
/// state of the next consecutive epoch.
pub open spec fn link_ok(ver: EpochStateView, link: crate::types::LedgerInfoWithSignaturesView) -> bool {
    &&& link.ledger_info.epoch == ver.epoch
    &&& quorum_ok(link.signers, ver.validators)
    &&& link.ledger_info.next_epoch_state is Some
    &&& link.ledger_info.next_epoch_state->0.epoch == link.ledger_info.epoch + 1
}

/// Walks an epoch-change proof from the trusted verifier set: every link
/// must be accepted by the set reached so far, and yields the set it
/// announces. Returns the final verifier set, or `None` if any link fails.
pub open spec fn verify_chain(ver: EpochStateView, links: Seq<crate::types::LedgerInfoWithSignaturesView>) -> Option<EpochStateView>
    decreases links.len(),
{
    if links.len() == 0 {
        Some(ver)
    } else if link_ok(ver, links[0]) {
        verify_chain(links[0].ledger_info.next_epoch_state->0, links.drop_first())
    } else {
        None
    }
}

/// Step function of `consensus_state`: a pure read.
pub open spec fn consensus_state_step(s: SafetyRulesView) -> Response {
    if !s.initialized {
        Response::Failure(Error::NotInitialized)
    } else {
        Response::State(ConsensusState {
            epoch: s.storage.safety_data.epoch,
            last_voted_round: s.storage.safety_data.last_voted_round,
            preferred_round: s.storage.safety_data.preferred_round,
            in_validator_set: s.trusted.validators.contains(s.storage.author),
        })
    }
}

/// Step function of `initialize`: the proof chain must verify from the
/// trusted set and land on an epoch strictly above the current one; then
/// the epoch advances, the round-tracking fields reset, and the announced
/// validator set becomes the trusted one.
pub open spec fn initialize_step(s: SafetyRulesView, proof: EpochChangeProofView) -> (SafetyRulesView, Response) {
    match verify_chain(s.trusted, proof.ledger_infos) {
        None => (s, Response::Failure(Error::InvalidEpochChangeProof)),
        Some(new_es) => {
            if new_es.epoch <= s.storage.safety_data.epoch {
                (s, Response::Failure(Error::InvalidEpochChangeProof))
            } else {
                (
                    SafetyRulesView {
                        storage: PersistentSafetyStorage {
                            safety_data: SafetyData {
                                epoch: new_es.epoch,
                                last_voted_round: 0,
                                preferred_round: 0,
                                last_vote: None,
                            },
                            author: s.storage.author,
                        },
                        trusted: new_es,
                        initialized: true,
                    },
                    Response::Unit,
                )
            }
        },
    }
}

/// The proposer expected for a round under the trusted set: membership in
/// round-robin order. `None` for an empty set.
pub open spec fn expected_proposer(ver: EpochStateView, round: u64) -> Option<u64> {
    if ver.validators.len() == 0 {
        None
    } else {
        Some(ver.validators[round as int % ver.validators.len() as int])
    }
}

/// The signature this engine produces over the named artifact fields.
pub open spec fn signed(s: SafetyRulesView, epoch: u64, round: u64, id: u64) -> Signature {
    Signature { signer: s.storage.author, epoch, round, id }
}

/// Step function of `sign_proposal`: only the expected proposer's own block
/// for the current epoch is signed; voting history is untouched.
pub open spec fn sign_proposal_step(s: SafetyRulesView, block: BlockData) -> Response {
    if !s.initialized {
        Response::Failure(Error::NotInitialized)
    } else if block.epoch != s.storage.safety_data.epoch {
        Response::Failure(Error::IncorrectEpoch)
    } else if expected_proposer(s.trusted, block.round) != Some(block.author)
        || block.author != s.storage.author {
        Response::Failure(Error::SafetyViolation)
    } else {
        Response::Sig(signed(s, block.epoch, block.round, block.id))
    }
}

/// The certificate-linkage checks common to both voting rules: the QC must
/// belong to the block's epoch and certify a strictly earlier round, and a
/// supplied timeout certificate must do the same.
pub open spec fn vote_certs_ok(block: BlockData, maybe_tc: Option<TwoChainTimeoutCertificate>) -> bool {
    &&& block.quorum_cert.epoch == block.epoch
    &&& block.quorum_cert.round < block.round
    &&& match maybe_tc {
        Some(tc) => tc.epoch == block.epoch && tc.round < block.round,
        None => true,
    }
}

/// The vote this engine casts for a block.
pub open spec fn vote_for(s: SafetyRulesView, block: BlockData) -> Vote {
    Vote {
        author: s.storage.author,
        epoch: block.epoch,
        round: block.round,
        id: block.id,
        signature: signed(s, block.epoch, block.round, block.id),
    }
}

/// The voting rule shared by both chain variants. `lock_round` is the
/// certificate round that must clear the preferred round and that advances
/// it: the QC round alone for the single-chain rule, the higher of QC and
/// timeout-certificate rounds for the two-chain rule.
pub open spec fn vote_update(s: SafetyRulesView, block: BlockData, lock_round: u64) -> (SafetyRulesView, Response) {
    let sd = s.storage.safety_data;
    if block.round <= sd.last_voted_round {
        (s, Response::Failure(Error::SafetyViolation))
    } else if lock_round < sd.preferred_round {
        (s, Response::Failure(Error::SafetyViolation))
    } else {
        let vote = vote_for(s, block);
        (
            SafetyRulesView {
                storage: PersistentSafetyStorage {
                    safety_data: SafetyData {
                        epoch: sd.epoch,
                        last_voted_round: block.round,
                        preferred_round: max_round(sd.preferred_round, lock_round),
                        last_vote: Some(vote),
                    },
                    author: s.storage.author,
                },
                trusted: s.trusted,
                initialized: s.initialized,
            },
            Response::Vote(vote),
        )
    }
}

/// Step function of `construct_and_sign_vote`: the single-chain voting
/// rule. The block round must strictly exceed the last voted round and the
/// QC round must reach the preferred round; on success the vote is recorded
/// and both rounds advance atomically.
pub open spec fn construct_and_sign_vote_step(s: SafetyRulesView, vp: VoteProposal) -> (SafetyRulesView, Response) {
    let block = vp.block_data;
    if !s.initialized {
        (s, Response::Failure(Error::NotInitialized))
    } else if block.epoch != s.storage.safety_data.epoch {
        (s, Response::Failure(Error::IncorrectEpoch))
    } else if !vote_certs_ok(block, None) {
        (s, Response::Failure(Error::InvalidCertificate))
    } else {
        vote_update(s, block, block.quorum_cert.round)
    }
}

/// Step function of `construct_and_sign_vote_two_chain`: same equivocation
/// guard as the single-chain rule, but the lock check is satisfied by the
/// higher of the QC round and, when present, the timeout certificate round.
pub open spec fn construct_and_sign_vote_two_chain_step(
    s: SafetyRulesView,
    vp: VoteProposal,
    maybe_tc: Option<TwoChainTimeoutCertificate>,
) -> (SafetyRulesView, Response) {
    let block = vp.block_data;
    if !s.initialized {
        (s, Response::Failure(Error::NotInitialized))
    } else if block.epoch != s.storage.safety_data.epoch {
        (s, Response::Failure(Error::IncorrectEpoch))
    } else if !vote_certs_ok(block, maybe_tc) {
        (s, Response::Failure(Error::InvalidCertificate))
    } else {
        let lock_round = match maybe_tc {
            Some(tc) => max_round(block.quorum_cert.round, tc.round),
            None => block.quorum_cert.round,
        };
        vote_update(s, block, lock_round)
    }
}

/// The timeout rule shared by both timeout operations: a round at or above
/// the last voted round may be timed out, and the last voted round is
/// raised to it so no lower round can be voted later in this epoch.
pub open spec fn timeout_update(s: SafetyRulesView, epoch: u64, round: u64) -> (SafetyRulesView, Response) {
    let sd = s.storage.safety_data;
    if round < sd.last_voted_round {
        (s, Response::Failure(Error::SafetyViolation))
    } else {
        (
            SafetyRulesView {
                storage: PersistentSafetyStorage {
                    safety_data: SafetyData {
                        epoch: sd.epoch,
                        last_voted_round: max_round(sd.last_voted_round, round),
                        preferred_round: sd.preferred_round,
                        last_vote: sd.last_vote,
                    },
                    author: s.storage.author,
                },
                trusted: s.trusted,
                initialized: s.initialized,
            },
            Response::Sig(signed(s, epoch, round, 0)),
        )
    }
}

/// Step function of `sign_timeout`.
pub open spec fn sign_timeout_step(s: SafetyRulesView, t: Timeout) -> (SafetyRulesView, Response) {
    if !s.initialized {
        (s, Response::Failure(Error::NotInitialized))
    } else if t.epoch != s.storage.safety_data.epoch {
        (s, Response::Failure(Error::IncorrectEpoch))
    } else {
        timeout_update(s, t.epoch, t.round)
    }
}

/// Consistency of a two-chain timeout with its justification: the embedded
/// QC certifies an earlier round, and the timed-out round directly follows
/// either the supplied timeout certificate's round or the embedded QC's
/// round (one of the two certificates lets the validator enter the round it
/// is timing out).
pub open spec fn timeout_certs_ok(t: TwoChainTimeout, maybe_tc: Option<TwoChainTimeoutCertificate>) -> bool {
    &&& t.hqc_round < t.round
    &&& match maybe_tc {
        Some(tc) => tc.epoch == t.epoch && (t.round == tc.round + 1 || t.round == t.hqc_round + 1),
        None => true,
    }
}

/// Step function of `sign_timeout_with_qc`, the two-chain timeout rule.
pub open spec fn sign_timeout_with_qc_step(
    s: SafetyRulesView,
    t: TwoChainTimeout,
    maybe_tc: Option<TwoChainTimeoutCertificate>,
) -> (SafetyRulesView, Response) {
    if !s.initialized {
        (s, Response::Failure(Error::NotInitialized))
    } else if t.epoch != s.storage.safety_data.epoch {
        (s, Response::Failure(Error::IncorrectEpoch))
    } else if !timeout_certs_ok(t, maybe_tc) {
        (s, Response::Failure(Error::InvalidCertificate))
    } else {
        timeout_update(s, t.epoch, t.round)
    }
}

/// Step function of `sign_commit_vote`: the justifying ledger info must be
/// quorum-certified for the current epoch, and the ledger info to finalize
/// must not regress in round or version relative to it. Voting history is
/// neither consulted nor changed.
pub open spec fn sign_commit_vote_step(
    s: SafetyRulesView,
    liws: crate::types::LedgerInfoWithSignaturesView,
    new_li: crate::types::LedgerInfoView,
) -> Response {
    if !s.initialized {
        Response::Failure(Error::NotInitialized)
    } else if liws.ledger_info.epoch != s.storage.safety_data.epoch
        || new_li.epoch != s.storage.safety_data.epoch {
        Response::Failure(Error::IncorrectEpoch)
    } else if !quorum_ok(liws.signers, s.trusted.validators) {
        Response::Failure(Error::InvalidCertificate)
    } else if new_li.round < liws.ledger_info.round || new_li.version < liws.ledger_info.version {
        Response::Failure(Error::InvalidCertificate)
    } else {
        Response::Sig(signed(s, new_li.epoch, new_li.round, new_li.id))
    }
}

// ----------------------------- the exec engine -----------------------------

fn contains_u64(v: &Vec<u64>, x: u64) -> (r: bool)
    ensures
        r == v@.contains(x),
{
    let mut i: usize = 0;
    while i < v.len()
        invariant
            i <= v@.len(),
            forall|j: int| 0 <= j < i ==> v@[j] != x,
        decreases v@.len() - i,
    {
        if v[i] == x {
            assert(v@[i as int] == x);
            return true;
        }
        i = i + 1;
    }
    assert(!v@.contains(x));
    false
}

/// Checks the quorum predicate: pairwise-distinct signers, all members of
/// the validator set, at least a two-thirds supermajority of them.
fn quorum_check(signers: &Vec<u64>, validators: &Vec<u64>) -> (r: bool)
    ensures
        r == quorum_ok(signers@, validators@),
{
    let mut i: usize = 0;
    while i < signers.len()
        invariant
            i <= signers@.len(),
            forall|p: int, q: int| 0 <= p < q < i ==> signers@[p] != signers@[q],
            forall|p: int| 0 <= p < i ==> validators@.contains(#[trigger] signers@[p]),
        decreases signers@.len() - i,
    {
        if !contains_u64(validators, signers[i]) {
            assert(!quorum_ok(signers@, validators@));
            return false;
        }
        let mut j: usize = 0;
        while j < i
            invariant
                j <= i < signers@.len(),
                forall|p: int| 0 <= p < j ==> signers@[p] != signers@[i as int],
            decreases i - j,
        {
            if signers[j] == signers[i] {
                assert(signers@[j as int] == signers@[i as int]);
                assert(!signers@.no_duplicates());
                return false;
            }
            j = j + 1;
        }
        i = i + 1;
    }
    assert(signers@.no_duplicates());
    let have: u128 = signers.len() as u128;
    let need: u128 = (validators.len() as u128) * 2 / 3 + 1;
    proof {
        assert(need == quorum_size(validators@.len()));
    }
    have >= need
}

/// Walks the proof chain from the trusted verifier set; returns the final
/// set exactly when every link verifies.
fn verify_chain_exec(trusted: &EpochState, links: &Vec<LedgerInfoWithSignatures>) -> (r: Option<
    EpochState,
>)
    ensures
        (match r {
            Some(es) => verify_chain(
                trusted@,
                links@.map_values(|l: LedgerInfoWithSignatures| l@),
            ) == Some(es@),
            None => verify_chain(
                trusted@,
                links@.map_values(|l: LedgerInfoWithSignatures| l@),
            ) is None,
        }),
{
    let ghost full = links@.map_values(|l: LedgerInfoWithSignatures| l@);
    let mut cur: EpochState = clone_epoch_state(trusted);
    let mut k: usize = 0;
    proof {
        assert(full.skip(0) =~= full);
    }
    while k < links.len()
        invariant
            full == links@.map_values(|l: LedgerInfoWithSignatures| l@),
            k <= links@.len(),
            verify_chain(trusted@, full) == verify_chain(cur@, full.skip(k as int)),
        decreases links@.len() - k,
    {
        let link = &links[k];
        proof {
            assert(full.skip(k as int)[0] == full[k as int]);
            assert(full[k as int] == links@[k as int]@);
            assert(full.skip(k as int).drop_first() =~= full.skip(k as int + 1));
        }
        if link.ledger_info.epoch != cur.epoch {
            return None;
        }
        if !quorum_check(&link.signers, &cur.validators) {
            return None;
        }
        match &link.ledger_info.next_epoch_state {
            None => {
                return None;
            },
            Some(es) => {
                if link.ledger_info.epoch == u64::MAX || es.epoch != link.ledger_info.epoch + 1 {
                    return None;
                }
                assert(link_ok(cur@, full[k as int]));
                cur = clone_epoch_state(es);
            },
        }
        k = k + 1;
    }
    proof {
        assert(full.skip(links@.len() as int) =~= Seq::<
            crate::types::LedgerInfoWithSignaturesView,
        >::empty());
    }
    Some(cur)
}

/// The safety rules engine: the only holder of the persistent safety state
/// and of the signing identity. Uninitialized until the first successful
/// `initialize`; every operation is proved to implement its step function.
pub struct SafetyRules {
    persistent_storage: PersistentSafetyStorage,
    trusted: EpochState,
    initialized: bool,
}

impl View for SafetyRules {
    type V = SafetyRulesView;

    closed spec fn view(&self) -> SafetyRulesView {
        SafetyRulesView {
            storage: self.persistent_storage,
            trusted: self.trusted@,
            initialized: self.initialized,
        }
    }
}

impl SafetyRules {
    /// Bootstraps an engine from the durable safety state and the validator
    /// set trusted for its epoch. The engine starts uninitialized: only
    /// `initialize` succeeds until an epoch-change proof has been verified.
    pub fn new(persistent_storage: PersistentSafetyStorage, trusted: EpochState) -> (r: SafetyRules)
        requires
            trusted@.epoch == persistent_storage.safety_data.epoch,
        ensures
            r@ == (SafetyRulesView {
                storage: persistent_storage,
                trusted: trusted@,
                initialized: false,
            }),
            wf(r@),
    {
        SafetyRules { persistent_storage, trusted, initialized: false }
    }

    /// Pure read of the externally observable state; fails only before the
    /// first successful `initialize`.
    pub fn consensus_state(&self) -> (r: Result<ConsensusState, Error>)
        ensures
            (match r {
                Ok(cs) => consensus_state_step(self@) == Response::State(cs),
                Err(e) => consensus_state_step(self@) == Response::Failure(e),
            }),
    {
        if !self.initialized {
            return Err(Error::NotInitialized);
        }
        let in_set = contains_u64(&self.trusted.validators, self.persistent_storage.author);
        Ok(
            ConsensusState {
                epoch: self.persistent_storage.safety_data.epoch,
                last_voted_round: self.persistent_storage.safety_data.last_voted_round,
                preferred_round: self.persistent_storage.safety_data.preferred_round,
                in_validator_set: in_set,
            },
        )
    }

    /// Verifies an epoch-change proof and, on success, advances the epoch,
    /// resets the round-tracking fields and adopts the announced validator
    /// set. A proof that does not verify, or does not strictly advance the
    /// epoch, fails and leaves the state untouched.
    pub fn initialize(&mut self, proof: &EpochChangeProof) -> (r: Result<(), Error>)
        ensures
            ({
                let (s2, resp) = initialize_step(old(self)@, proof@);
                final(self)@ == s2 && (match r {
                    Ok(u) => resp == Response::Unit,
                    Err(e) => resp == Response::Failure(e),
                })
            }),
            wf(old(self)@) ==> wf(final(self)@),
    {
        match verify_chain_exec(&self.trusted, &proof.ledger_infos) {
            None => Err(Error::InvalidEpochChangeProof),
            Some(new_es) => {
                if new_es.epoch <= self.persistent_storage.safety_data.epoch {
                    Err(Error::InvalidEpochChangeProof)
                } else {
                    self.persistent_storage.safety_data = SafetyData {
                        epoch: new_es.epoch,
                        last_voted_round: 0,
                        preferred_round: 0,
                        last_vote: None,
                    };
                    self.trusted = new_es;
                    self.initialized = true;
                    Ok(())
                }
            },
        }
    }

    /// Signs a block candidate: only the expected proposer's own block for
    /// the current epoch; voting history is not consulted or changed.
    pub fn sign_proposal(&self, block_data: &BlockData) -> (r: Result<Signature, Error>)
        ensures
            (match r {
                Ok(sig) => sign_proposal_step(self@, *block_data) == Response::Sig(sig),
                Err(e) => sign_proposal_step(self@, *block_data) == Response::Failure(e),
            }),
    {
        if !self.initialized {
            return Err(Error::NotInitialized);
        }
        if block_data.epoch != self.persistent_storage.safety_data.epoch {
            return Err(Error::IncorrectEpoch);
        }
        let n = self.trusted.validators.len();
        if n == 0 {
            return Err(Error::SafetyViolation);
        }
        let idx = (block_data.round % (n as u64)) as usize;
        let expected = self.trusted.validators[idx];
        if expected != block_data.author || block_data.author != self.persistent_storage.author {
            return Err(Error::SafetyViolation);
        }
        Ok(
            Signature {
                signer: self.persistent_storage.author,
                epoch: block_data.epoch,
                round: block_data.round,
                id: block_data.id,
            },
        )
    }

    /// The single-chain voting rule: accepts only a strictly higher round
    /// whose QC clears the preferred round, and atomically records the vote
    /// while advancing both round-tracking fields.
    pub fn construct_and_sign_vote(&mut self, vote_proposal: &VoteProposal) -> (r: Result<
        Vote,
        Error,
    >)
        ensures
            ({
                let (s2, resp) = construct_and_sign_vote_step(old(self)@, *vote_proposal);
                final(self)@ == s2 && (match r {
                    Ok(v) => resp == Response::Vote(v),
                    Err(e) => resp == Response::Failure(e),
                })
            }),
    {
        let block = &vote_proposal.block_data;
        if !self.initialized {
            return Err(Error::NotInitialized);
        }
        if block.epoch != self.persistent_storage.safety_data.epoch {
            return Err(Error::IncorrectEpoch);
        }
        if block.quorum_cert.epoch != block.epoch || block.quorum_cert.round >= block.round {
            return Err(Error::InvalidCertificate);
        }
        self.vote_update(block, block.quorum_cert.round)
    }

    /// The two-chain voting rule: as the single-chain rule, except that the
    /// higher of the QC round and a supplied timeout-certificate round both
    /// clears the lock and advances it.
    pub fn construct_and_sign_vote_two_chain(
        &mut self,
        vote_proposal: &VoteProposal,
        timeout_cert: Option<&TwoChainTimeoutCertificate>,
    ) -> (r: Result<Vote, Error>)
        ensures
            ({
                let (s2, resp) = construct_and_sign_vote_two_chain_step(
                    old(self)@,
                    *vote_proposal,
                    opt_tc_view(timeout_cert),
                );
                final(self)@ == s2 && (match r {
                    Ok(v) => resp == Response::Vote(v),
                    Err(e) => resp == Response::Failure(e),
                })
            }),
    {
        let block = &vote_proposal.block_data;
        if !self.initialized {
            return Err(Error::NotInitialized);
        }
        if block.epoch != self.persistent_storage.safety_data.epoch {
            return Err(Error::IncorrectEpoch);
        }
        if block.quorum_cert.epoch != block.epoch || block.quorum_cert.round >= block.round {
            return Err(Error::InvalidCertificate);
        }
        let lock_round: u64 = match timeout_cert {
            Some(tc) => {
                if tc.epoch != block.epoch || tc.round >= block.round {
                    return Err(Error::InvalidCertificate);
                }
                if block.quorum_cert.round >= tc.round {
                    block.quorum_cert.round
                } else {
                    tc.round
                }
            },
            None => block.quorum_cert.round,
        };
        self.vote_update(block, lock_round)
    }

    /// Shared voting-rule core: the equivocation guard, the lock check, and
    /// the atomic state update.
    fn vote_update(&mut self, block: &BlockData, lock_round: u64) -> (r: Result<Vote, Error>)
        ensures
            ({
                let (s2, resp) = vote_update(old(self)@, *block, lock_round);
                final(self)@ == s2 && (match r {
                    Ok(v) => resp == Response::Vote(v),
                    Err(e) => resp == Response::Failure(e),
                })
            }),
    {
        let sd = self.persistent_storage.safety_data;
        if block.round <= sd.last_voted_round {
            return Err(Error::SafetyViolation);
        }
        if lock_round < sd.preferred_round {
            return Err(Error::SafetyViolation);
        }
        let vote = Vote {
            author: self.persistent_storage.author,
            epoch: block.epoch,
            round: block.round,
            id: block.id,
            signature: Signature {
                signer: self.persistent_storage.author,
                epoch: block.epoch,
                round: block.round,
                id: block.id,
            },
        };
        self.persistent_storage.safety_data = SafetyData {
            epoch: sd.epoch,
            last_voted_round: block.round,
            preferred_round: if sd.preferred_round >= lock_round {
                sd.preferred_round
            } else {
                lock_round
            },
            last_vote: Some(vote),
        };
        Ok(vote)
    }

    /// Signs a single-chain round timeout: allowed at or above the last
    /// voted round, which is raised to the timed-out round.
    pub fn sign_timeout(&mut self, timeout: &Timeout) -> (r: Result<Signature, Error>)
        ensures
            ({
                let (s2, resp) = sign_timeout_step(old(self)@, *timeout);
                final(self)@ == s2 && (match r {
                    Ok(sig) => resp == Response::Sig(sig),
                    Err(e) => resp == Response::Failure(e),
                })
            }),
    {
        if !self.initialized {
            return Err(Error::NotInitialized);
        }
        if timeout.epoch != self.persistent_storage.safety_data.epoch {
            return Err(Error::IncorrectEpoch);
        }
        self.timeout_update(timeout.epoch, timeout.round)
    }

    /// Signs a two-chain round timeout, additionally checking the timeout's
    /// internal consistency and, when supplied, the timeout certificate's
    /// consistency with the timeout's justification.
    pub fn sign_timeout_with_qc(
        &mut self,
        timeout: &TwoChainTimeout,
        timeout_cert: Option<&TwoChainTimeoutCertificate>,
    ) -> (r: Result<Signature, Error>)
        ensures
            ({
                let (s2, resp) = sign_timeout_with_qc_step(
                    old(self)@,
                    *timeout,
                    opt_tc_view(timeout_cert),
                );
                final(self)@ == s2 && (match r {
                    Ok(sig) => resp == Response::Sig(sig),
                    Err(e) => resp == Response::Failure(e),
                })
            }),
    {
        if !self.initialized {
            return Err(Error::NotInitialized);
        }
        if timeout.epoch != self.persistent_storage.safety_data.epoch {
            return Err(Error::IncorrectEpoch);
        }
        if timeout.hqc_round >= timeout.round {
            return Err(Error::InvalidCertificate);
        }
        if let Some(tc) = timeout_cert {
            let tc_justifies = tc.round < u64::MAX && timeout.round == tc.round + 1;
            let qc_justifies = timeout.hqc_round < u64::MAX && timeout.round == timeout.hqc_round
                + 1;
            if tc.epoch != timeout.epoch || (!tc_justifies && !qc_justifies) {
                return Err(Error::InvalidCertificate);
            }
        }
        self.timeout_update(timeout.epoch, timeout.round)
    }

    /// Shared timeout core: the round guard and the last-voted-round raise.
    fn timeout_update(&mut self, epoch: u64, round: u64) -> (r: Result<Signature, Error>)
        ensures
            ({
                let (s2, resp) = timeout_update(old(self)@, epoch, round);
                final(self)@ == s2 && (match r {
                    Ok(sig) => resp == Response::Sig(sig),
                    Err(e) => resp == Response::Failure(e),
                })
            }),
    {
        let sd = self.persistent_storage.safety_data;
        if round < sd.last_voted_round {
            return Err(Error::SafetyViolation);
        }
        self.persistent_storage.safety_data = SafetyData {
            epoch: sd.epoch,
            last_voted_round: if sd.last_voted_round >= round {
                sd.last_voted_round
            } else {
                round
            },
            preferred_round: sd.preferred_round,
            last_vote: sd.last_vote,
        };
        Ok(Signature { signer: self.persistent_storage.author, epoch, round, id: 0 })
    }

    /// Signs a commit-phase artifact: the justifying ledger info must be
    /// quorum-certified for the current epoch and the new ledger info must
    /// not regress against it. Voting history is untouched.
    pub fn sign_commit_vote(
        &self,
        ledger_info: &LedgerInfoWithSignatures,
        new_ledger_info: &LedgerInfo,
    ) -> (r: Result<Signature, Error>)
        ensures
            (match r {
                Ok(sig) => sign_commit_vote_step(self@, ledger_info@, new_ledger_info@)
                    == Response::Sig(sig),
                Err(e) => sign_commit_vote_step(self@, ledger_info@, new_ledger_info@)
                    == Response::Failure(e),
            }),
    {
        if !self.initialized {
            return Err(Error::NotInitialized);
        }
        if ledger_info.ledger_info.epoch != self.persistent_storage.safety_data.epoch
            || new_ledger_info.epoch != self.persistent_storage.safety_data.epoch {
            return Err(Error::IncorrectEpoch);
        }
        if !quorum_check(&ledger_info.signers, &self.trusted.validators) {
            return Err(Error::InvalidCertificate);
        }
        if new_ledger_info.round < ledger_info.ledger_info.round || new_ledger_info.version
            < ledger_info.ledger_info.version {
            return Err(Error::InvalidCertificate);
        }
        Ok(
            Signature {
                signer: self.persistent_storage.author,
                epoch: new_ledger_info.epoch,
                round: new_ledger_info.round,
                id: new_ledger_info.id,
            },
        )
    }
}

/// The view of an optional borrowed timeout certificate.
pub open spec fn opt_tc_view(tc: Option<&TwoChainTimeoutCertificate>) -> Option<
    TwoChainTimeoutCertificate,
> {
    match tc {
        Some(c) => Some(*c),
        None => None,
    }
}

// --------------------------------- laws ------------------------------------

/// One step of the engine on a decoded request: the state after it and the
/// response to it.
pub open spec fn step(s: SafetyRulesView, req: crate::serializer::SafetyRulesInputView) -> (
    SafetyRulesView,
    Response,
) {
    match req {
        crate::serializer::SafetyRulesInputView::ConsensusState => (s, consensus_state_step(s)),
        crate::serializer::SafetyRulesInputView::Initialize(p) => initialize_step(s, p),
        crate::serializer::SafetyRulesInputView::ConstructAndSignVote(vp) => construct_and_sign_vote_step(
            s,
            vp,
        ),
        crate::serializer::SafetyRulesInputView::SignProposal(b) => (s, sign_proposal_step(s, b)),
        crate::serializer::SafetyRulesInputView::SignTimeout(t) => sign_timeout_step(s, t),
        crate::serializer::SafetyRulesInputView::SignTimeoutWithQC(t, tc) => sign_timeout_with_qc_step(
            s,
            t,
            tc,
        ),
        crate::serializer::SafetyRulesInputView::ConstructAndSignVoteTwoChain(
            vp,
            tc,
        ) => construct_and_sign_vote_two_chain_step(s, vp, tc),
        crate::serializer::SafetyRulesInputView::SignCommitVote(liws, li) => (
            s,
            sign_commit_vote_step(s, liws, li),
        ),
    }
}

/// Law: the epoch never decreases; every change to it is a strict advance
/// made by a successful `initialize`.
pub proof fn lemma_epoch_monotone(s: SafetyRulesView, req: crate::serializer::SafetyRulesInputView)
    ensures
        ({
            let (s2, resp) = step(s, req);
            &&& s2.storage.safety_data.epoch >= s.storage.safety_data.epoch
            &&& s2.storage.safety_data.epoch != s.storage.safety_data.epoch ==> (req
                is Initialize && resp == Response::Unit)
        }),
{
}

/// Law: `last_voted_round` is non-decreasing while the epoch stands; it
/// drops only when a successful `initialize` strictly advances the epoch
/// and resets the round-tracking fields.
pub proof fn lemma_last_voted_round_monotone(
    s: SafetyRulesView,
    req: crate::serializer::SafetyRulesInputView,
)
    ensures
        ({
            let (s2, resp) = step(s, req);
            &&& s2.storage.safety_data.epoch == s.storage.safety_data.epoch
                ==> s2.storage.safety_data.last_voted_round
                >= s.storage.safety_data.last_voted_round
            &&& s2.storage.safety_data.last_voted_round
                < s.storage.safety_data.last_voted_round ==> (s2.storage.safety_data.epoch
                > s.storage.safety_data.epoch && req is Initialize && resp == Response::Unit
                && s2.storage.safety_data.last_voted_round == 0
                && s2.storage.safety_data.preferred_round == 0)
        }),
{
}

/// Law: an operation that fails leaves the persistent state untouched —
/// validation happens before any mutation.
pub proof fn lemma_failure_leaves_state_unchanged(
    s: SafetyRulesView,
    req: crate::serializer::SafetyRulesInputView,
)
    ensures
        ({
            let (s2, resp) = step(s, req);
            resp is Failure ==> s2 == s
        }),
{
}

/// Law: a single-chain vote request whose embedded QC round lies strictly
/// below the preferred round fails with a safety violation and changes
/// nothing, whatever the proposal's round.
pub proof fn lemma_lock_violation_fails(s: SafetyRulesView, vp: VoteProposal)
    requires
        s.initialized,
        vp.block_data.epoch == s.storage.safety_data.epoch,
        vote_certs_ok(vp.block_data, None),
        vp.block_data.quorum_cert.round < s.storage.safety_data.preferred_round,
    ensures
        construct_and_sign_vote_step(s, vp) == (s, Response::Failure(Error::SafetyViolation)),
{
}

/// Law: under the two-chain rule the same holds once neither certificate
/// reaches the lock: with the QC round below the preferred round and no
/// timeout certificate at or above it, the vote request fails with a
/// safety violation and changes nothing.
pub proof fn lemma_lock_violation_fails_two_chain(
    s: SafetyRulesView,
    vp: VoteProposal,
    maybe_tc: Option<TwoChainTimeoutCertificate>,
)
    requires
        s.initialized,
        vp.block_data.epoch == s.storage.safety_data.epoch,
        vote_certs_ok(vp.block_data, maybe_tc),
        vp.block_data.quorum_cert.round < s.storage.safety_data.preferred_round,
        match maybe_tc {
            Some(tc) => tc.round < s.storage.safety_data.preferred_round,
            None => true,
        },
    ensures
        construct_and_sign_vote_two_chain_step(s, vp, maybe_tc) == (
            s,
            Response::Failure(Error::SafetyViolation),
        ),
{
}

/// Law: every step keeps the engine well-formed — the trusted validator
/// set always belongs to the stored epoch.
pub proof fn lemma_step_preserves_wf(s: SafetyRulesView, req: crate::serializer::SafetyRulesInputView)
    ensures
        wf(s) ==> wf(step(s, req).0),
{
}

/// Law: an epoch-change proof that does not verify, or whose target epoch
/// does not strictly exceed the current one, is rejected with
/// `InvalidEpochChangeProof`, and epoch, `last_voted_round` and
/// `preferred_round` stand unchanged.
pub proof fn lemma_initialize_requires_strict_advance(
    s: SafetyRulesView,
    proof: EpochChangeProofView,
)
    requires
        match verify_chain(s.trusted, proof.ledger_infos) {
            Some(es) => es.epoch <= s.storage.safety_data.epoch,
            None => true,
        },
    ensures
        initialize_step(s, proof) == (s, Response::Failure(Error::InvalidEpochChangeProof)),
{
}

/// The engine state after the first `i` requests of a serial run.
pub open spec fn run_state(
    s0: SafetyRulesView,
    reqs: Seq<crate::serializer::SafetyRulesInputView>,
    i: int,
) -> SafetyRulesView
    decreases i,
{
    if i <= 0 {
        s0
    } else {
        step(run_state(s0, reqs, i - 1), reqs[i - 1]).0
    }
}

/// The response to request `i` of a serial run.
pub open spec fn run_response(
    s0: SafetyRulesView,
    reqs: Seq<crate::serializer::SafetyRulesInputView>,
    i: int,
) -> Response {
    step(run_state(s0, reqs, i), reqs[i]).1
}

/// Law: over any span of a serial run, either the epoch strictly advanced,
/// or it stands and `last_voted_round` did not decrease.
pub proof fn lemma_run_monotone(
    s0: SafetyRulesView,
    reqs: Seq<crate::serializer::SafetyRulesInputView>,
    i: int,
    j: int,
)
    requires
        0 <= i <= j,
    ensures
        ({
            let si = run_state(s0, reqs, i);
            let sj = run_state(s0, reqs, j);
            sj.storage.safety_data.epoch > si.storage.safety_data.epoch || (
            sj.storage.safety_data.epoch == si.storage.safety_data.epoch
                && sj.storage.safety_data.last_voted_round
                >= si.storage.safety_data.last_voted_round)
        }),
    decreases j - i,
{
    if j > i {
        lemma_run_monotone(s0, reqs, i, j - 1);
        lemma_epoch_monotone(run_state(s0, reqs, j - 1), reqs[j - 1]);
        lemma_last_voted_round_monotone(run_state(s0, reqs, j - 1), reqs[j - 1]);
    }
}

/// A signed vote carries the epoch of the state that signed it, a round
/// strictly above the last voted round, and leaves the engine with exactly
/// that round as the new last voted round.
pub proof fn lemma_vote_response(s: SafetyRulesView, req: crate::serializer::SafetyRulesInputView)
    ensures
        ({
            let (s2, resp) = step(s, req);
            resp matches Response::Vote(v) ==> v.epoch == s.storage.safety_data.epoch && v.round
                > s.storage.safety_data.last_voted_round && s2.storage.safety_data.epoch == v.epoch
                && s2.storage.safety_data.last_voted_round == v.round
        }),
{
}

/// Law: a vote request replayed directly after it succeeded fails safely
/// with a safety violation instead of signing again — the safe behaviour a
/// retrying transport must be able to rely on.
pub proof fn lemma_replayed_vote_fails(s: SafetyRulesView, vp: VoteProposal)
    ensures
        ({
            let (s1, resp1) = construct_and_sign_vote_step(s, vp);
            resp1 is Vote ==> construct_and_sign_vote_step(s1, vp) == (
                s1,
                Response::Failure(Error::SafetyViolation),
            )
        }),
{
}

/// Law (no equivocation): however a serial run of requests goes, the
/// engine never produces two distinct signed votes for the same round of
/// the same epoch.
pub proof fn lemma_no_equivocation(
    s0: SafetyRulesView,
    reqs: Seq<crate::serializer::SafetyRulesInputView>,
    i: int,
    j: int,
    v1: Vote,
    v2: Vote,
)
    requires
        0 <= i < j,
        run_response(s0, reqs, i) == Response::Vote(v1),
        run_response(s0, reqs, j) == Response::Vote(v2),
        v1.epoch == v2.epoch,
        v1.round == v2.round,
    ensures
        v1 == v2,
{
    let si = run_state(s0, reqs, i);
    let sj = run_state(s0, reqs, j);
    lemma_vote_response(si, reqs[i]);
    lemma_vote_response(sj, reqs[j]);
    assert(run_state(s0, reqs, i + 1) == step(si, reqs[i]).0);
    lemma_run_monotone(s0, reqs, i + 1, j);
}

} // verus!
