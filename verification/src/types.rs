//! Plain-value models of the consensus artifacts the safety rules judge.
//!
//! Validator identities, block identifiers and signatures are carried as
//! integers: the engine never inspects cryptographic material, it only
//! compares epochs, rounds and identities, so an artifact is fully described
//! by those numbers.

use vstd::prelude::*;

verus! {

/// The error taxonomy of the safety-rules core.
///
/// Validation failures are detected before any mutation: an operation that
/// returns an error leaves the persistent safety state untouched.
#[derive(Clone, Copy, Debug, PartialEq, Eq)]
pub enum Error {
    /// Any operation other than `initialize` was called before a successful
    /// `initialize`.
    NotInitialized,
    /// The epoch-change proof chain fails verification or does not strictly
    /// advance the epoch.
    InvalidEpochChangeProof,
    /// The artifact's epoch does not match the engine's current epoch.
    IncorrectEpoch,
    /// Equivocation or lock-rule violation: a round that is not strictly
    /// increasing, or a certificate round below the preferred round.
    SafetyViolation,
    /// A certificate is internally inconsistent with the artifact it
    /// justifies.
    InvalidCertificate,
    /// Request or response bytes are malformed.
    SerializationError,
    /// A persistence read or write failed.
    SecureStorageError,
    /// An unexpected invariant break, unrecoverable for the call.
    InternalError,
}

/// Externally observable snapshot of the persistent safety state.
#[derive(Clone, Copy, Debug, PartialEq, Eq)]
pub struct ConsensusState {
    pub epoch: u64,
    pub last_voted_round: u64,
    pub preferred_round: u64,
    /// Whether this validator is a member of the current validator set.
    pub in_validator_set: bool,
}

/// A signature produced by this validator over the named artifact fields.
///
/// Signing is modeled as recording the signed message: the signature is the
/// tuple of the signer and the fields it covers, which is exactly what the
/// safety argument needs (two signatures are equal iff they cover the same
/// message with the same key).
#[derive(Clone, Copy, Debug, PartialEq, Eq)]
pub struct Signature {
    pub signer: u64,
    pub epoch: u64,
    pub round: u64,
    pub id: u64,
}

/// A signed vote for a block, the artifact whose duplication per round the
/// engine must prevent.
#[derive(Clone, Copy, Debug, PartialEq, Eq)]
pub struct Vote {
    pub author: u64,
    pub epoch: u64,
    pub round: u64,
    /// Identifier of the voted block.
    pub id: u64,
    pub signature: Signature,
}

/// Aggregated proof that a supermajority voted for a block; the engine
/// trusts its signatures (validated upstream) and checks only its epoch and
/// round linkage.
#[derive(Clone, Copy, Debug, PartialEq, Eq)]
pub struct QuorumCert {
    pub epoch: u64,
    /// Round of the certified block.
    pub round: u64,
}

/// Metadata of a block candidate, with the quorum certificate that justifies
/// extending it.
#[derive(Clone, Copy, Debug, PartialEq, Eq)]
pub struct BlockData {
    pub epoch: u64,
    pub round: u64,
    /// The validator proposing the block.
    pub author: u64,
    /// Identifier of the block.
    pub id: u64,
    pub quorum_cert: QuorumCert,
}

/// A block plus its justifying certificate, submitted for the voting rule.
#[derive(Clone, Copy, Debug, PartialEq, Eq)]
pub struct VoteProposal {
    pub block_data: BlockData,
}

/// A round-timeout artifact for the single-chain protocol.
#[derive(Clone, Copy, Debug, PartialEq, Eq)]
pub struct Timeout {
    pub epoch: u64,
    pub round: u64,
}

/// A round-timeout artifact for the two-chain protocol, carrying the round
/// of the highest quorum certificate known to the validator.
#[derive(Clone, Copy, Debug, PartialEq, Eq)]
pub struct TwoChainTimeout {
    pub epoch: u64,
    pub round: u64,
    /// Round of the embedded highest quorum certificate.
    pub hqc_round: u64,
}

/// Aggregated proof that a supermajority gave up on a round.
#[derive(Clone, Copy, Debug, PartialEq, Eq)]
pub struct TwoChainTimeoutCertificate {
    pub epoch: u64,
    pub round: u64,
}

/// A validator-set configuration: the epoch it governs and the identities of
/// its members.
#[derive(Clone, Debug, PartialEq, Eq)]
pub struct EpochState {
    pub epoch: u64,
    pub validators: Vec<u64>,
}

/// Mathematical model of an [`EpochState`].
pub struct EpochStateView {
    pub epoch: u64,
    pub validators: Seq<u64>,
}

impl View for EpochState {
    type V = EpochStateView;

    open spec fn view(&self) -> EpochStateView {
        EpochStateView { epoch: self.epoch, validators: self.validators@ }
    }
}

/// A ledger state marker: the commit-phase artifact and the carrier of
/// epoch-change information.
#[derive(Clone, Debug, PartialEq, Eq)]
pub struct LedgerInfo {
    pub epoch: u64,
    pub round: u64,
    pub version: u64,
    /// Identifier of the ledger state.
    pub id: u64,
    /// Present exactly when this ledger info ends its epoch; the state of
    /// the next epoch.
    pub next_epoch_state: Option<EpochState>,
}

/// Mathematical model of a [`LedgerInfo`].
pub struct LedgerInfoView {
    pub epoch: u64,
    pub round: u64,
    pub version: u64,
    pub id: u64,
    pub next_epoch_state: Option<EpochStateView>,
}

impl View for LedgerInfo {
    type V = LedgerInfoView;

    open spec fn view(&self) -> LedgerInfoView {
        LedgerInfoView {
            epoch: self.epoch,
            round: self.round,
            version: self.version,
            id: self.id,
            next_epoch_state: match self.next_epoch_state {
                Some(es) => Some(es@),
                None => None,
            },
        }
    }
}

/// A ledger info together with the validators that signed it.
#[derive(Clone, Debug, PartialEq, Eq)]
pub struct LedgerInfoWithSignatures {
    pub ledger_info: LedgerInfo,
    /// Identities of the validators whose signatures back the ledger info.
    pub signers: Vec<u64>,
}

/// Mathematical model of a [`LedgerInfoWithSignatures`].
pub struct LedgerInfoWithSignaturesView {
    pub ledger_info: LedgerInfoView,
    pub signers: Seq<u64>,
}

impl View for LedgerInfoWithSignatures {
    type V = LedgerInfoWithSignaturesView;

    open spec fn view(&self) -> LedgerInfoWithSignaturesView {
        LedgerInfoWithSignaturesView { ledger_info: self.ledger_info@, signers: self.signers@ }
    }
}

/// A chain of epoch-ending ledger infos that links the currently trusted
/// epoch to a later one.
#[derive(Clone, Debug, PartialEq, Eq)]
pub struct EpochChangeProof {
    pub ledger_infos: Vec<LedgerInfoWithSignatures>,
}

/// Mathematical model of an [`EpochChangeProof`].
pub struct EpochChangeProofView {
    pub ledger_infos: Seq<LedgerInfoWithSignaturesView>,
}

impl View for EpochChangeProof {
    type V = EpochChangeProofView;

    open spec fn view(&self) -> EpochChangeProofView {
        EpochChangeProofView {
            ledger_infos: self.ledger_infos@.map_values(|l: LedgerInfoWithSignatures| l@),
        }
    }
}

// Model-preserving copies. The derived `Clone` carries no specification, so
// the types that own vectors get explicit copy functions whose contracts
// state that the mathematical view is kept.

pub(crate) fn clone_u64_vec(v: &Vec<u64>) -> (r: Vec<u64>)
    ensures
        r@ == v@,
{
    let mut out: Vec<u64> = Vec::new();
    let mut i: usize = 0;
    while i < v.len()
        invariant
            i <= v@.len(),
            out@ == v@.take(i as int),
        decreases v@.len() - i,
    {
        out.push(v[i]);
        proof {
            assert(v@.take(i as int).push(v@[i as int]) =~= v@.take(i as int + 1));
        }
        i = i + 1;
    }
    proof {
        assert(v@.take(v@.len() as int) =~= v@);
    }
    out
}

pub(crate) fn clone_epoch_state(e: &EpochState) -> (r: EpochState)
    ensures
        r@ == e@,
{
    EpochState { epoch: e.epoch, validators: clone_u64_vec(&e.validators) }
}

pub(crate) fn clone_ledger_info(li: &LedgerInfo) -> (r: LedgerInfo)
    ensures
        r@ == li@,
{
    LedgerInfo {
        epoch: li.epoch,
        round: li.round,
        version: li.version,
        id: li.id,
        next_epoch_state: match &li.next_epoch_state {
            Some(es) => Some(clone_epoch_state(es)),
            None => None,
        },
    }
}

pub(crate) fn clone_liws(l: &LedgerInfoWithSignatures) -> (r: LedgerInfoWithSignatures)
    ensures
        r@ == l@,
{
    LedgerInfoWithSignatures {
        ledger_info: clone_ledger_info(&l.ledger_info),
        signers: clone_u64_vec(&l.signers),
    }
}

pub(crate) fn clone_proof(p: &EpochChangeProof) -> (r: EpochChangeProof)
    ensures
        r@ == p@,
{
    let mut out: Vec<LedgerInfoWithSignatures> = Vec::new();
    let mut i: usize = 0;
    proof {
        assert(out@.map_values(|l: LedgerInfoWithSignatures| l@)
            =~= Seq::<LedgerInfoWithSignaturesView>::empty());
        assert(p@.ledger_infos.take(0) =~= Seq::<LedgerInfoWithSignaturesView>::empty());
    }
    while i < p.ledger_infos.len()
        invariant
            i <= p.ledger_infos@.len(),
            out@.map_values(|l: LedgerInfoWithSignatures| l@) == p@.ledger_infos.take(i as int),
        decreases p.ledger_infos@.len() - i,
    {
        let c = clone_liws(&p.ledger_infos[i]);
        proof {
            let f = |l: LedgerInfoWithSignatures| l@;
            assert(p@.ledger_infos[i as int] == p.ledger_infos@[i as int]@);
            assert(out@.push(c).map_values(f) =~= out@.map_values(f) + seq![c@]);
            assert(p@.ledger_infos.take(i as int) + seq![p@.ledger_infos[i as int]]
                =~= p@.ledger_infos.take(i as int + 1));
        }
        out.push(c);
        i = i + 1;
    }
    proof {
        assert(p@.ledger_infos.take(p.ledger_infos@.len() as int) =~= p@.ledger_infos);
    }
    EpochChangeProof { ledger_infos: out }
}

} // verus!
