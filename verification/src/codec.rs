//! The deterministic wire encoding used across the trust boundary.
//!
//! Every request and response is a flat sequence of 64-bit words — tags,
//! scalar fields in declaration order, and length-prefixed repetitions —
//! laid out as little-endian bytes. The format is canonical: a byte string
//! is the encoding of at most one value, decoding recognizes exactly the
//! encodings, and encoding then decoding returns the value unchanged.

use vstd::prelude::*;

use crate::safety_rules::Response;
use crate::serializer::{SafetyRulesInput, SafetyRulesInputView};
use crate::types::{
    BlockData, ConsensusState, EpochChangeProofView, EpochStateView, Error, LedgerInfoView,
    LedgerInfoWithSignaturesView, QuorumCert, Signature, Timeout, TwoChainTimeout,
    TwoChainTimeoutCertificate, Vote, VoteProposal,
};

verus! {

/// The little-endian byte image of one 64-bit word.
pub open spec fn u64_le(w: u64) -> Seq<u8> {
    seq![
        (w % 0x100) as u8,
        ((w / 0x100) % 0x100) as u8,
        ((w / 0x10000) % 0x100) as u8,
        ((w / 0x1000000) % 0x100) as u8,
        ((w / 0x100000000) % 0x100) as u8,
        ((w / 0x10000000000) % 0x100) as u8,
        ((w / 0x1000000000000) % 0x100) as u8,
        ((w / 0x100000000000000) % 0x100) as u8,
    ]
}

/// The word read back from eight little-endian bytes.
pub open spec fn u64_of_le(s: Seq<u8>) -> u64
    recommends
        s.len() == 8,
{
    (s[0] + s[1] * 0x100 + s[2] * 0x10000 + s[3] * 0x1000000 + s[4] * 0x100000000
        + s[5] * 0x10000000000 + s[6] * 0x1000000000000 + s[7] * 0x100000000000000) as u64
}

/// Reading back the byte image of a word yields the word.
pub proof fn lemma_u64_le_of_le(w: u64)
    ensures
        u64_of_le(u64_le(w)) == w,
{
    assert((w % 0x100) + ((w / 0x100) % 0x100) * 0x100 + ((w / 0x10000) % 0x100) * 0x10000
        + ((w / 0x1000000) % 0x100) * 0x1000000 + ((w / 0x100000000) % 0x100) * 0x100000000
        + ((w / 0x10000000000) % 0x100) * 0x10000000000
        + ((w / 0x1000000000000) % 0x100) * 0x1000000000000
        + ((w / 0x100000000000000) % 0x100) * 0x100000000000000 == w) by (bit_vector);
}

/// The byte image of a word sequence: each word in order, little-endian.
pub open spec fn words_to_bytes(ws: Seq<u64>) -> Seq<u8>
    decreases ws.len(),
{
    if ws.len() == 0 {
        Seq::empty()
    } else {
        u64_le(ws[0]) + words_to_bytes(ws.drop_first())
    }
}

/// The word image of a byte sequence whose length is a multiple of eight.
pub open spec fn bytes_to_words(bs: Seq<u8>) -> Seq<u64>
    decreases bs.len(),
{
    if bs.len() < 8 {
        Seq::empty()
    } else {
        seq![u64_of_le(bs.take(8))] + bytes_to_words(bs.skip(8))
    }
}

/// The byte image of `ws` is eight bytes per word.
pub proof fn lemma_words_to_bytes_len(ws: Seq<u64>)
    ensures
        words_to_bytes(ws).len() == 8 * ws.len(),
    decreases ws.len(),
{
    if ws.len() > 0 {
        lemma_words_to_bytes_len(ws.drop_first());
    }
}

/// Reading words back from the byte image of `ws` yields `ws`.
pub proof fn lemma_words_bytes_words(ws: Seq<u64>)
    ensures
        bytes_to_words(words_to_bytes(ws)) == ws,
    decreases ws.len(),
{
    if ws.len() == 0 {
        assert(bytes_to_words(words_to_bytes(ws)) =~= ws);
    } else {
        let bs = words_to_bytes(ws);
        lemma_words_to_bytes_len(ws.drop_first());
        assert(bs.take(8) =~= u64_le(ws[0]));
        assert(bs.skip(8) =~= words_to_bytes(ws.drop_first()));
        lemma_u64_le_of_le(ws[0]);
        lemma_words_bytes_words(ws.drop_first());
        assert(bytes_to_words(bs) =~= ws);
    }
}

/// Appends the little-endian image of `w` to `out`.
pub fn push_u64_le(out: &mut Vec<u8>, w: u64)
    ensures
        final(out)@ == old(out)@ + u64_le(w),
{
    let b0: u8 = (w % 0x100) as u8;
    let b1: u8 = ((w / 0x100) % 0x100) as u8;
    let b2: u8 = ((w / 0x10000) % 0x100) as u8;
    let b3: u8 = ((w / 0x1000000) % 0x100) as u8;
    let b4: u8 = ((w / 0x100000000) % 0x100) as u8;
    let b5: u8 = ((w / 0x10000000000) % 0x100) as u8;
    let b6: u8 = ((w / 0x1000000000000) % 0x100) as u8;
    let b7: u8 = ((w / 0x100000000000000) % 0x100) as u8;
    out.push(b0);
    out.push(b1);
    out.push(b2);
    out.push(b3);
    out.push(b4);
    out.push(b5);
    out.push(b6);
    out.push(b7);
    assert(out@ =~= old(out)@ + u64_le(w));
}

/// Serializes a word sequence to its byte image.
pub fn words_to_bytes_exec(ws: &Vec<u64>) -> (r: Vec<u8>)
    ensures
        r@ == words_to_bytes(ws@),
{
    let mut out: Vec<u8> = Vec::new();
    let mut i: usize = 0;
    proof {
        lemma_words_to_bytes_len(ws@);
    }
    while i < ws.len()
        invariant
            i <= ws@.len(),
            out@ == words_to_bytes(ws@.take(i as int)),
        decreases ws@.len() - i,
    {
        proof {
            lemma_words_to_bytes_snoc(ws@.take(i as int), ws@[i as int]);
            assert(ws@.take(i as int).push(ws@[i as int]) =~= ws@.take(i as int + 1));
        }
        push_u64_le(&mut out, ws[i]);
        i = i + 1;
    }
    proof {
        assert(ws@.take(ws@.len() as int) =~= ws@);
    }
    out
}

/// Appending one word appends its byte image.
#[verifier::rlimit(50)]
pub proof fn lemma_words_to_bytes_snoc(ws: Seq<u64>, w: u64)
    ensures
        words_to_bytes(ws.push(w)) == words_to_bytes(ws) + u64_le(w),
    decreases ws.len(),
{
    if ws.len() == 0 {
        assert(ws.push(w).drop_first() =~= Seq::<u64>::empty());
        assert(words_to_bytes(ws.push(w)) == u64_le(w) + words_to_bytes(Seq::<u64>::empty()));
        assert(u64_le(w) + Seq::<u8>::empty() =~= u64_le(w));
        assert(words_to_bytes(ws) + u64_le(w) =~= u64_le(w));
    } else {
        assert(ws.push(w)[0] == ws[0]);
        assert(ws.push(w).drop_first() =~= ws.drop_first().push(w));
        lemma_words_to_bytes_snoc(ws.drop_first(), w);
        assert(words_to_bytes(ws.push(w)) == u64_le(ws[0]) + (words_to_bytes(ws.drop_first())
            + u64_le(w)));
        assert(u64_le(ws[0]) + (words_to_bytes(ws.drop_first()) + u64_le(w)) =~= (u64_le(ws[0])
            + words_to_bytes(ws.drop_first())) + u64_le(w));
    }
}

/// Reads one word from eight bytes of `bs` starting at `i`.
pub fn read_u64_le(bs: &Vec<u8>, i: usize) -> (r: u64)
    requires
        i + 8 <= bs@.len(),
    ensures
        r == u64_of_le(bs@.subrange(i as int, i as int + 8)),
{
    proof {
        assert(bs@.len() == bs.len());
    }
    let b0: u64 = bs[i] as u64;
    let b1: u64 = bs[i + 1] as u64;
    let b2: u64 = bs[i + 2] as u64;
    let b3: u64 = bs[i + 3] as u64;
    let b4: u64 = bs[i + 4] as u64;
    let b5: u64 = bs[i + 5] as u64;
    let b6: u64 = bs[i + 6] as u64;
    let b7: u64 = bs[i + 7] as u64;
    proof {
        let s = bs@.subrange(i as int, i as int + 8);
        assert(s[0] == bs@[i as int] && s[1] == bs@[i as int + 1] && s[2] == bs@[i as int + 2]
            && s[3] == bs@[i as int + 3] && s[4] == bs@[i as int + 4] && s[5] == bs@[i as int + 5]
            && s[6] == bs@[i as int + 6] && s[7] == bs@[i as int + 7]);
        assert(b0 < 0x100 && b1 < 0x100 && b2 < 0x100 && b3 < 0x100 && b4 < 0x100 && b5 < 0x100
            && b6 < 0x100 && b7 < 0x100);
        assert(b0 + b1 * 0x100 + b2 * 0x10000 + b3 * 0x1000000 + b4 * 0x100000000
            + b5 * 0x10000000000 + b6 * 0x1000000000000 + b7 * 0x100000000000000
            <= 0xffffffffffffffff) by (bit_vector)
            requires
                b0 < 0x100 && b1 < 0x100 && b2 < 0x100 && b3 < 0x100 && b4 < 0x100 && b5 < 0x100
                    && b6 < 0x100 && b7 < 0x100,
        ;
    }
    b0 + b1 * 0x100 + b2 * 0x10000 + b3 * 0x1000000 + b4 * 0x100000000 + b5 * 0x10000000000
        + b6 * 0x1000000000000 + b7 * 0x100000000000000
}

/// Deserializes a byte image back to its words; `None` unless the length
/// is word-aligned.
pub fn bytes_to_words_exec(bs: &Vec<u8>) -> (r: Option<Vec<u64>>)
    ensures
        match r {
            Some(ws) => bs@.len() % 8 == 0 && ws@ == bytes_to_words(bs@),
            None => bs@.len() % 8 != 0,
        },
{
    if bs.len() % 8 != 0 {
        return None;
    }
    let mut out: Vec<u64> = Vec::new();
    let mut i: usize = 0;
    proof {
        assert(bs@.skip(0) =~= bs@);
        assert(Seq::<u64>::empty() + bytes_to_words(bs@) =~= bytes_to_words(bs@));
    }
    while i < bs.len()
        invariant
            bs@.len() % 8 == 0,
            i <= bs@.len(),
            i % 8 == 0,
            bytes_to_words(bs@) == out@ + bytes_to_words(bs@.skip(i as int)),
        decreases bs@.len() - i,
    {
        assert(bs@.len() - i >= 8) by {
            assert(i < bs@.len());
            assert(i as int % 8 == 0 && bs@.len() as int % 8 == 0);
        };
        let w = read_u64_le(bs, i);
        proof {
            let rest = bs@.skip(i as int);
            assert(rest.len() >= 8);
            assert(rest.take(8) =~= bs@.subrange(i as int, i as int + 8));
            assert(rest.skip(8) =~= bs@.skip(i as int + 8));
            assert(bytes_to_words(rest) == seq![u64_of_le(rest.take(8))] + bytes_to_words(
                rest.skip(8),
            ));
            assert(out@.push(w) + bytes_to_words(bs@.skip(i as int + 8)) =~= out@ + bytes_to_words(
                bs@.skip(i as int),
            ));
        }
        out.push(w);
        i = i + 8;
    }
    proof {
        assert(bs@.skip(bs@.len() as int) =~= Seq::<u8>::empty());
        assert(bytes_to_words(bs@) =~= out@);
    }
    Some(out)
}

// ---------------------------------------------------------------------------
// The word-level grammar. Each value is a fixed run of words: tags, scalar
// fields in declaration order, and length-prefixed repetitions. The spec
// encoders below define the format; the spec parsers consume words from the
// front and return the remainder, and recognize exactly the encodings.
// ---------------------------------------------------------------------------

/// A word run fits the format only if every repetition count fits a word.
pub open spec fn bounded_epoch_state(e: EpochStateView) -> bool {
    e.validators.len() <= u64::MAX
}

pub open spec fn bounded_ledger_info(li: LedgerInfoView) -> bool {
    match li.next_epoch_state {
        Some(es) => bounded_epoch_state(es),
        None => true,
    }
}

pub open spec fn bounded_liws(l: LedgerInfoWithSignaturesView) -> bool {
    bounded_ledger_info(l.ledger_info) && l.signers.len() <= u64::MAX
}

pub open spec fn bounded_proof(p: EpochChangeProofView) -> bool {
    &&& p.ledger_infos.len() <= u64::MAX
    &&& forall|i: int| 0 <= i < p.ledger_infos.len() ==> bounded_liws(#[trigger] p.ledger_infos[i])
}

pub open spec fn bounded_input(v: SafetyRulesInputView) -> bool {
    match v {
        SafetyRulesInputView::Initialize(p) => bounded_proof(p),
        SafetyRulesInputView::SignCommitVote(liws, li) => bounded_liws(liws)
            && bounded_ledger_info(li),
        _ => true,
    }
}

/// Every request held in executable form is bounded: a vector's length
/// fits a machine word, hence a wire word.
pub proof fn lemma_input_bounded(v: SafetyRulesInput)
    ensures
        bounded_input(v@),
{
    match v {
        SafetyRulesInput::Initialize(p) => {
            assert(p.ledger_infos@.len() == p.ledger_infos.len());
            assert forall|i: int| 0 <= i < p@.ledger_infos.len() implies bounded_liws(
                #[trigger] p@.ledger_infos[i],
            ) by {
                let l = p.ledger_infos@[i];
                assert(p@.ledger_infos[i] == l@);
                lemma_liws_bounded(l);
            }
        },
        SafetyRulesInput::SignCommitVote(liws, li) => {
            lemma_liws_bounded(liws);
            lemma_ledger_info_bounded(li);
        },
        _ => {
        },
    }
}

proof fn lemma_ledger_info_bounded(li: crate::types::LedgerInfo)
    ensures
        bounded_ledger_info(li@),
{
    match li.next_epoch_state {
        Some(es) => {
            assert(es.validators@.len() == es.validators.len());
        },
        None => {
        },
    }
}

proof fn lemma_liws_bounded(l: crate::types::LedgerInfoWithSignatures)
    ensures
        bounded_liws(l@),
{
    lemma_ledger_info_bounded(l.ledger_info);
    assert(l.signers@.len() == l.signers.len());
}

pub open spec fn enc_vec_u64(s: Seq<u64>) -> Seq<u64> {
    seq![s.len() as u64] + s
}

pub open spec fn enc_epoch_state(e: EpochStateView) -> Seq<u64> {
    seq![e.epoch] + enc_vec_u64(e.validators)
}

pub open spec fn enc_opt_epoch_state(o: Option<EpochStateView>) -> Seq<u64> {
    match o {
        None => seq![0u64],
        Some(e) => seq![1u64] + enc_epoch_state(e),
    }
}

pub open spec fn enc_ledger_info(li: LedgerInfoView) -> Seq<u64> {
    seq![li.epoch, li.round, li.version, li.id] + enc_opt_epoch_state(li.next_epoch_state)
}

pub open spec fn enc_liws(l: LedgerInfoWithSignaturesView) -> Seq<u64> {
    enc_ledger_info(l.ledger_info) + enc_vec_u64(l.signers)
}

pub open spec fn enc_liws_seq(s: Seq<LedgerInfoWithSignaturesView>) -> Seq<u64>
    decreases s.len(),
{
    if s.len() == 0 {
        Seq::empty()
    } else {
        enc_liws(s[0]) + enc_liws_seq(s.drop_first())
    }
}

pub open spec fn enc_proof(p: EpochChangeProofView) -> Seq<u64> {
    seq![p.ledger_infos.len() as u64] + enc_liws_seq(p.ledger_infos)
}

pub open spec fn enc_block(b: BlockData) -> Seq<u64> {
    seq![b.epoch, b.round, b.author, b.id, b.quorum_cert.epoch, b.quorum_cert.round]
}

pub open spec fn enc_timeout(t: Timeout) -> Seq<u64> {
    seq![t.epoch, t.round]
}

pub open spec fn enc_two_chain_timeout(t: TwoChainTimeout) -> Seq<u64> {
    seq![t.epoch, t.round, t.hqc_round]
}

pub open spec fn enc_opt_tc(o: Option<TwoChainTimeoutCertificate>) -> Seq<u64> {
    match o {
        None => seq![0u64],
        Some(tc) => seq![1u64, tc.epoch, tc.round],
    }
}

/// The request wire image: an operation tag, then that operation's
/// arguments.
pub open spec fn enc_input(v: SafetyRulesInputView) -> Seq<u64> {
    match v {
        SafetyRulesInputView::ConsensusState => seq![0u64],
        SafetyRulesInputView::Initialize(p) => seq![1u64] + enc_proof(p),
        SafetyRulesInputView::ConstructAndSignVote(vp) => seq![2u64] + enc_block(vp.block_data),
        SafetyRulesInputView::SignProposal(b) => seq![3u64] + enc_block(b),
        SafetyRulesInputView::SignTimeout(t) => seq![4u64] + enc_timeout(t),
        SafetyRulesInputView::SignTimeoutWithQC(t, tc) => seq![5u64] + enc_two_chain_timeout(t)
            + enc_opt_tc(tc),
        SafetyRulesInputView::ConstructAndSignVoteTwoChain(vp, tc) => seq![6u64] + enc_block(
            vp.block_data,
        ) + enc_opt_tc(tc),
        SafetyRulesInputView::SignCommitVote(liws, li) => seq![7u64] + enc_liws(liws)
            + enc_ledger_info(li),
    }
}

/// The error wire code.
pub open spec fn err_code(e: Error) -> u64 {
    match e {
        Error::NotInitialized => 0,
        Error::InvalidEpochChangeProof => 1,
        Error::IncorrectEpoch => 2,
        Error::SafetyViolation => 3,
        Error::InvalidCertificate => 4,
        Error::SerializationError => 5,
        Error::SecureStorageError => 6,
        Error::InternalError => 7,
    }
}

pub open spec fn err_of_code(c: u64) -> Option<Error> {
    if c == 0 {
        Some(Error::NotInitialized)
    } else if c == 1 {
        Some(Error::InvalidEpochChangeProof)
    } else if c == 2 {
        Some(Error::IncorrectEpoch)
    } else if c == 3 {
        Some(Error::SafetyViolation)
    } else if c == 4 {
        Some(Error::InvalidCertificate)
    } else if c == 5 {
        Some(Error::SerializationError)
    } else if c == 6 {
        Some(Error::SecureStorageError)
    } else if c == 7 {
        Some(Error::InternalError)
    } else {
        None
    }
}

pub open spec fn enc_sig(s: Signature) -> Seq<u64> {
    seq![s.signer, s.epoch, s.round, s.id]
}

pub open spec fn enc_vote(v: Vote) -> Seq<u64> {
    seq![v.author, v.epoch, v.round, v.id] + enc_sig(v.signature)
}

/// The response wire image: a result tag, then the success value or the
/// error code.
pub open spec fn enc_response(r: Response) -> Seq<u64> {
    match r {
        Response::State(cs) => seq![
            0u64,
            cs.epoch,
            cs.last_voted_round,
            cs.preferred_round,
            if cs.in_validator_set {
                1u64
            } else {
                0u64
            },
        ],
        Response::Unit => seq![1u64],
        Response::Vote(v) => seq![2u64] + enc_vote(v),
        Response::Sig(s) => seq![3u64] + enc_sig(s),
        Response::Failure(e) => seq![4u64, err_code(e)],
    }
}

// -------------------------------- parsers ---------------------------------

pub open spec fn parse_u64(s: Seq<u64>) -> Option<(u64, Seq<u64>)> {
    if s.len() >= 1 {
        Some((s[0], s.drop_first()))
    } else {
        None
    }
}

pub open spec fn parse_vec_u64(s: Seq<u64>) -> Option<(Seq<u64>, Seq<u64>)> {
    match parse_u64(s) {
        None => None,
        Some((n, r)) => if r.len() >= n {
            Some((r.take(n as int), r.skip(n as int)))
        } else {
            None
        },
    }
}

pub open spec fn parse_epoch_state(s: Seq<u64>) -> Option<(EpochStateView, Seq<u64>)> {
    match parse_u64(s) {
        None => None,
        Some((epoch, r)) => match parse_vec_u64(r) {
            None => None,
            Some((vs, r2)) => Some((EpochStateView { epoch, validators: vs }, r2)),
        },
    }
}

pub open spec fn parse_opt_epoch_state(s: Seq<u64>) -> Option<(Option<EpochStateView>, Seq<u64>)> {
    match parse_u64(s) {
        None => None,
        Some((tag, r)) => if tag == 0 {
            Some((None, r))
        } else if tag == 1 {
            match parse_epoch_state(r) {
                None => None,
                Some((e, r2)) => Some((Some(e), r2)),
            }
        } else {
            None
        },
    }
}

pub open spec fn parse_ledger_info(s: Seq<u64>) -> Option<(LedgerInfoView, Seq<u64>)> {
    if s.len() >= 4 {
        match parse_opt_epoch_state(s.skip(4)) {
            None => None,
            Some((nes, r)) => Some(
                (
                    LedgerInfoView {
                        epoch: s[0],
                        round: s[1],
                        version: s[2],
                        id: s[3],
                        next_epoch_state: nes,
                    },
                    r,
                ),
            ),
        }
    } else {
        None
    }
}

pub open spec fn parse_liws(s: Seq<u64>) -> Option<(LedgerInfoWithSignaturesView, Seq<u64>)> {
    match parse_ledger_info(s) {
        None => None,
        Some((li, r)) => match parse_vec_u64(r) {
            None => None,
            Some((signers, r2)) => Some(
                (LedgerInfoWithSignaturesView { ledger_info: li, signers }, r2),
            ),
        },
    }
}

pub open spec fn parse_liws_seq(s: Seq<u64>, n: nat) -> Option<
    (Seq<LedgerInfoWithSignaturesView>, Seq<u64>),
>
    decreases n,
{
    if n == 0 {
        Some((Seq::empty(), s))
    } else {
        match parse_liws(s) {
            None => None,
            Some((l, r)) => match parse_liws_seq(r, (n - 1) as nat) {
                None => None,
                Some((ls, r2)) => Some((seq![l] + ls, r2)),
            },
        }
    }
}

pub open spec fn parse_proof(s: Seq<u64>) -> Option<(EpochChangeProofView, Seq<u64>)> {
    match parse_u64(s) {
        None => None,
        Some((n, r)) => match parse_liws_seq(r, n as nat) {
            None => None,
            Some((ls, r2)) => Some((EpochChangeProofView { ledger_infos: ls }, r2)),
        },
    }
}

pub open spec fn parse_block(s: Seq<u64>) -> Option<(BlockData, Seq<u64>)> {
    if s.len() >= 6 {
        Some(
            (
                BlockData {
                    epoch: s[0],
                    round: s[1],
                    author: s[2],
                    id: s[3],
                    quorum_cert: QuorumCert { epoch: s[4], round: s[5] },
                },
                s.skip(6),
            ),
        )
    } else {
        None
    }
}

pub open spec fn parse_timeout(s: Seq<u64>) -> Option<(Timeout, Seq<u64>)> {
    if s.len() >= 2 {
        Some((Timeout { epoch: s[0], round: s[1] }, s.skip(2)))
    } else {
        None
    }
}

pub open spec fn parse_two_chain_timeout(s: Seq<u64>) -> Option<(TwoChainTimeout, Seq<u64>)> {
    if s.len() >= 3 {
        Some((TwoChainTimeout { epoch: s[0], round: s[1], hqc_round: s[2] }, s.skip(3)))
    } else {
        None
    }
}

pub open spec fn parse_opt_tc(s: Seq<u64>) -> Option<
    (Option<TwoChainTimeoutCertificate>, Seq<u64>),
> {
    match parse_u64(s) {
        None => None,
        Some((tag, r)) => if tag == 0 {
            Some((None, r))
        } else if tag == 1 {
            if r.len() >= 2 {
                Some((Some(TwoChainTimeoutCertificate { epoch: r[0], round: r[1] }), r.skip(2)))
            } else {
                None
            }
        } else {
            None
        },
    }
}

/// Recognizes a request word image: the operation tag, its arguments, and
/// nothing after them.
pub open spec fn parse_input(s: Seq<u64>) -> Option<SafetyRulesInputView> {
    match parse_u64(s) {
        None => None,
        Some((tag, r)) => if tag == 0 {
            if r.len() == 0 {
                Some(SafetyRulesInputView::ConsensusState)
            } else {
                None
            }
        } else if tag == 1 {
            match parse_proof(r) {
                Some((p, r2)) => if r2.len() == 0 {
                    Some(SafetyRulesInputView::Initialize(p))
                } else {
                    None
                },
                None => None,
            }
        } else if tag == 2 {
            match parse_block(r) {
                Some((b, r2)) => if r2.len() == 0 {
                    Some(SafetyRulesInputView::ConstructAndSignVote(VoteProposal { block_data: b }))
                } else {
                    None
                },
                None => None,
            }
        } else if tag == 3 {
            match parse_block(r) {
                Some((b, r2)) => if r2.len() == 0 {
                    Some(SafetyRulesInputView::SignProposal(b))
                } else {
                    None
                },
                None => None,
            }
        } else if tag == 4 {
            match parse_timeout(r) {
                Some((t, r2)) => if r2.len() == 0 {
                    Some(SafetyRulesInputView::SignTimeout(t))
                } else {
                    None
                },
                None => None,
            }
        } else if tag == 5 {
            match parse_two_chain_timeout(r) {
                Some((t, r2)) => match parse_opt_tc(r2) {
                    Some((tc, r3)) => if r3.len() == 0 {
                        Some(SafetyRulesInputView::SignTimeoutWithQC(t, tc))
                    } else {
                        None
                    },
                    None => None,
                },
                None => None,
            }
        } else if tag == 6 {
            match parse_block(r) {
                Some((b, r2)) => match parse_opt_tc(r2) {
                    Some((tc, r3)) => if r3.len() == 0 {
                        Some(
                            SafetyRulesInputView::ConstructAndSignVoteTwoChain(
                                VoteProposal { block_data: b },
                                tc,
                            ),
                        )
                    } else {
                        None
                    },
                    None => None,
                },
                None => None,
            }
        } else if tag == 7 {
            match parse_liws(r) {
                Some((liws, r2)) => match parse_ledger_info(r2) {
                    Some((li, r3)) => if r3.len() == 0 {
                        Some(SafetyRulesInputView::SignCommitVote(liws, li))
                    } else {
                        None
                    },
                    None => None,
                },
                None => None,
            }
        } else {
            None
        },
    }
}

// ---------------------- the parsers accept the encoders --------------------

proof fn lemma_parse_u64_cons(w: u64, rest: Seq<u64>)
    ensures
        parse_u64(seq![w] + rest) == Some((w, rest)),
{
    assert((seq![w] + rest)[0] == w);
    assert((seq![w] + rest).drop_first() =~= rest);
}

proof fn lemma_parse_vec_u64(s: Seq<u64>, rest: Seq<u64>)
    requires
        s.len() <= u64::MAX,
    ensures
        parse_vec_u64(enc_vec_u64(s) + rest) == Some((s, rest)),
{
    let n = s.len() as u64;
    assert(enc_vec_u64(s) + rest =~= seq![n] + (s + rest));
    lemma_parse_u64_cons(n, s + rest);
    assert((s + rest).len() >= n);
    assert((s + rest).take(n as int) =~= s);
    assert((s + rest).skip(n as int) =~= rest);
}

proof fn lemma_parse_epoch_state(e: EpochStateView, rest: Seq<u64>)
    requires
        bounded_epoch_state(e),
    ensures
        parse_epoch_state(enc_epoch_state(e) + rest) == Some((e, rest)),
{
    assert(enc_epoch_state(e) + rest =~= seq![e.epoch] + (enc_vec_u64(e.validators) + rest));
    lemma_parse_u64_cons(e.epoch, enc_vec_u64(e.validators) + rest);
    lemma_parse_vec_u64(e.validators, rest);
}

proof fn lemma_parse_opt_epoch_state(o: Option<EpochStateView>, rest: Seq<u64>)
    requires
        match o {
            Some(e) => bounded_epoch_state(e),
            None => true,
        },
    ensures
        parse_opt_epoch_state(enc_opt_epoch_state(o) + rest) == Some((o, rest)),
{
    match o {
        None => {
            lemma_parse_u64_cons(0u64, rest);
            assert(seq![0u64] + rest =~= enc_opt_epoch_state(o) + rest);
        },
        Some(e) => {
            assert(enc_opt_epoch_state(o) + rest =~= seq![1u64] + (enc_epoch_state(e) + rest));
            lemma_parse_u64_cons(1u64, enc_epoch_state(e) + rest);
            lemma_parse_epoch_state(e, rest);
        },
    }
}

proof fn lemma_parse_ledger_info(li: LedgerInfoView, rest: Seq<u64>)
    requires
        bounded_ledger_info(li),
    ensures
        parse_ledger_info(enc_ledger_info(li) + rest) == Some((li, rest)),
{
    let s = enc_ledger_info(li) + rest;
    assert(s.len() >= 4);
    assert(s[0] == li.epoch && s[1] == li.round && s[2] == li.version && s[3] == li.id);
    assert(s.skip(4) =~= enc_opt_epoch_state(li.next_epoch_state) + rest);
    lemma_parse_opt_epoch_state(li.next_epoch_state, rest);
}

proof fn lemma_parse_liws(l: LedgerInfoWithSignaturesView, rest: Seq<u64>)
    requires
        bounded_liws(l),
    ensures
        parse_liws(enc_liws(l) + rest) == Some((l, rest)),
{
    assert(enc_liws(l) + rest =~= enc_ledger_info(l.ledger_info) + (enc_vec_u64(l.signers)
        + rest));
    lemma_parse_ledger_info(l.ledger_info, enc_vec_u64(l.signers) + rest);
    lemma_parse_vec_u64(l.signers, rest);
}

#[verifier::rlimit(100)]
proof fn lemma_parse_liws_seq(ls: Seq<LedgerInfoWithSignaturesView>, rest: Seq<u64>)
    requires
        forall|i: int| 0 <= i < ls.len() ==> bounded_liws(#[trigger] ls[i]),
    ensures
        parse_liws_seq(enc_liws_seq(ls) + rest, ls.len()) == Some((ls, rest)),
    decreases ls.len(),
{
    if ls.len() == 0 {
        assert(enc_liws_seq(ls) + rest =~= rest);
        assert(ls =~= Seq::<LedgerInfoWithSignaturesView>::empty());
    } else {
        assert(enc_liws_seq(ls) + rest =~= enc_liws(ls[0]) + (enc_liws_seq(ls.drop_first())
            + rest));
        lemma_parse_liws(ls[0], enc_liws_seq(ls.drop_first()) + rest);
        lemma_parse_liws_seq(ls.drop_first(), rest);
        assert(seq![ls[0]] + ls.drop_first() =~= ls);
    }
}

proof fn lemma_parse_proof(p: EpochChangeProofView, rest: Seq<u64>)
    requires
        bounded_proof(p),
    ensures
        parse_proof(enc_proof(p) + rest) == Some((p, rest)),
{
    let n = p.ledger_infos.len() as u64;
    assert(enc_proof(p) + rest =~= seq![n] + (enc_liws_seq(p.ledger_infos) + rest));
    lemma_parse_u64_cons(n, enc_liws_seq(p.ledger_infos) + rest);
    lemma_parse_liws_seq(p.ledger_infos, rest);
    assert(n as nat == p.ledger_infos.len());
}

proof fn lemma_parse_block(b: BlockData, rest: Seq<u64>)
    ensures
        parse_block(enc_block(b) + rest) == Some((b, rest)),
{
    let s = enc_block(b) + rest;
    assert(s.len() >= 6);
    assert(s[0] == b.epoch && s[1] == b.round && s[2] == b.author && s[3] == b.id && s[4]
        == b.quorum_cert.epoch && s[5] == b.quorum_cert.round);
    assert(s.skip(6) =~= rest);
}

proof fn lemma_parse_timeout(t: Timeout, rest: Seq<u64>)
    ensures
        parse_timeout(enc_timeout(t) + rest) == Some((t, rest)),
{
    let s = enc_timeout(t) + rest;
    assert(s[0] == t.epoch && s[1] == t.round);
    assert(s.skip(2) =~= rest);
}

proof fn lemma_parse_two_chain_timeout(t: TwoChainTimeout, rest: Seq<u64>)
    ensures
        parse_two_chain_timeout(enc_two_chain_timeout(t) + rest) == Some((t, rest)),
{
    let s = enc_two_chain_timeout(t) + rest;
    assert(s[0] == t.epoch && s[1] == t.round && s[2] == t.hqc_round);
    assert(s.skip(3) =~= rest);
}

proof fn lemma_parse_opt_tc(o: Option<TwoChainTimeoutCertificate>, rest: Seq<u64>)
    ensures
        parse_opt_tc(enc_opt_tc(o) + rest) == Some((o, rest)),
{
    match o {
        None => {
            lemma_parse_u64_cons(0u64, rest);
            assert(seq![0u64] + rest =~= enc_opt_tc(o) + rest);
        },
        Some(tc) => {
            let s = enc_opt_tc(o) + rest;
            assert(s[0] == 1u64);
            let r = s.drop_first();
            assert(r =~= seq![tc.epoch, tc.round] + rest);
            assert(r[0] == tc.epoch && r[1] == tc.round);
            assert(r.skip(2) =~= rest);
        },
    }
}

/// Parsing the word image of a request yields the request.
proof fn lemma_parse_input(v: SafetyRulesInputView)
    requires
        bounded_input(v),
    ensures
        parse_input(enc_input(v)) == Some(v),
{
    let empty = Seq::<u64>::empty();
    match v {
        SafetyRulesInputView::ConsensusState => {
            lemma_parse_u64_cons(0u64, empty);
            assert(seq![0u64] + empty =~= enc_input(v));
        },
        SafetyRulesInputView::Initialize(p) => {
            assert(enc_input(v) =~= seq![1u64] + (enc_proof(p) + empty));
            lemma_parse_u64_cons(1u64, enc_proof(p) + empty);
            lemma_parse_proof(p, empty);
        },
        SafetyRulesInputView::ConstructAndSignVote(vp) => {
            assert(enc_input(v) =~= seq![2u64] + (enc_block(vp.block_data) + empty));
            lemma_parse_u64_cons(2u64, enc_block(vp.block_data) + empty);
            lemma_parse_block(vp.block_data, empty);
        },
        SafetyRulesInputView::SignProposal(b) => {
            assert(enc_input(v) =~= seq![3u64] + (enc_block(b) + empty));
            lemma_parse_u64_cons(3u64, enc_block(b) + empty);
            lemma_parse_block(b, empty);
        },
        SafetyRulesInputView::SignTimeout(t) => {
            assert(enc_input(v) =~= seq![4u64] + (enc_timeout(t) + empty));
            lemma_parse_u64_cons(4u64, enc_timeout(t) + empty);
            lemma_parse_timeout(t, empty);
        },
        SafetyRulesInputView::SignTimeoutWithQC(t, tc) => {
            assert(enc_input(v) =~= seq![5u64] + (enc_two_chain_timeout(t) + enc_opt_tc(tc)));
            lemma_parse_u64_cons(5u64, enc_two_chain_timeout(t) + enc_opt_tc(tc));
            lemma_parse_two_chain_timeout(t, enc_opt_tc(tc));
            lemma_parse_opt_tc(tc, empty);
            assert(enc_opt_tc(tc) + empty =~= enc_opt_tc(tc));
        },
        SafetyRulesInputView::ConstructAndSignVoteTwoChain(vp, tc) => {
            assert(enc_input(v) =~= seq![6u64] + (enc_block(vp.block_data) + enc_opt_tc(tc)));
            lemma_parse_u64_cons(6u64, enc_block(vp.block_data) + enc_opt_tc(tc));
            lemma_parse_block(vp.block_data, enc_opt_tc(tc));
            lemma_parse_opt_tc(tc, empty);
            assert(enc_opt_tc(tc) + empty =~= enc_opt_tc(tc));
        },
        SafetyRulesInputView::SignCommitVote(liws, li) => {
            assert(enc_input(v) =~= seq![7u64] + (enc_liws(liws) + enc_ledger_info(li)));
            lemma_parse_u64_cons(7u64, enc_liws(liws) + enc_ledger_info(li));
            lemma_parse_liws(liws, enc_ledger_info(li));
            lemma_parse_ledger_info(li, empty);
            assert(enc_ledger_info(li) + empty =~= enc_ledger_info(li));
        },
    }
}

/// Recognizes a response word image.
pub open spec fn parse_response(s: Seq<u64>) -> Option<Response> {
    match parse_u64(s) {
        None => None,
        Some((tag, r)) => if tag == 0 {
            if r.len() == 4 && (r[3] == 0 || r[3] == 1) {
                Some(
                    Response::State(
                        ConsensusState {
                            epoch: r[0],
                            last_voted_round: r[1],
                            preferred_round: r[2],
                            in_validator_set: r[3] == 1,
                        },
                    ),
                )
            } else {
                None
            }
        } else if tag == 1 {
            if r.len() == 0 {
                Some(Response::Unit)
            } else {
                None
            }
        } else if tag == 2 {
            if r.len() == 8 {
                Some(
                    Response::Vote(
                        Vote {
                            author: r[0],
                            epoch: r[1],
                            round: r[2],
                            id: r[3],
                            signature: Signature {
                                signer: r[4],
                                epoch: r[5],
                                round: r[6],
                                id: r[7],
                            },
                        },
                    ),
                )
            } else {
                None
            }
        } else if tag == 3 {
            if r.len() == 4 {
                Some(Response::Sig(Signature { signer: r[0], epoch: r[1], round: r[2], id: r[3] }))
            } else {
                None
            }
        } else if tag == 4 {
            if r.len() == 1 {
                match err_of_code(r[0]) {
                    Some(e) => Some(Response::Failure(e)),
                    None => None,
                }
            } else {
                None
            }
        } else {
            None
        },
    }
}

/// Parsing the word image of a response yields the response.
proof fn lemma_parse_response_words(r: Response)
    ensures
        parse_response(enc_response(r)) == Some(r),
{
    let s = enc_response(r);
    match r {
        Response::State(cs) => {
            assert(s.drop_first() =~= seq![
                cs.epoch,
                cs.last_voted_round,
                cs.preferred_round,
                if cs.in_validator_set {
                    1u64
                } else {
                    0u64
                },
            ]);
        },
        Response::Unit => {
            assert(s.drop_first() =~= Seq::<u64>::empty());
        },
        Response::Vote(v) => {
            assert(s.drop_first() =~= enc_vote(v));
            assert(enc_vote(v).len() == 8);
        },
        Response::Sig(sg) => {
            assert(s.drop_first() =~= enc_sig(sg));
        },
        Response::Failure(e) => {
            assert(s.drop_first() =~= seq![err_code(e)]);
            assert(err_of_code(err_code(e)) == Some(e));
        },
    }
}

// ----------------------------- the byte format -----------------------------

/// The wire bytes of a request.
pub open spec fn spec_encode_request(v: SafetyRulesInputView) -> Seq<u8> {
    words_to_bytes(enc_input(v))
}

/// The request recognized by a byte string, if any: the bytes must be a
/// whole number of words spelling a request image.
pub open spec fn spec_decode_request(bs: Seq<u8>) -> Option<SafetyRulesInputView> {
    if bs.len() % 8 == 0 {
        parse_input(bytes_to_words(bs))
    } else {
        None
    }
}

/// The wire bytes of a response.
pub open spec fn spec_encode_response(r: Response) -> Seq<u8> {
    words_to_bytes(enc_response(r))
}

/// The response recognized by a byte string, if any.
pub open spec fn spec_decode_response(bs: Seq<u8>) -> Option<Response> {
    if bs.len() % 8 == 0 {
        parse_response(bytes_to_words(bs))
    } else {
        None
    }
}

/// Round-trip law, request side: encoding any request and decoding the
/// bytes yields that request back. (Boundedness asks only that every list
/// in the request has a length that fits a word, which holds of any request
/// built from vectors.)
pub proof fn lemma_request_round_trip(v: SafetyRulesInputView)
    requires
        bounded_input(v),
    ensures
        spec_decode_request(spec_encode_request(v)) == Some(v),
{
    lemma_words_to_bytes_len(enc_input(v));
    lemma_words_bytes_words(enc_input(v));
    lemma_parse_input(v);
}

/// Round-trip law, response side: encoding any result — a success value or
/// an error — and decoding the bytes yields that result back.
pub proof fn lemma_response_round_trip(r: Response)
    ensures
        spec_decode_response(spec_encode_response(r)) == Some(r),
{
    lemma_words_to_bytes_len(enc_response(r));
    lemma_words_bytes_words(enc_response(r));
    lemma_parse_response_words(r);
}

// --------------------------- executable encoders ---------------------------

fn push_word(out: &mut Vec<u64>, w: u64)
    ensures
        final(out)@ == old(out)@ + seq![w],
{
    out.push(w);
    assert(old(out)@.push(w) =~= old(out)@ + seq![w]);
}

fn push_vec_u64(out: &mut Vec<u64>, v: &Vec<u64>)
    ensures
        final(out)@ == old(out)@ + enc_vec_u64(v@),
{
    let n: u64 = v.len() as u64;
    push_word(out, n);
    let mut k: usize = 0;
    while k < v.len()
        invariant
            k <= v@.len(),
            out@ == old(out)@ + seq![v@.len() as u64] + v@.take(k as int),
        decreases v@.len() - k,
    {
        push_word(out, v[k]);
        proof {
            assert(v@.take(k as int) + seq![v@[k as int]] =~= v@.take(k as int + 1));
            assert(old(out)@ + seq![v@.len() as u64] + v@.take(k as int) + seq![v@[k as int]]
                =~= old(out)@ + seq![v@.len() as u64] + v@.take(k as int + 1));
        }
        k = k + 1;
    }
    proof {
        assert(v@.take(v@.len() as int) =~= v@);
        assert(old(out)@ + seq![v@.len() as u64] + v@ =~= old(out)@ + enc_vec_u64(v@));
    }
}

fn push_epoch_state(out: &mut Vec<u64>, e: &crate::types::EpochState)
    ensures
        final(out)@ == old(out)@ + enc_epoch_state(e@),
{
    push_word(out, e.epoch);
    push_vec_u64(out, &e.validators);
    assert(old(out)@ + seq![e.epoch] + enc_vec_u64(e.validators@) =~= old(out)@
        + enc_epoch_state(e@));
}

fn push_ledger_info(out: &mut Vec<u64>, li: &crate::types::LedgerInfo)
    ensures
        final(out)@ == old(out)@ + enc_ledger_info(li@),
{
    push_word(out, li.epoch);
    push_word(out, li.round);
    push_word(out, li.version);
    push_word(out, li.id);
    match &li.next_epoch_state {
        None => {
            push_word(out, 0);
        },
        Some(es) => {
            push_word(out, 1);
            push_epoch_state(out, es);
        },
    }
    assert(final(out)@ =~= old(out)@ + enc_ledger_info(li@));
}

fn push_liws(out: &mut Vec<u64>, l: &crate::types::LedgerInfoWithSignatures)
    ensures
        final(out)@ == old(out)@ + enc_liws(l@),
{
    push_ledger_info(out, &l.ledger_info);
    push_vec_u64(out, &l.signers);
    assert(old(out)@ + enc_ledger_info(l.ledger_info@) + enc_vec_u64(l.signers@) =~= old(out)@
        + enc_liws(l@));
}

/// Appending one ledger info appends its image.
proof fn lemma_enc_liws_seq_snoc(s: Seq<LedgerInfoWithSignaturesView>, l: LedgerInfoWithSignaturesView)
    ensures
        enc_liws_seq(s.push(l)) == enc_liws_seq(s) + enc_liws(l),
    decreases s.len(),
{
    if s.len() == 0 {
        assert(s.push(l).drop_first() =~= Seq::<LedgerInfoWithSignaturesView>::empty());
        assert(enc_liws_seq(s.push(l)) == enc_liws(l) + enc_liws_seq(
            Seq::<LedgerInfoWithSignaturesView>::empty(),
        ));
        assert(enc_liws(l) + Seq::<u64>::empty() =~= enc_liws(l));
        assert(enc_liws_seq(s) + enc_liws(l) =~= enc_liws(l));
    } else {
        assert(s.push(l)[0] == s[0]);
        assert(s.push(l).drop_first() =~= s.drop_first().push(l));
        lemma_enc_liws_seq_snoc(s.drop_first(), l);
        assert(enc_liws(s[0]) + (enc_liws_seq(s.drop_first()) + enc_liws(l)) =~= (enc_liws(s[0])
            + enc_liws_seq(s.drop_first())) + enc_liws(l));
    }
}

fn push_proof(out: &mut Vec<u64>, p: &crate::types::EpochChangeProof)
    ensures
        final(out)@ == old(out)@ + enc_proof(p@),
{
    let n: u64 = p.ledger_infos.len() as u64;
    push_word(out, n);
    let mut k: usize = 0;
    while k < p.ledger_infos.len()
        invariant
            k <= p.ledger_infos@.len(),
            out@ == old(out)@ + seq![p.ledger_infos@.len() as u64] + enc_liws_seq(
                p@.ledger_infos.take(k as int),
            ),
        decreases p.ledger_infos@.len() - k,
    {
        proof {
            assert(p@.ledger_infos[k as int] == p.ledger_infos@[k as int]@);
            lemma_enc_liws_seq_snoc(p@.ledger_infos.take(k as int), p@.ledger_infos[k as int]);
            assert(p@.ledger_infos.take(k as int).push(p@.ledger_infos[k as int])
                =~= p@.ledger_infos.take(k as int + 1));
        }
        push_liws(out, &p.ledger_infos[k]);
        proof {
            assert(old(out)@ + seq![p.ledger_infos@.len() as u64] + enc_liws_seq(
                p@.ledger_infos.take(k as int),
            ) + enc_liws(p@.ledger_infos[k as int]) =~= old(out)@ + seq![
                p.ledger_infos@.len() as u64,
            ] + enc_liws_seq(p@.ledger_infos.take(k as int + 1)));
        }
        k = k + 1;
    }
    proof {
        assert(p@.ledger_infos.take(p.ledger_infos@.len() as int) =~= p@.ledger_infos);
        assert(old(out)@ + seq![p.ledger_infos@.len() as u64] + enc_liws_seq(p@.ledger_infos)
            =~= old(out)@ + enc_proof(p@));
    }
}

fn push_block(out: &mut Vec<u64>, b: &BlockData)
    ensures
        final(out)@ == old(out)@ + enc_block(*b),
{
    push_word(out, b.epoch);
    push_word(out, b.round);
    push_word(out, b.author);
    push_word(out, b.id);
    push_word(out, b.quorum_cert.epoch);
    push_word(out, b.quorum_cert.round);
    assert(final(out)@ =~= old(out)@ + enc_block(*b));
}

fn push_opt_tc(out: &mut Vec<u64>, tc: &Option<TwoChainTimeoutCertificate>)
    ensures
        final(out)@ == old(out)@ + enc_opt_tc(*tc),
{
    match tc {
        None => {
            push_word(out, 0);
            assert(final(out)@ =~= old(out)@ + enc_opt_tc(*tc));
        },
        Some(c) => {
            push_word(out, 1);
            push_word(out, c.epoch);
            push_word(out, c.round);
            assert(final(out)@ =~= old(out)@ + enc_opt_tc(*tc));
        },
    }
}

/// Serializes a request to its wire bytes.
pub fn encode_request(v: &SafetyRulesInput) -> (r: Vec<u8>)
    ensures
        r@ == spec_encode_request(v@),
{
    let mut ws: Vec<u64> = Vec::new();
    match v {
        SafetyRulesInput::ConsensusState => {
            push_word(&mut ws, 0);
            assert(ws@ =~= enc_input(v@));
        },
        SafetyRulesInput::Initialize(p) => {
            push_word(&mut ws, 1);
            push_proof(&mut ws, p);
            assert(ws@ =~= enc_input(v@));
        },
        SafetyRulesInput::ConstructAndSignVote(vp) => {
            push_word(&mut ws, 2);
            push_block(&mut ws, &vp.block_data);
            assert(ws@ =~= enc_input(v@));
        },
        SafetyRulesInput::SignProposal(b) => {
            push_word(&mut ws, 3);
            push_block(&mut ws, b);
            assert(ws@ =~= enc_input(v@));
        },
        SafetyRulesInput::SignTimeout(t) => {
            push_word(&mut ws, 4);
            push_word(&mut ws, t.epoch);
            push_word(&mut ws, t.round);
            assert(ws@ =~= enc_input(v@));
        },
        SafetyRulesInput::SignTimeoutWithQC(t, tc) => {
            push_word(&mut ws, 5);
            push_word(&mut ws, t.epoch);
            push_word(&mut ws, t.round);
            push_word(&mut ws, t.hqc_round);
            push_opt_tc(&mut ws, tc);
            assert(ws@ =~= enc_input(v@));
        },
        SafetyRulesInput::ConstructAndSignVoteTwoChain(vp, tc) => {
            push_word(&mut ws, 6);
            push_block(&mut ws, &vp.block_data);
            push_opt_tc(&mut ws, tc);
            assert(ws@ =~= enc_input(v@));
        },
        SafetyRulesInput::SignCommitVote(liws, li) => {
            push_word(&mut ws, 7);
            push_liws(&mut ws, liws);
            push_ledger_info(&mut ws, li);
            assert(ws@ =~= enc_input(v@));
        },
    }
    words_to_bytes_exec(&ws)
}

/// Serializes a response to its wire bytes.
pub fn encode_response(r: &Response) -> (out: Vec<u8>)
    ensures
        out@ == spec_encode_response(*r),
{
    let mut ws: Vec<u64> = Vec::new();
    match r {
        Response::State(cs) => {
            push_word(&mut ws, 0);
            push_word(&mut ws, cs.epoch);
            push_word(&mut ws, cs.last_voted_round);
            push_word(&mut ws, cs.preferred_round);
            push_word(&mut ws, if cs.in_validator_set { 1 } else { 0 });
            assert(ws@ =~= enc_response(*r));
        },
        Response::Unit => {
            push_word(&mut ws, 1);
            assert(ws@ =~= enc_response(*r));
        },
        Response::Vote(v) => {
            push_word(&mut ws, 2);
            push_word(&mut ws, v.author);
            push_word(&mut ws, v.epoch);
            push_word(&mut ws, v.round);
            push_word(&mut ws, v.id);
            push_word(&mut ws, v.signature.signer);
            push_word(&mut ws, v.signature.epoch);
            push_word(&mut ws, v.signature.round);
            push_word(&mut ws, v.signature.id);
            assert(ws@ =~= enc_response(*r));
        },
        Response::Sig(s) => {
            push_word(&mut ws, 3);
            push_word(&mut ws, s.signer);
            push_word(&mut ws, s.epoch);
            push_word(&mut ws, s.round);
            push_word(&mut ws, s.id);
            assert(ws@ =~= enc_response(*r));
        },
        Response::Failure(e) => {
            push_word(&mut ws, 4);
            let code: u64 = match e {
                Error::NotInitialized => 0,
                Error::InvalidEpochChangeProof => 1,
                Error::IncorrectEpoch => 2,
                Error::SafetyViolation => 3,
                Error::InvalidCertificate => 4,
                Error::SerializationError => 5,
                Error::SecureStorageError => 6,
                Error::InternalError => 7,
            };
            push_word(&mut ws, code);
            assert(ws@ =~= enc_response(*r));
        },
    }
    words_to_bytes_exec(&ws)
}

// --------------------------- executable parsers ----------------------------

proof fn lemma_parse_u64_skip(ws: Seq<u64>, i: int)
    requires
        0 <= i < ws.len(),
    ensures
        parse_u64(ws.skip(i)) == Some((ws[i], ws.skip(i + 1))),
{
    assert(ws.skip(i)[0] == ws[i]);
    assert(ws.skip(i).drop_first() =~= ws.skip(i + 1));
}

fn parse_vec_u64_exec(ws: &Vec<u64>, i: usize) -> (r: Option<(Vec<u64>, usize)>)
    requires
        i <= ws@.len(),
    ensures
        match r {
            Some(p) => i < p.1 <= ws@.len() && parse_vec_u64(ws@.skip(i as int)) == Some(
                (p.0@, ws@.skip(p.1 as int)),
            ),
            None => parse_vec_u64(ws@.skip(i as int)) is None,
        },
{
    let total: usize = ws.len();
    if i >= total {
        return None;
    }
    let n: u64 = ws[i];
    proof {
        lemma_parse_u64_skip(ws@, i as int);
    }
    let j: usize = i + 1;
    let rem: usize = total - j;
    if n > rem as u64 {
        proof {
            assert(ws@.skip(j as int).len() == rem);
        }
        return None;
    }
    let cnt: usize = n as usize;
    let mut out: Vec<u64> = Vec::new();
    let mut k: usize = 0;
    proof {
        assert(out@ =~= ws@.subrange(j as int, j as int));
    }
    while k < cnt
        invariant
            ws@.len() <= usize::MAX,
            j + cnt <= ws@.len(),
            k <= cnt,
            out@ == ws@.subrange(j as int, j as int + k as int),
        decreases cnt - k,
    {
        out.push(ws[j + k]);
        proof {
            assert(ws@.subrange(j as int, j as int + k as int).push(ws@[j as int + k as int])
                =~= ws@.subrange(j as int, j as int + (k + 1) as int));
        }
        k = k + 1;
    }
    proof {
        assert(ws@.skip(j as int).len() >= n);
        assert(ws@.skip(j as int).take(n as int) =~= ws@.subrange(j as int, j as int + n as int));
        assert(ws@.skip(j as int).skip(n as int) =~= ws@.skip(j as int + n as int));
    }
    Some((out, j + cnt))
}

fn parse_epoch_state_exec(ws: &Vec<u64>, i: usize) -> (r: Option<(crate::types::EpochState, usize)>)
    requires
        i <= ws@.len(),
    ensures
        match r {
            Some(p) => i < p.1 <= ws@.len() && parse_epoch_state(ws@.skip(i as int)) == Some(
                (p.0@, ws@.skip(p.1 as int)),
            ),
            None => parse_epoch_state(ws@.skip(i as int)) is None,
        },
{
    if i >= ws.len() {
        return None;
    }
    let epoch: u64 = ws[i];
    proof {
        lemma_parse_u64_skip(ws@, i as int);
    }
    match parse_vec_u64_exec(ws, i + 1) {
        None => None,
        Some((vals, j)) => Some((crate::types::EpochState { epoch, validators: vals }, j)),
    }
}

fn parse_opt_epoch_state_exec(ws: &Vec<u64>, i: usize) -> (r: Option<
    (Option<crate::types::EpochState>, usize),
>)
    requires
        i <= ws@.len(),
    ensures
        match r {
            Some(p) => i < p.1 <= ws@.len() && parse_opt_epoch_state(ws@.skip(i as int)) == Some(
                (
                    match p.0 {
                        Some(es) => Some(es@),
                        None => None,
                    },
                    ws@.skip(p.1 as int),
                ),
            ),
            None => parse_opt_epoch_state(ws@.skip(i as int)) is None,
        },
{
    if i >= ws.len() {
        return None;
    }
    let tag: u64 = ws[i];
    proof {
        lemma_parse_u64_skip(ws@, i as int);
    }
    if tag == 0 {
        Some((None, i + 1))
    } else if tag == 1 {
        match parse_epoch_state_exec(ws, i + 1) {
            None => None,
            Some((es, j)) => Some((Some(es), j)),
        }
    } else {
        None
    }
}

fn parse_ledger_info_exec(ws: &Vec<u64>, i: usize) -> (r: Option<(crate::types::LedgerInfo, usize)>)
    requires
        i <= ws@.len(),
    ensures
        match r {
            Some(p) => i < p.1 <= ws@.len() && parse_ledger_info(ws@.skip(i as int)) == Some(
                (p.0@, ws@.skip(p.1 as int)),
            ),
            None => parse_ledger_info(ws@.skip(i as int)) is None,
        },
{
    let total: usize = ws.len();
    if total - i < 4 {
        return None;
    }
    let epoch: u64 = ws[i];
    let round: u64 = ws[i + 1];
    let version: u64 = ws[i + 2];
    let id: u64 = ws[i + 3];
    proof {
        let s = ws@.skip(i as int);
        assert(s[0] == ws@[i as int] && s[1] == ws@[i as int + 1] && s[2] == ws@[i as int + 2]
            && s[3] == ws@[i as int + 3]);
        assert(s.skip(4) =~= ws@.skip(i as int + 4));
    }
    match parse_opt_epoch_state_exec(ws, i + 4) {
        None => None,
        Some((nes, j)) => Some(
            (crate::types::LedgerInfo { epoch, round, version, id, next_epoch_state: nes }, j),
        ),
    }
}

fn parse_liws_exec(ws: &Vec<u64>, i: usize) -> (r: Option<
    (crate::types::LedgerInfoWithSignatures, usize),
>)
    requires
        i <= ws@.len(),
    ensures
        match r {
            Some(p) => i < p.1 <= ws@.len() && parse_liws(ws@.skip(i as int)) == Some(
                (p.0@, ws@.skip(p.1 as int)),
            ),
            None => parse_liws(ws@.skip(i as int)) is None,
        },
{
    match parse_ledger_info_exec(ws, i) {
        None => None,
        Some((li, j)) => match parse_vec_u64_exec(ws, j) {
            None => None,
            Some((signers, j2)) => Some(
                (crate::types::LedgerInfoWithSignatures { ledger_info: li, signers }, j2),
            ),
        },
    }
}

/// Parsing `k + m` records is parsing `k`, then `m` more from the rest.
proof fn lemma_liws_seq_split(s: Seq<u64>, k: nat, m: nat)
    ensures
        parse_liws_seq(s, k + m) == (match parse_liws_seq(s, k) {
            None => None::<(Seq<LedgerInfoWithSignaturesView>, Seq<u64>)>,
            Some((ls, r)) => match parse_liws_seq(r, m) {
                None => None,
                Some((ls2, r2)) => Some((ls + ls2, r2)),
            },
        }),
    decreases k,
{
    if k == 0 {
        match parse_liws_seq(s, m) {
            Some((ls2, r2)) => {
                assert(Seq::<LedgerInfoWithSignaturesView>::empty() + ls2 =~= ls2);
            },
            None => {
            },
        }
    } else {
        match parse_liws(s) {
            None => {
            },
            Some((l, r)) => {
                lemma_liws_seq_split(r, (k - 1) as nat, m);
                match parse_liws_seq(r, (k - 1) as nat) {
                    None => {
                    },
                    Some((ls1, r1)) => {
                        match parse_liws_seq(r1, m) {
                            None => {
                            },
                            Some((ls2, r2)) => {
                                assert((seq![l] + ls1) + ls2 =~= seq![l] + (ls1 + ls2));
                            },
                        }
                    },
                }
            },
        }
    }
}

fn parse_proof_exec(ws: &Vec<u64>, i: usize) -> (r: Option<(crate::types::EpochChangeProof, usize)>)
    requires
        i <= ws@.len(),
    ensures
        match r {
            Some(p) => i < p.1 <= ws@.len() && parse_proof(ws@.skip(i as int)) == Some(
                (p.0@, ws@.skip(p.1 as int)),
            ),
            None => parse_proof(ws@.skip(i as int)) is None,
        },
{
    if i >= ws.len() {
        return None;
    }
    let n: u64 = ws[i];
    proof {
        lemma_parse_u64_skip(ws@, i as int);
    }
    let start: usize = i + 1;
    let mut out: Vec<crate::types::LedgerInfoWithSignatures> = Vec::new();
    let mut cur: usize = start;
    let mut k: u64 = 0;
    proof {
        assert(out@.map_values(|l: crate::types::LedgerInfoWithSignatures| l@)
            =~= Seq::<LedgerInfoWithSignaturesView>::empty());
    }
    while k < n
        invariant
            i < ws@.len(),
            n == ws@[i as int],
            start == i + 1,
            parse_u64(ws@.skip(i as int)) == Some((n, ws@.skip(start as int))),
            start <= ws@.len(),
            start <= cur <= ws@.len(),
            k <= n,
            parse_liws_seq(ws@.skip(start as int), k as nat) == Some(
                (
                    out@.map_values(|l: crate::types::LedgerInfoWithSignatures| l@),
                    ws@.skip(cur as int),
                ),
            ),
        decreases n - k,
    {
        match parse_liws_exec(ws, cur) {
            None => {
                proof {
                    let m = (n - k) as nat;
                    assert(m > 0);
                    assert(parse_liws(ws@.skip(cur as int)) is None);
                    assert(parse_liws_seq(ws@.skip(cur as int), m) is None);
                    lemma_liws_seq_split(ws@.skip(start as int), k as nat, m);
                    assert(k as nat + m == n as nat);
                    assert(parse_liws_seq(ws@.skip(start as int), n as nat) is None);
                    assert(parse_proof(ws@.skip(i as int)) is None);
                }
                return None;
            },
            Some((l, nxt)) => {
                proof {
                    let one = parse_liws_seq(ws@.skip(cur as int), 1);
                    assert(parse_liws_seq(ws@.skip(nxt as int), 0) == Some(
                        (Seq::<LedgerInfoWithSignaturesView>::empty(), ws@.skip(nxt as int)),
                    ));
                    assert(seq![l@] + Seq::<LedgerInfoWithSignaturesView>::empty() =~= seq![l@]);
                    assert(one == Some((seq![l@], ws@.skip(nxt as int))));
                    lemma_liws_seq_split(ws@.skip(start as int), k as nat, 1);
                    assert(k as nat + 1 == (k + 1) as nat);
                    let f = |q: crate::types::LedgerInfoWithSignatures| q@;
                    assert(out@.push(l).map_values(f) =~= out@.map_values(f) + seq![l@]);
                }
                out.push(l);
                cur = nxt;
                k = k + 1;
            },
        }
    }
    Some((crate::types::EpochChangeProof { ledger_infos: out }, cur))
}

fn parse_block_exec(ws: &Vec<u64>, i: usize) -> (r: Option<(BlockData, usize)>)
    requires
        i <= ws@.len(),
    ensures
        match r {
            Some(p) => i < p.1 <= ws@.len() && parse_block(ws@.skip(i as int)) == Some(
                (p.0, ws@.skip(p.1 as int)),
            ),
            None => parse_block(ws@.skip(i as int)) is None,
        },
{
    let total: usize = ws.len();
    if total - i < 6 {
        return None;
    }
    proof {
        let s = ws@.skip(i as int);
        assert(s[0] == ws@[i as int] && s[1] == ws@[i as int + 1] && s[2] == ws@[i as int + 2]
            && s[3] == ws@[i as int + 3] && s[4] == ws@[i as int + 4] && s[5] == ws@[i as int
            + 5]);
        assert(s.skip(6) =~= ws@.skip(i as int + 6));
    }
    Some(
        (
            BlockData {
                epoch: ws[i],
                round: ws[i + 1],
                author: ws[i + 2],
                id: ws[i + 3],
                quorum_cert: QuorumCert { epoch: ws[i + 4], round: ws[i + 5] },
            },
            i + 6,
        ),
    )
}

fn parse_opt_tc_exec(ws: &Vec<u64>, i: usize) -> (r: Option<
    (Option<TwoChainTimeoutCertificate>, usize),
>)
    requires
        i <= ws@.len(),
    ensures
        match r {
            Some(p) => i < p.1 <= ws@.len() && parse_opt_tc(ws@.skip(i as int)) == Some(
                (p.0, ws@.skip(p.1 as int)),
            ),
            None => parse_opt_tc(ws@.skip(i as int)) is None,
        },
{
    let total: usize = ws.len();
    if i >= total {
        return None;
    }
    let tag: u64 = ws[i];
    proof {
        lemma_parse_u64_skip(ws@, i as int);
    }
    if tag == 0 {
        Some((None, i + 1))
    } else if tag == 1 {
        if total - (i + 1) < 2 {
            proof {
                assert(ws@.skip(i as int + 1).len() < 2);
            }
            return None;
        }
        proof {
            let rr = ws@.skip(i as int + 1);
            assert(rr[0] == ws@[i as int + 1] && rr[1] == ws@[i as int + 2]);
            assert(rr.skip(2) =~= ws@.skip(i as int + 3));
        }
        Some((Some(TwoChainTimeoutCertificate { epoch: ws[i + 1], round: ws[i + 2] }), i + 3))
    } else {
        None
    }
}

/// Deserializes request bytes; rejects anything that is not the exact
/// encoding of a request.
pub fn decode_request(bytes: &Vec<u8>) -> (r: Result<SafetyRulesInput, Error>)
    ensures
        match r {
            Ok(v) => spec_decode_request(bytes@) == Some(v@),
            Err(e) => spec_decode_request(bytes@) is None && e == Error::SerializationError,
        },
{
    let ws: Vec<u64> = match bytes_to_words_exec(bytes) {
        Some(w) => w,
        None => {
            return Err(Error::SerializationError);
        },
    };
    let total: usize = ws.len();
    if total == 0 {
        return Err(Error::SerializationError);
    }
    let tag: u64 = ws[0];
    proof {
        lemma_parse_u64_skip(ws@, 0);
    }
    if tag == 0 {
        if total == 1 {
            Ok(SafetyRulesInput::ConsensusState)
        } else {
            Err(Error::SerializationError)
        }
    } else if tag == 1 {
        match parse_proof_exec(&ws, 1) {
            Some((p, j)) => if j == total {
                Ok(SafetyRulesInput::Initialize(p))
            } else {
                Err(Error::SerializationError)
            },
            None => Err(Error::SerializationError),
        }
    } else if tag == 2 {
        match parse_block_exec(&ws, 1) {
            Some((b, j)) => if j == total {
                Ok(SafetyRulesInput::ConstructAndSignVote(VoteProposal { block_data: b }))
            } else {
                Err(Error::SerializationError)
            },
            None => Err(Error::SerializationError),
        }
    } else if tag == 3 {
        match parse_block_exec(&ws, 1) {
            Some((b, j)) => if j == total {
                Ok(SafetyRulesInput::SignProposal(b))
            } else {
                Err(Error::SerializationError)
            },
            None => Err(Error::SerializationError),
        }
    } else if tag == 4 {
        if total - 1 < 2 {
            proof {
                assert(ws@.skip(1).len() < 2);
            }
            return Err(Error::SerializationError);
        }
        proof {
            let s = ws@.skip(1);
            assert(s[0] == ws@[1] && s[1] == ws@[2]);
            assert(s.skip(2) =~= ws@.skip(3));
        }
        if total == 3 {
            Ok(SafetyRulesInput::SignTimeout(Timeout { epoch: ws[1], round: ws[2] }))
        } else {
            Err(Error::SerializationError)
        }
    } else if tag == 5 {
        if total - 1 < 3 {
            proof {
                assert(ws@.skip(1).len() < 3);
            }
            return Err(Error::SerializationError);
        }
        proof {
            let s = ws@.skip(1);
            assert(s[0] == ws@[1] && s[1] == ws@[2] && s[2] == ws@[3]);
            assert(s.skip(3) =~= ws@.skip(4));
        }
        let t = TwoChainTimeout { epoch: ws[1], round: ws[2], hqc_round: ws[3] };
        match parse_opt_tc_exec(&ws, 4) {
            Some((tc, j)) => if j == total {
                Ok(SafetyRulesInput::SignTimeoutWithQC(t, tc))
            } else {
                Err(Error::SerializationError)
            },
            None => Err(Error::SerializationError),
        }
    } else if tag == 6 {
        match parse_block_exec(&ws, 1) {
            Some((b, j)) => match parse_opt_tc_exec(&ws, j) {
                Some((tc, j2)) => if j2 == total {
                    Ok(
                        SafetyRulesInput::ConstructAndSignVoteTwoChain(
                            VoteProposal { block_data: b },
                            tc,
                        ),
                    )
                } else {
                    Err(Error::SerializationError)
                },
                None => Err(Error::SerializationError),
            },
            None => Err(Error::SerializationError),
        }
    } else if tag == 7 {
        match parse_liws_exec(&ws, 1) {
            Some((liws, j)) => match parse_ledger_info_exec(&ws, j) {
                Some((li, j2)) => if j2 == total {
                    Ok(SafetyRulesInput::SignCommitVote(liws, li))
                } else {
                    Err(Error::SerializationError)
                },
                None => Err(Error::SerializationError),
            },
            None => Err(Error::SerializationError),
        }
    } else {
        Err(Error::SerializationError)
    }
}

/// Deserializes response bytes; rejects anything that is not the exact
/// encoding of a response.
pub fn decode_response(bytes: &Vec<u8>) -> (r: Result<Response, Error>)
    ensures
        match r {
            Ok(resp) => spec_decode_response(bytes@) == Some(resp),
            Err(e) => spec_decode_response(bytes@) is None && e == Error::SerializationError,
        },
{
    let ws: Vec<u64> = match bytes_to_words_exec(bytes) {
        Some(w) => w,
        None => {
            return Err(Error::SerializationError);
        },
    };
    let total: usize = ws.len();
    if total == 0 {
        return Err(Error::SerializationError);
    }
    let tag: u64 = ws[0];
    proof {
        lemma_parse_u64_skip(ws@, 0);
        let s = ws@.skip(1);
        assert(s.len() == total - 1);
        assert forall|q: int| 0 <= q < s.len() implies s[q] == ws@[q + 1] by {}
    }
    if tag == 0 {
        if total == 5 && (ws[4] == 0 || ws[4] == 1) {
            Ok(
                Response::State(
                    ConsensusState {
                        epoch: ws[1],
                        last_voted_round: ws[2],
                        preferred_round: ws[3],
                        in_validator_set: ws[4] == 1,
                    },
                ),
            )
        } else {
            Err(Error::SerializationError)
        }
    } else if tag == 1 {
        if total == 1 {
            Ok(Response::Unit)
        } else {
            Err(Error::SerializationError)
        }
    } else if tag == 2 {
        if total == 9 {
            Ok(
                Response::Vote(
                    Vote {
                        author: ws[1],
                        epoch: ws[2],
                        round: ws[3],
                        id: ws[4],
                        signature: Signature {
                            signer: ws[5],
                            epoch: ws[6],
                            round: ws[7],
                            id: ws[8],
                        },
                    },
                ),
            )
        } else {
            Err(Error::SerializationError)
        }
    } else if tag == 3 {
        if total == 5 {
            Ok(Response::Sig(Signature { signer: ws[1], epoch: ws[2], round: ws[3], id: ws[4] }))
        } else {
            Err(Error::SerializationError)
        }
    } else if tag == 4 {
        if total != 2 {
            return Err(Error::SerializationError);
        }
        let code: u64 = ws[1];
        if code == 0 {
            Ok(Response::Failure(Error::NotInitialized))
        } else if code == 1 {
            Ok(Response::Failure(Error::InvalidEpochChangeProof))
        } else if code == 2 {
            Ok(Response::Failure(Error::IncorrectEpoch))
        } else if code == 3 {
            Ok(Response::Failure(Error::SafetyViolation))
        } else if code == 4 {
            Ok(Response::Failure(Error::InvalidCertificate))
        } else if code == 5 {
            Ok(Response::Failure(Error::SerializationError))
        } else if code == 6 {
            Ok(Response::Failure(Error::SecureStorageError))
        } else if code == 7 {
            Ok(Response::Failure(Error::InternalError))
        } else {
            Err(Error::SerializationError)
        }
    } else {
        Err(Error::SerializationError)
    }
}

} // verus!
