//! Wire-level consensus messages and their canonical signing bytes.
//!
//! The canonical bytes of a vote are
//! `round (u64, big-endian) || iteration || step kind || block hash ||
//! vote tag [|| vote hash]`; every node must produce the same bytes for the
//! same vote, since aggregate signatures are verified against them.

use vstd::prelude::*;

use crate::bls;
use crate::bytes_util::copy_bytes;
use crate::ledger::StepVotes;
use crate::step::{step_name_tag, step_offset, StepName};
use crate::vote::{spec_vote_hash, spec_vote_tag, QuorumType, Vote};

verus! {

/// The big-endian bytes of a 64-bit number.
pub open spec fn u64_be(x: u64) -> Seq<u8> {
    Seq::new(8, |i: int| ((x >> ((56 - 8 * i) as u64)) & 0xff) as u8)
}

/// Appends the big-endian bytes of `x`.
pub fn push_u64_be(out: &mut Vec<u8>, x: u64)
    ensures
        final(out)@ =~= old(out)@ + u64_be(x),
{
    let mut i: usize = 0;
    while i < 8
        invariant
            i <= 8,
            out@ =~= old(out)@ + u64_be(x).take(i as int),
        decreases 8 - i,
    {
        let shift: u64 = 56 - 8 * (i as u64);
        out.push(((x >> shift) & 0xff) as u8);
        i += 1;
    }
    proof {
        assert(u64_be(x).take(8) =~= u64_be(x));
    }
}

/// The canonical bytes signed by a vote in the given step.
pub open spec fn spec_signable_bytes(
    round: u64,
    iteration: u8,
    kind: StepName,
    block_hash: Seq<u8>,
    vote: Vote,
) -> Seq<u8> {
    u64_be(round) + seq![iteration] + seq![step_offset(kind) as u8] + block_hash
        + seq![spec_vote_tag(vote) as u8] + if vote.has_hash_payload() {
        spec_vote_hash(vote)
    } else {
        Seq::empty()
    }
}

/// Builds the canonical bytes signed by a vote in the given step.
pub fn signable_bytes(
    round: u64,
    iteration: u8,
    kind: StepName,
    block_hash: &[u8; 32],
    vote: &Vote,
) -> (r: Vec<u8>)
    ensures
        r@ =~= spec_signable_bytes(round, iteration, kind, block_hash@, *vote),
{
    let mut out: Vec<u8> = Vec::new();
    push_u64_be(&mut out, round);
    out.push(iteration);
    out.push(step_name_tag(kind));
    let mut i: usize = 0;
    while i < 32
        invariant
            i <= 32,
            out@ =~= u64_be(round) + seq![iteration] + seq![step_offset(kind) as u8]
                + block_hash@.take(i as int),
        decreases 32 - i,
    {
        out.push(block_hash[i]);
        i += 1;
    }
    proof {
        assert(block_hash@.take(32) =~= block_hash@);
    }
    out.push(vote.tag());
    if vote.tag() == 0 || vote.tag() == 1 {
        let payload = vote.block_hash();
        let mut j: usize = 0;
        while j < 32
            invariant
                j <= 32,
                payload@ =~= spec_vote_hash(*vote),
                vote.has_hash_payload(),
                out@ =~= u64_be(round) + seq![iteration] + seq![step_offset(kind) as u8]
                    + block_hash@ + seq![spec_vote_tag(*vote) as u8]
                    + spec_vote_hash(*vote).take(j as int),
            decreases 32 - j,
        {
            out.push(payload[j]);
            j += 1;
        }
        proof {
            assert(spec_vote_hash(*vote).take(32) =~= spec_vote_hash(*vote));
        }
    }
    out
}

/// Which handler a message is addressed to.
#[derive(Clone, Copy, Debug, PartialEq, Eq, Structural)]
pub enum Topic {
    Unknown,
    Validation,
    Ratification,
    Quorum,
}

/// The header every consensus message carries.
#[derive(Debug, Clone, PartialEq, Eq)]
pub struct Header {
    pub pubkey_bls: Vec<u8>,
    pub round: u64,
    pub iteration: u8,
    pub block_hash: [u8; 32],
    pub topic: Topic,
}

impl Header {
    /// An empty header.
    pub fn empty() -> (r: Header)
        ensures
            r.pubkey_bls@ =~= Seq::<u8>::empty(),
            r.round == 0,
            r.iteration == 0,
            r.topic == Topic::Unknown,
    {
        Header {
            pubkey_bls: Vec::new(),
            round: 0,
            iteration: 0,
            block_hash: [0u8; 32],
            topic: Topic::Unknown,
        }
    }

    /// The canonical bytes a vote under this header signs in the given step.
    pub fn signable(&self, kind: StepName, vote: &Vote) -> (r: Vec<u8>)
        ensures
            r@ =~= spec_signable_bytes(self.round, self.iteration, kind, self.block_hash@, *vote),
    {
        signable_bytes(self.round, self.iteration, kind, &self.block_hash, vote)
    }

    /// Signs the canonical bytes of a vote under this header with the given
    /// key pair; `None` only when the key bytes do not deserialize.
    pub fn sign(&self, sk: &Vec<u8>, pk: &Vec<u8>, kind: StepName, vote: &Vote) -> (r: Option<
        Vec<u8>,
    >)
        ensures
            (r is Some) <==> (bls::sk_parses(sk@) && bls::pk_parses(pk@)),
            r matches Some(s) ==> s@ == bls::bls_sig(
                sk@,
                pk@,
                spec_signable_bytes(self.round, self.iteration, kind, self.block_hash@, *vote),
            ) && bls::sig_parses(s@),
    {
        let msg = self.signable(kind, vote);
        bls::sign_message(sk, pk, &msg)
    }
}

/// A signer's identity and signature over the canonical bytes of a vote.
#[derive(Debug, Clone, PartialEq, Eq)]
pub struct SignInfo {
    pub signer: Vec<u8>,
    pub signature: Vec<u8>,
}

/// Checks one signer's signature over the canonical bytes of a vote.
pub fn verify_signed_vote(header: &Header, kind: StepName, vote: &Vote, sign_info: &SignInfo) -> (r:
    bool)
    ensures
        r == bls::bls_accepts(
            seq![sign_info.signer@],
            spec_signable_bytes(header.round, header.iteration, kind, header.block_hash@, *vote),
            sign_info.signature@,
        ),
        r ==> bls::sig_parses(sign_info.signature@),
{
    let msg = header.signable(kind, vote);
    let mut pks: Vec<Vec<u8>> = Vec::new();
    pks.push(copy_bytes(&sign_info.signer));
    let r = bls::verify_aggregate(&pks, &msg, &sign_info.signature);
    proof {
        assert(pks@.map_values(|p: Vec<u8>| p@) =~= seq![sign_info.signer@]);
    }
    r
}

/// The outcome of the validation step, carried inside ratification messages.
#[derive(Debug, Clone, PartialEq, Eq)]
pub struct ValidationResult {
    pub sv: StepVotes,
    pub vote: Vote,
    pub quorum: QuorumType,
}

impl ValidationResult {
    /// A result from its parts.
    pub fn new(sv: StepVotes, vote: Vote, quorum: QuorumType) -> (r: ValidationResult)
        ensures
            r.sv == sv,
            r.vote == vote,
            r.quorum == quorum,
    {
        ValidationResult { sv, vote, quorum }
    }

    /// The result of a step that saw no quorum at all.
    pub fn empty() -> (r: ValidationResult)
        ensures
            r.sv.bitset == 0,
            r.sv.aggregate_signature@ =~= Seq::<u8>::empty(),
            r.vote == Vote::NoQuorum,
            r.quorum == QuorumType::NoQuorum,
    {
        ValidationResult {
            sv: StepVotes::empty(),
            vote: Vote::NoQuorum,
            quorum: QuorumType::NoQuorum,
        }
    }
}

/// The payload of a Validation-step message.
#[derive(Debug, Clone, PartialEq, Eq)]
pub struct ValidationPayload {
    pub vote: Vote,
    pub sign_info: SignInfo,
}

/// The payload of a Ratification-step message.
#[derive(Debug, Clone, PartialEq, Eq)]
pub struct RatificationPayload {
    pub vote: Vote,
    pub sign_info: SignInfo,
    pub validation_result: ValidationResult,
}

/// The payload of the final Quorum message of an iteration.
#[derive(Debug, Clone, PartialEq, Eq)]
pub struct QuorumPayload {
    pub signature: Vec<u8>,
    pub validation: StepVotes,
    pub ratification: StepVotes,
}

/// What a consensus message carries.
#[derive(Debug, Clone, PartialEq, Eq)]
pub enum Payload {
    Validation(ValidationPayload),
    Ratification(RatificationPayload),
    Quorum(QuorumPayload),
    ValidationResult(ValidationResult),
    Empty,
}

/// What a handler hands back to the round driver: a message to act on, or
/// nothing yet.
#[derive(Debug, PartialEq, Eq)]
pub enum HandleMsgOutput {
    Ready(Message),
    Pending,
}

/// One consensus message.
#[derive(Debug, Clone, PartialEq, Eq)]
pub struct Message {
    pub header: Header,
    pub payload: Payload,
}

impl Message {
    /// The timeout marker.
    pub fn empty() -> (r: Message)
        ensures
            r.payload is Empty,
    {
        Message { header: Header::empty(), payload: Payload::Empty }
    }

    /// An internal message handing a validation outcome to the next step.
    pub fn from_validation_result(p: ValidationResult) -> (r: Message)
        ensures
            r.payload matches Payload::ValidationResult(v) && v == p,
    {
        Message { header: Header::empty(), payload: Payload::ValidationResult(p) }
    }

    /// A quorum message from its header and payload.
    pub fn new_quorum(header: Header, payload: QuorumPayload) -> (r: Message)
        ensures
            r.header == header,
            r.payload matches Payload::Quorum(q) && q == payload,
    {
        Message { header, payload: Payload::Quorum(payload) }
    }
}

} // verus!
