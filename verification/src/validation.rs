//! Message handler for the Validation step: verifies, deduplicates and
//! aggregates Validation votes, and — on quorum — hands the round driver a
//! `ValidationResult` for the Ratification step.

use vstd::prelude::*;
use vstd::pervasive::unreached;

use crate::aggregator::{
    spec_bucket_bitset, spec_collect_accepts, spec_entry_for, spec_is_member, Aggregator,
    AggregatorError,
};
use crate::bitset::has_bit;
use crate::bls;
use crate::committee::{sum_weights, Committee, RoundCommittees};
use crate::error::ConsensusError;
use crate::ledger::StepVotes;
use crate::message::{
    spec_signable_bytes, HandleMsgOutput, Header, Message, Payload, ValidationPayload,
    ValidationResult,
};
use crate::registry::{
    spec_cert_for, spec_emitted_contains, spec_emits, spec_new_vq, CertInfoRegistry,
};
use crate::round::RoundUpdate;
use crate::step::{step_from_name, StepName, MAX_ITERATION};
use crate::vote::{spec_quorum_of_vote, spec_vote_hash, QuorumType, Vote};

verus! {

/// The global step number of an iteration's Validation step.
pub open spec fn spec_validation_step(iteration: u8) -> u8 {
    (iteration * 3 + 1) as u8
}

/// Wraps a validation outcome for the round driver.
fn final_result(sv: StepVotes, vote: Vote, quorum: QuorumType) -> (r: HandleMsgOutput)
    ensures
        r matches HandleMsgOutput::Ready(m) && m.payload matches Payload::ValidationResult(vr)
            && vr.sv == sv && vr.vote == vote && vr.quorum == quorum,
{
    let p = ValidationResult::new(sv, vote, quorum);
    let msg = Message::from_validation_result(p);
    HandleMsgOutput::Ready(msg)
}

/// The Validation-step handler: the current iteration, the candidate block
/// hash it may hold, and the vote accumulator. The round-wide registry is
/// handed in by the caller, who serialises access to it.
#[derive(Debug)]
pub struct ValidationHandler {
    pub aggr: Aggregator,
    pub candidate: Option<[u8; 32]>,
    pub curr_iteration: u8,
}

impl ValidationHandler {
    /// What `verify` answers over a given state: a timeout marker passes, a
    /// validation message passes when it is no replay and its signature
    /// verifies, anything else is of the wrong type.
    pub open spec fn spec_verify(&self, msg: Message) -> Result<(), ConsensusError> {
        match msg.payload {
            Payload::Validation(p) => if self.aggr.spec_is_collected(
                p.sign_info.signer@,
                p.vote,
                spec_validation_step(msg.header.iteration),
            ) {
                Err(ConsensusError::VoteAlreadyCollected)
            } else if bls::bls_accepts(
                seq![p.sign_info.signer@],
                spec_signable_bytes(
                    msg.header.round,
                    msg.header.iteration,
                    StepName::Validation,
                    msg.header.block_hash@,
                    p.vote,
                ),
                p.sign_info.signature@,
            ) {
                Ok(())
            } else {
                Err(ConsensusError::InvalidSignature)
            },
            Payload::Empty => Ok(()),
            _ => Err(ConsensusError::InvalidMsgType),
        }
    }

    /// A fresh handler at iteration zero.
    pub fn new() -> (r: ValidationHandler)
        ensures
            r.aggr.entries@.len() == 0,
            r.candidate is None,
            r.curr_iteration == 0,
    {
        ValidationHandler { aggr: Aggregator::new(), candidate: None, curr_iteration: 0 }
    }

    /// Enters a new iteration: drops the candidate, keeps the accumulator
    /// (the owner re-creates it per round).
    pub fn reset(&mut self, curr_iteration: u8)
        ensures
            final(self).candidate is None,
            final(self).curr_iteration == curr_iteration,
            final(self).aggr == old(self).aggr,
    {
        self.candidate = None;
        self.curr_iteration = curr_iteration;
    }

    /// Takes the validation payload out of a message; wrong payloads are
    /// `InvalidMsgType`.
    fn unwrap_msg(msg: Message) -> (r: Result<(Header, ValidationPayload), ConsensusError>)
        ensures
            msg.payload matches Payload::Validation(p) ==> (r matches Ok(hp) && hp.0 == msg.header
                && hp.1 == p),
            !(msg.payload is Validation) ==> (r matches Err(e) && e
                == ConsensusError::InvalidMsgType),
    {
        match msg.payload {
            Payload::Validation(p) => Ok((msg.header, p)),
            _ => Err(ConsensusError::InvalidMsgType),
        }
    }

    /// Checks an incoming message without touching any state: replays are
    /// `VoteAlreadyCollected`, bad signatures `InvalidSignature`, foreign
    /// payloads `InvalidMsgType`; the timeout marker passes.
    pub fn verify(&self, msg: &Message, _iteration: u8, _round_committees: &RoundCommittees) -> (r:
        Result<(), ConsensusError>)
        requires
            msg.header.iteration <= MAX_ITERATION,
        ensures
            r == self.spec_verify(*msg),
            msg.payload matches Payload::Validation(p) ==> (r is Ok ==> bls::sig_parses(
                p.sign_info.signature@,
            )),
    {
        match &msg.payload {
            Payload::Validation(p) => {
                let step = step_from_name(msg.header.iteration, StepName::Validation);
                if self.aggr.is_vote_collected(&p.sign_info, &p.vote, step) {
                    return Err(ConsensusError::VoteAlreadyCollected);
                }
                if crate::message::verify_signed_vote(
                    &msg.header,
                    StepName::Validation,
                    &p.vote,
                    &p.sign_info,
                ) {
                    Ok(())
                } else {
                    Err(ConsensusError::InvalidSignature)
                }
            },
            Payload::Empty => Ok(()),
            _ => Err(ConsensusError::InvalidMsgType),
        }
    }

    /// Collects a current-iteration validation vote: rejects `NoQuorum`
    /// votes and foreign iterations (`InvalidMsgIteration` is the routing
    /// hint towards `collect_from_past`), aggregates the vote, records the
    /// running record in the registry, and hands back a `ValidationResult`
    /// exactly when this vote first makes its bucket reach the quorum
    /// threshold. A non-member's vote is `InvalidVote`, a replay
    /// `VoteAlreadyCollected`, signature bytes that will not fold
    /// `InvalidSignature`; rejected messages change nothing.
    pub fn collect(
        &mut self,
        msg: Message,
        ru: &RoundUpdate,
        committee: &Committee,
        registry: &mut CertInfoRegistry,
    ) -> (r: Result<HandleMsgOutput, ConsensusError>)
        requires
            committee.wf(),
            committee.generator is Some,
            msg.header.iteration <= MAX_ITERATION,
            old(self).aggr.consistent_with(
                *committee,
                spec_validation_step(msg.header.iteration),
            ),
        ensures
            final(self).curr_iteration == old(self).curr_iteration,
            final(self).candidate == old(self).candidate,
            final(self).aggr.consistent_with(
                *committee,
                spec_validation_step(msg.header.iteration),
            ),
            r is Err ==> *final(self) == *old(self) && *final(registry) == *old(registry),
            !(msg.payload is Validation) ==> (r matches Err(e) && e
                == ConsensusError::InvalidMsgType),
            msg.payload matches Payload::Validation(p) ==> (p.vote is NoQuorum ==> (r matches Err(
                e,
            ) && e == ConsensusError::InvalidVote(p.vote))),
            msg.payload matches Payload::Validation(p) ==> ((!(p.vote is NoQuorum)
                && msg.header.iteration != old(self).curr_iteration) ==> (r matches Err(e) && e
                == ConsensusError::InvalidMsgIteration(msg.header.iteration))),
            msg.payload matches Payload::Validation(p) ==> ((!(p.vote is NoQuorum)
                && msg.header.iteration == old(self).curr_iteration) ==> ({
                let step = spec_validation_step(msg.header.iteration);
                let old_bs = spec_bucket_bitset(old(self).aggr.entries@, step, p.vote);
                let member = spec_is_member(*committee, p.sign_info.signer@);
                let replay = member && forall|i: int|
                    0 <= i < committee.members@.len() && (
                    #[trigger] committee.members@[i]).pubkey@ == p.sign_info.signer@ ==> has_bit(
                        old_bs,
                        i,
                    );
                &&& ((r is Ok) == spec_collect_accepts(
                    old(self).aggr,
                    *committee,
                    p.sign_info.signer@,
                    p.sign_info.signature@,
                    p.vote,
                    step,
                ))
                &&& (!member ==> (r matches Err(e) && e == ConsensusError::InvalidVote(p.vote)))
                &&& (replay ==> (r matches Err(e) && e == ConsensusError::VoteAlreadyCollected))
                &&& ((r is Err && member && !replay) ==> (r matches Err(e) && e
                    == ConsensusError::InvalidSignature))
            })),
            msg.payload matches Payload::Validation(p) ==> (r is Ok ==> ({
                let step = spec_validation_step(msg.header.iteration);
                let old_bs = spec_bucket_bitset(old(self).aggr.entries@, step, p.vote);
                let old_w = sum_weights(committee.members@, old_bs);
                &&& final(self).aggr.spec_is_collected(p.sign_info.signer@, p.vote, step)
                &&& (spec_entry_for(final(self).aggr.entries@, step, p.vote) matches Some(e2)
                    && ({
                    let new_w = sum_weights(committee.members@, e2.bitset);
                    let reached = old_w < committee.quorum_threshold && new_w
                        >= committee.quorum_threshold;
                    &&& (forall|i: int|
                        0 <= i < committee.members@.len() && (
                        #[trigger] committee.members@[i]).pubkey@ == p.sign_info.signer@ ==> (
                        !has_bit(old_bs, i) && (forall|j: int|
                            0 <= j < 64 ==> has_bit(e2.bitset, j) == (j == i || has_bit(
                                old_bs,
                                j,
                            ))) && new_w == old_w + committee.members@[i].weight))
                    &&& (match spec_entry_for(old(self).aggr.entries@, step, p.vote) {
                        Some(e) => e2.aggregate_signature@ == crate::bls::bls_agg(
                            e.aggregate_signature@,
                            p.sign_info.signature@,
                        ),
                        None => e2.aggregate_signature@ == p.sign_info.signature@,
                    })
                    &&& (spec_entry_for(old(self).aggr.entries@, step, p.vote) is Some
                        ==> bls::sig_parses(e2.aggregate_signature@))
                    &&& (r matches Ok(out) ==> ((out is Ready) == reached))
                    &&& (r matches Ok(out) ==> (out matches HandleMsgOutput::Ready(m) ==> (
                    m.payload matches Payload::ValidationResult(vr) && vr.vote == p.vote
                        && vr.quorum == spec_quorum_of_vote(p.vote) && vr.sv.bitset == e2.bitset
                        && vr.sv.aggregate_signature@ == e2.aggregate_signature@)))
                    &&& (spec_cert_for(
                        final(registry).entries@,
                        msg.header.iteration,
                        p.vote,
                    ) matches Some(ce) && ({
                        let old_ce = spec_cert_for(
                            old(registry).entries@,
                            msg.header.iteration,
                            p.vote,
                        );
                        &&& (ce.validation matches Some(v) && v.bitset == e2.bitset
                            && v.aggregate_signature@ == e2.aggregate_signature@)
                        &&& ce.validation_quorum == spec_new_vq(
                            old_ce,
                            StepName::Validation,
                            reached,
                        )
                        &&& (match old_ce {
                            Some(c0) => ce.generator@ == c0.generator@,
                            None => (committee.generator matches Some(g) && ce.generator@ == g@),
                        })
                    }))
                }))
            })),
            msg.payload matches Payload::Validation(p) ==> (forall|it2: u8, v2: Vote|
                !(it2 == msg.header.iteration && crate::vote::spec_vote_eq(v2, p.vote))
                    ==> spec_cert_for(final(registry).entries@, it2, v2) == spec_cert_for(
                    old(registry).entries@,
                    it2,
                    v2,
                )),
            forall|it2: u8, h2: Seq<u8>|
                spec_emitted_contains(old(registry).emitted@, it2, h2) ==> spec_emitted_contains(
                    final(registry).emitted@,
                    it2,
                    h2,
                ),
    {
        let (header, p) = match Self::unwrap_msg(msg) {
            Ok(hp) => hp,
            Err(e) => {
                return Err(e);
            },
        };
        // NoQuorum cannot be cast from a validation committee
        if p.vote.tag() == 3 {
            return Err(ConsensusError::InvalidVote(p.vote));
        }
        let iteration = header.iteration;
        if iteration != self.curr_iteration {
            // past-iteration messages go through collect_from_past
            return Err(ConsensusError::InvalidMsgIteration(iteration));
        }
        let step = step_from_name(iteration, StepName::Validation);
        let (sv, quorum_reached) = match self.aggr.collect_vote(
            committee,
            &p.sign_info,
            &p.vote,
            step,
        ) {
            Ok(out) => out,
            Err(AggregatorError::NotCommitteeMember) => {
                return Err(ConsensusError::InvalidVote(p.vote));
            },
            Err(AggregatorError::DuplicatedVote) => {
                return Err(ConsensusError::VoteAlreadyCollected);
            },
            Err(AggregatorError::BadSignatureBytes) => {
                return Err(ConsensusError::InvalidSignature);
            },
        };
        proof {
            // the signer's unique position pins the crossing flag
            assert(spec_is_member(*committee, p.sign_info.signer@));
        }
        let generator = match &committee.generator {
            Some(g) => g,
            None => unreached(),  // the committee always excludes its generator
        };
        // record the running result in the round-wide registry
        let _ = registry.add_step_votes(
            iteration,
            &p.vote,
            sv.duplicate(),
            StepName::Validation,
            quorum_reached,
            generator,
            ru,
        );
        if quorum_reached {
            let quorum_type = match p.vote {
                Vote::Valid(_) => QuorumType::Valid,
                Vote::Invalid(_) => QuorumType::Invalid,
                Vote::NoCandidate => QuorumType::NoCandidate,
                Vote::NoQuorum => {
                    return Err(ConsensusError::InvalidVote(p.vote));
                },
            };
            return Ok(final_result(sv, p.vote, quorum_type));
        }
        Ok(HandleMsgOutput::Pending)
    }

    /// Collects a validation vote of a former iteration: the vote is
    /// aggregated into that iteration's bucket — never the current one — and
    /// the only output is the registry's Quorum message, produced when this
    /// late vote completes the pair for its iteration.
    pub fn collect_from_past(
        &mut self,
        msg: Message,
        ru: &RoundUpdate,
        committee: &Committee,
        registry: &mut CertInfoRegistry,
    ) -> (r: Result<HandleMsgOutput, ConsensusError>)
        requires
            committee.wf(),
            committee.generator is Some,
            msg.header.iteration <= MAX_ITERATION,
            old(self).curr_iteration <= MAX_ITERATION,
            old(self).aggr.consistent_with(
                *committee,
                spec_validation_step(msg.header.iteration),
            ),
        ensures
            final(self).curr_iteration == old(self).curr_iteration,
            final(self).candidate == old(self).candidate,
            final(self).aggr.consistent_with(
                *committee,
                spec_validation_step(msg.header.iteration),
            ),
            !(msg.payload is Validation) ==> (r matches Err(e) && e
                == ConsensusError::InvalidMsgType),
            msg.payload matches Payload::Validation(p) ==> (p.vote is NoQuorum ==> (r matches Err(
                e,
            ) && e == ConsensusError::InvalidVote(p.vote))),
            msg.payload matches Payload::Validation(p) ==> (!(p.vote is NoQuorum) ==> r is Ok),
            r is Err ==> *final(self) == *old(self) && *final(registry) == *old(registry),
            msg.payload matches Payload::Validation(p) ==> ((!(p.vote is NoQuorum)) ==> ({
                let step = spec_validation_step(msg.header.iteration);
                let accepted = spec_collect_accepts(
                    old(self).aggr,
                    *committee,
                    p.sign_info.signer@,
                    p.sign_info.signature@,
                    p.vote,
                    step,
                );
                &&& (!accepted ==> *final(self) == *old(self) && *final(registry) == *old(
                    registry,
                ) && (r matches Ok(out) && out is Pending))
                &&& (accepted ==> ({
                    let old_bs = spec_bucket_bitset(old(self).aggr.entries@, step, p.vote);
                    let old_w = sum_weights(committee.members@, old_bs);
                    &&& final(self).aggr.spec_is_collected(p.sign_info.signer@, p.vote, step)
                    &&& (spec_entry_for(final(self).aggr.entries@, step, p.vote) matches Some(e2)
                        && ({
                        let new_w = sum_weights(committee.members@, e2.bitset);
                        let reached = old_w < committee.quorum_threshold && new_w
                            >= committee.quorum_threshold;
                        &&& (forall|i: int|
                            0 <= i < committee.members@.len() && (
                            #[trigger] committee.members@[i]).pubkey@ == p.sign_info.signer@
                                ==> (!has_bit(old_bs, i) && (forall|j: int|
                                0 <= j < 64 ==> has_bit(e2.bitset, j) == (j == i || has_bit(
                                    old_bs,
                                    j,
                                ))) && new_w == old_w + committee.members@[i].weight))
                        &&& (match spec_entry_for(old(self).aggr.entries@, step, p.vote) {
                            Some(e) => e2.aggregate_signature@ == crate::bls::bls_agg(
                                e.aggregate_signature@,
                                p.sign_info.signature@,
                            ),
                            None => e2.aggregate_signature@ == p.sign_info.signature@,
                        })
                        &&& (spec_entry_for(old(self).aggr.entries@, step, p.vote) is Some
                            ==> bls::sig_parses(e2.aggregate_signature@))
                        &&& (spec_cert_for(
                            final(registry).entries@,
                            msg.header.iteration,
                            p.vote,
                        ) matches Some(ce) && ({
                            let old_ce = spec_cert_for(
                                old(registry).entries@,
                                msg.header.iteration,
                                p.vote,
                            );
                            &&& (ce.validation matches Some(v) && v.bitset == e2.bitset
                                && v.aggregate_signature@ == e2.aggregate_signature@)
                            &&& ce.validation_quorum == spec_new_vq(
                                old_ce,
                                StepName::Validation,
                                reached,
                            )
                            &&& (match old_ce {
                                Some(c0) => ce.generator@ == c0.generator@,
                                None => (committee.generator matches Some(g) && ce.generator@
                                    == g@),
                            })
                        }))
                        &&& (r matches Ok(out) ==> ((out is Ready) == spec_emits(
                            old(registry).entries@,
                            old(registry).emitted@,
                            msg.header.iteration,
                            p.vote,
                            StepName::Validation,
                            reached,
                        )))
                        &&& (r matches Ok(out) ==> (out matches HandleMsgOutput::Ready(m) ==> (
                        m.payload matches Payload::Quorum(q) && q.validation.bitset == e2.bitset
                            && q.validation.aggregate_signature@ == e2.aggregate_signature@ && (
                        spec_cert_for(
                            old(registry).entries@,
                            msg.header.iteration,
                            p.vote,
                        ) matches Some(c0) && c0.ratification matches Some(rsv)
                            && crate::ledger::spec_sv_eq(q.ratification, rsv)))))
                    }))
                }))
            })),
            msg.payload matches Payload::Validation(p) ==> (forall|it2: u8, v2: Vote|
                !(it2 == msg.header.iteration && crate::vote::spec_vote_eq(v2, p.vote))
                    ==> spec_cert_for(final(registry).entries@, it2, v2) == spec_cert_for(
                    old(registry).entries@,
                    it2,
                    v2,
                )),
            // a past vote never leaks into the current iteration's buckets
            msg.header.iteration != old(self).curr_iteration ==> forall|v2: Vote|
                spec_entry_for(
                    final(self).aggr.entries@,
                    spec_validation_step(old(self).curr_iteration),
                    v2,
                ) == spec_entry_for(
                    old(self).aggr.entries@,
                    spec_validation_step(old(self).curr_iteration),
                    v2,
                ),
            r matches Ok(out) ==> (out matches HandleMsgOutput::Ready(m) ==> (
            msg.payload matches Payload::Validation(p) && m.header.iteration
                == msg.header.iteration && m.header.round == ru.spec_round() && m.payload is Quorum
                && m.header.block_hash@ =~= spec_vote_hash(p.vote) && !spec_emitted_contains(
                old(registry).emitted@,
                msg.header.iteration,
                spec_vote_hash(p.vote),
            ) && spec_emitted_contains(
                final(registry).emitted@,
                msg.header.iteration,
                spec_vote_hash(p.vote),
            ))),
            forall|it2: u8, h2: Seq<u8>|
                spec_emitted_contains(old(registry).emitted@, it2, h2) ==> spec_emitted_contains(
                    final(registry).emitted@,
                    it2,
                    h2,
                ),
    {
        let (header, p) = match Self::unwrap_msg(msg) {
            Ok(hp) => hp,
            Err(e) => {
                return Err(e);
            },
        };
        // NoQuorum cannot be cast from a validation committee
        if p.vote.tag() == 3 {
            return Err(ConsensusError::InvalidVote(p.vote));
        }
        let iteration = header.iteration;
        let step = step_from_name(iteration, StepName::Validation);
        proof {
            if iteration != old(self).curr_iteration {
                assert(spec_validation_step(iteration) != spec_validation_step(
                    old(self).curr_iteration,
                ));
            }
        }
        match self.aggr.collect_vote(committee, &p.sign_info, &p.vote, step) {
            Ok((sv, quorum_reached)) => {
                proof {
                    // the signer's unique position pins the crossing flag
                    assert(spec_is_member(*committee, p.sign_info.signer@));
                }
                let generator = match &committee.generator {
                    Some(g) => g,
                    None => unreached(),  // the committee always excludes its generator
                };
                if let Some(quorum_msg) = registry.add_step_votes(
                    iteration,
                    &p.vote,
                    sv,
                    StepName::Validation,
                    quorum_reached,
                    generator,
                    ru,
                ) {
                    return Ok(HandleMsgOutput::Ready(quorum_msg));
                }
            },
            Err(_) => {},
        }
        Ok(HandleMsgOutput::Pending)
    }

    /// Answers a step timeout with the empty Ready marker.
    pub fn handle_timeout(&self) -> (r: Result<HandleMsgOutput, ConsensusError>)
        ensures
            r matches Ok(out) && out matches HandleMsgOutput::Ready(m) && m.payload is Empty,
    {
        Ok(HandleMsgOutput::Ready(Message::empty()))
    }
}

/// Checking a message twice gives the same answer while nothing was
/// collected in between, and `VoteAlreadyCollected` once its vote was: the
/// second pass over an unchanged or grown state never silently accepts a
/// replay, and checking mutates nothing.
pub proof fn lemma_verify_replay(h1: ValidationHandler, h2: ValidationHandler, msg: Message)
    requires
        h1 == h2 || (msg.payload matches Payload::Validation(p) && h2.aggr.spec_is_collected(
            p.sign_info.signer@,
            p.vote,
            spec_validation_step(msg.header.iteration),
        )),
    ensures
        h2.spec_verify(msg) == h1.spec_verify(msg) || h2.spec_verify(msg) == Err::<
            (),
            ConsensusError,
        >(ConsensusError::VoteAlreadyCollected),
{
}

} // verus!
