//! Message handler for the Ratification step: checks that an incoming
//! ratification carries a sound `ValidationResult`, aggregates ratification
//! votes over the same candidate, and — on quorum — emits the final Quorum
//! message bundling both step-vote records.

use vstd::prelude::*;
use vstd::pervasive::unreached;

use crate::aggregator::{
    spec_bucket_bitset, spec_collect_accepts, spec_entry_for, spec_is_member, Aggregator,
};
use crate::bitset::has_bit;
use crate::bls;
use crate::bytes_util::copy_bytes;
use crate::committee::{spec_committees_for, sum_weights, Committee, RoundCommittees};
use crate::error::ConsensusError;
use crate::ledger::{spec_sv_eq, StepVotes};
use crate::message::{
    spec_signable_bytes, HandleMsgOutput, Header, Message, Payload, QuorumPayload,
    RatificationPayload, Topic, ValidationResult,
};
use crate::registry::{
    spec_cert_for, spec_emitted_contains, spec_emits, spec_new_rq, CertInfoRegistry,
};
use crate::round::RoundUpdate;
use crate::step::{iteration_from_step, step_from_name, StepName, MAX_ITERATION};
use crate::verifiers::{spec_votes_ok, verify_votes};
use crate::vote::{spec_vote_hash, QuorumType, Vote};

verus! {

/// The global step number of an iteration's Ratification step.
pub open spec fn spec_ratification_step(iteration: u8) -> u8 {
    (iteration * 3 + 2) as u8
}

/// Whether an embedded validation outcome re-verifies: it reports a Valid or
/// Nil quorum, its iteration's committees are recorded, and its step votes
/// pass `verify_votes` against the validation committee with the quorum
/// check on.
pub open spec fn spec_vvr_ok(
    round: u64,
    step: u8,
    rc: RoundCommittees,
    result: ValidationResult,
) -> bool {
    &&& (result.quorum == QuorumType::Valid || result.quorum == QuorumType::NilQuorum)
    &&& spec_committees_for(rc.entries@, (step / 3) as u8) matches Some(e) && spec_votes_ok(
        spec_vote_hash(result.vote),
        result.sv.bitset,
        result.sv.aggregate_signature@,
        e.validation,
        round,
        (step / 3) as u8,
        StepName::Validation,
        result.vote,
        true,
    )
}

/// What `verify` answers: a ratification message passes when its own
/// signature verifies and its embedded validation outcome re-verifies;
/// anything else is of the wrong type. The answer is a function of the
/// message and the round's data alone.
pub open spec fn spec_ratification_verify(
    msg: Message,
    round: u64,
    rc: RoundCommittees,
) -> Result<(), ConsensusError> {
    match msg.payload {
        Payload::Ratification(p) => if !bls::bls_accepts(
            seq![p.sign_info.signer@],
            spec_signable_bytes(
                msg.header.round,
                msg.header.iteration,
                StepName::Ratification,
                msg.header.block_hash@,
                p.vote,
            ),
            p.sign_info.signature@,
        ) {
            Err(ConsensusError::InvalidSignature)
        } else if spec_vvr_ok(
            round,
            spec_ratification_step(msg.header.iteration),
            rc,
            p.validation_result,
        ) {
            Ok(())
        } else {
            Err(ConsensusError::InvalidValidation)
        },
        _ => Err(ConsensusError::InvalidMsgType),
    }
}

/// The Ratification-step handler: the current step, the validation outcome
/// of this iteration, and the vote accumulator. The round-wide registry is
/// handed in by the caller, who serialises access to it.
#[derive(Debug)]
pub struct RatificationHandler {
    pub aggregator: Aggregator,
    pub validation_result: ValidationResult,
    pub curr_step: u8,
}

impl RatificationHandler {
    /// A fresh handler at step zero.
    pub fn new() -> (r: RatificationHandler)
        ensures
            r.aggregator.entries@.len() == 0,
            r.validation_result.quorum == QuorumType::NoQuorum,
            r.curr_step == 0,
    {
        RatificationHandler {
            aggregator: Aggregator::new(),
            validation_result: ValidationResult::empty(),
            curr_step: 0,
        }
    }

    /// Enters a new step: drops the validation outcome.
    pub fn reset(&mut self, step: u8)
        ensures
            final(self).validation_result.quorum == QuorumType::NoQuorum,
            final(self).validation_result.vote == Vote::NoQuorum,
            final(self).validation_result.sv.bitset == 0,
            final(self).validation_result.sv.aggregate_signature@ =~= Seq::<u8>::empty(),
            final(self).curr_step == step,
            final(self).aggregator == old(self).aggregator,
    {
        self.validation_result = ValidationResult::empty();
        self.curr_step = step;
    }

    /// The validation outcome recorded for this iteration.
    pub fn validation_result(&self) -> (r: &ValidationResult)
        ensures
            r == &self.validation_result,
    {
        &self.validation_result
    }

    /// Takes the ratification payload out of a message; wrong payloads are
    /// `InvalidMsgType`.
    fn unwrap_msg(msg: Message) -> (r: Result<(Header, RatificationPayload), ConsensusError>)
        ensures
            msg.payload matches Payload::Ratification(p) ==> (r matches Ok(hp) && hp.0
                == msg.header && hp.1 == p),
            !(msg.payload is Ratification) ==> (r matches Err(e) && e
                == ConsensusError::InvalidMsgType),
    {
        match msg.payload {
            Payload::Ratification(p) => Ok((msg.header, p)),
            _ => Err(ConsensusError::InvalidMsgType),
        }
    }

    /// Checks an incoming message without touching any state: the message's
    /// own signature must verify, and the embedded validation outcome must
    /// re-verify against the validation committee of its iteration.
    pub fn verify(&self, msg: &Message, ru: &RoundUpdate, round_committees: &RoundCommittees) -> (r:
        Result<(), ConsensusError>)
        requires
            msg.header.iteration <= MAX_ITERATION,
            round_committees.wf(),
        ensures
            (r is Ok) == (spec_ratification_verify(*msg, ru.spec_round(), *round_committees)
                is Ok),
            r matches Err(e) ==> (spec_ratification_verify(
                *msg,
                ru.spec_round(),
                *round_committees,
            ) matches Err(e2) && e == e2),
            msg.payload matches Payload::Ratification(p) ==> (r is Ok ==> bls::sig_parses(
                p.sign_info.signature@,
            )),
    {
        match &msg.payload {
            Payload::Ratification(p) => {
                if !crate::message::verify_signed_vote(
                    &msg.header,
                    StepName::Ratification,
                    &p.vote,
                    &p.sign_info,
                ) {
                    return Err(ConsensusError::InvalidSignature);
                }
                let step = step_from_name(msg.header.iteration, StepName::Ratification);
                Self::verify_validation_result(ru, step, round_committees, &p.validation_result)
            },
            _ => Err(ConsensusError::InvalidMsgType),
        }
    }

    /// Re-verifies an embedded validation outcome: accepts only Valid and
    /// Nil quorums, reconstructs the iteration's validation committee from
    /// the round's records, and re-checks the step votes with the quorum
    /// check on. Any failure is `InvalidValidation`.
    pub fn verify_validation_result(
        ru: &RoundUpdate,
        step: u8,
        round_committees: &RoundCommittees,
        result: &ValidationResult,
    ) -> (r: Result<(), ConsensusError>)
        requires
            round_committees.wf(),
        ensures
            (r is Ok) == spec_vvr_ok(ru.spec_round(), step, *round_committees, *result),
            r is Err ==> (r matches Err(e) && e == ConsensusError::InvalidValidation),
    {
        let accepted = match result.quorum {
            QuorumType::Valid => true,
            QuorumType::NilQuorum => true,
            _ => false,
        };
        if !accepted {
            return Err(ConsensusError::InvalidValidation);
        }
        let iter = iteration_from_step(step);
        let committee = match round_committees.get_validation_committee(iter) {
            Some(c) => c,
            None => {
                return Err(ConsensusError::InvalidValidation);
            },
        };
        proof {
            crate::committee::lemma_committees_for_element(round_committees.entries@, iter);
            let e = spec_committees_for(round_committees.entries@, iter).unwrap();
            let k = choose|k: int|
                0 <= k < round_committees.entries@.len() && round_committees.entries@[k] == e;
            assert(round_committees.entries@[k].wf());
        }
        let hash = result.vote.block_hash();
        match verify_votes(
            &hash,
            result.sv.bitset,
            &result.sv.aggregate_signature,
            committee,
            ru.round(),
            iter,
            StepName::Validation,
            &result.vote,
            true,
        ) {
            Ok(_) => Ok(()),
            Err(_) => Err(ConsensusError::InvalidValidation),
        }
    }

    /// Builds the final Quorum message: a header over this iteration and
    /// block hash, signed with the round's key pair, bundling the validation
    /// and ratification step votes.
    fn build_quorum_msg(
        ru: &RoundUpdate,
        iteration: u8,
        vote: &Vote,
        validation: StepVotes,
        ratification: StepVotes,
    ) -> (r: Message)
        ensures
            r.header.round == ru.spec_round(),
            r.header.iteration == iteration,
            r.header.block_hash@ =~= spec_vote_hash(*vote),
            r.header.topic == Topic::Quorum,
            r.header.pubkey_bls@ == ru.spec_pubkey(),
            r.payload matches Payload::Quorum(q) && q.validation == validation && q.ratification
                == ratification && q.signature@ == bls::bls_sig(
                ru.spec_secret_key(),
                ru.spec_pubkey(),
                spec_signable_bytes(
                    ru.spec_round(),
                    iteration,
                    StepName::Ratification,
                    spec_vote_hash(*vote),
                    *vote,
                ),
            ),
    {
        ru.keys_sound();
        let hdr = Header {
            pubkey_bls: copy_bytes(ru.pubkey_bls()),
            round: ru.round(),
            iteration,
            block_hash: vote.block_hash(),
            topic: Topic::Quorum,
        };
        let signature = match hdr.sign(
            ru.secret_key(),
            ru.pubkey_bls(),
            StepName::Ratification,
            vote,
        ) {
            Some(s) => s,
            None => unreached(),  // the round's keys always deserialize
        };
        let payload = QuorumPayload { signature, validation, ratification };
        Message::new_quorum(hdr, payload)
    }

    /// Collects a current-step ratification vote: messages of another step
    /// are answered with `InvalidMsgIteration`, the routing hint towards
    /// `collect_from_past`; the vote is aggregated, the running record goes
    /// to the registry, and the final Quorum message comes back exactly
    /// when this vote first makes its bucket reach the quorum threshold.
    pub fn collect(
        &mut self,
        msg: Message,
        ru: &RoundUpdate,
        committee: &Committee,
        registry: &mut CertInfoRegistry,
    ) -> (r: Result<HandleMsgOutput, ConsensusError>)
        requires
            committee.wf(),
            committee.generator is Some,
            msg.header.iteration <= MAX_ITERATION,
            old(self).aggregator.consistent_with(
                *committee,
                spec_ratification_step(msg.header.iteration),
            ),
        ensures
            final(self).curr_step == old(self).curr_step,
            final(self).validation_result == old(self).validation_result,
            final(self).aggregator.consistent_with(
                *committee,
                spec_ratification_step(msg.header.iteration),
            ),
            spec_ratification_step(msg.header.iteration) != old(self).curr_step ==> (r matches Err(
                e,
            ) && e == ConsensusError::InvalidMsgIteration(msg.header.iteration)),
            r is Err ==> *final(self) == *old(self) && *final(registry) == *old(registry),
            (spec_ratification_step(msg.header.iteration) == old(self).curr_step && !(msg.payload
                is Ratification)) ==> (r matches Err(e) && e == ConsensusError::InvalidMsgType),
            msg.payload matches Payload::Ratification(p) ==> ((spec_ratification_step(
                msg.header.iteration,
            ) == old(self).curr_step) ==> ({
                let step = spec_ratification_step(msg.header.iteration);
                let accepted = spec_collect_accepts(
                    old(self).aggregator,
                    *committee,
                    p.sign_info.signer@,
                    p.sign_info.signature@,
                    p.vote,
                    step,
                );
                let old_w = sum_weights(
                    committee.members@,
                    spec_bucket_bitset(old(self).aggregator.entries@, step, p.vote),
                );
                &&& (r is Ok)
                &&& (!accepted ==> (r matches Ok(out) && out is Pending && *final(self) == *old(
                    self,
                ) && *final(registry) == *old(registry)))
                &&& (accepted ==> ({
                    let old_bs = spec_bucket_bitset(old(self).aggregator.entries@, step, p.vote);
                    &&& final(self).aggregator.spec_is_collected(
                        p.sign_info.signer@,
                        p.vote,
                        step,
                    )
                    &&& (spec_entry_for(
                        final(self).aggregator.entries@,
                        step,
                        p.vote,
                    ) matches Some(e2) && ({
                        let new_w = sum_weights(committee.members@, e2.bitset);
                        let reached = old_w < committee.quorum_threshold && new_w
                            >= committee.quorum_threshold;
                        &&& (forall|i: int|
                            0 <= i < committee.members@.len() && (
                            #[trigger] committee.members@[i]).pubkey@ == p.sign_info.signer@
                                ==> (!has_bit(old_bs, i) && (forall|j: int|
                                0 <= j < 64 ==> has_bit(e2.bitset, j) == (j == i || has_bit(
                                    old_bs,
                                    j,
                                ))) && new_w == old_w + committee.members@[i].weight))
                        &&& (match spec_entry_for(old(self).aggregator.entries@, step, p.vote) {
                            Some(e) => e2.aggregate_signature@ == bls::bls_agg(
                                e.aggregate_signature@,
                                p.sign_info.signature@,
                            ),
                            None => e2.aggregate_signature@ == p.sign_info.signature@,
                        })
                        &&& (spec_entry_for(old(self).aggregator.entries@, step, p.vote) is Some
                            ==> bls::sig_parses(e2.aggregate_signature@))
                        &&& (spec_cert_for(
                            final(registry).entries@,
                            msg.header.iteration,
                            p.vote,
                        ) matches Some(ce) && ({
                            let old_ce = spec_cert_for(
                                old(registry).entries@,
                                msg.header.iteration,
                                p.vote,
                            );
                            &&& (ce.ratification matches Some(v) && v.bitset == e2.bitset
                                && v.aggregate_signature@ == e2.aggregate_signature@)
                            &&& ce.ratification_quorum == spec_new_rq(
                                old_ce,
                                StepName::Ratification,
                                reached,
                            )
                            &&& (match old_ce {
                                Some(c0) => ce.generator@ == c0.generator@,
                                None => (committee.generator matches Some(g) && ce.generator@
                                    == g@),
                            })
                        }))
                        &&& (r matches Ok(out) ==> ((out is Ready) == reached))
                        &&& (r matches Ok(out) ==> (out matches HandleMsgOutput::Ready(m) ==> (
                        m.header.round == ru.spec_round() && m.header.iteration
                            == msg.header.iteration && m.header.block_hash@ =~= spec_vote_hash(
                            p.vote,
                        ) && m.header.topic == Topic::Quorum && (m.payload matches Payload::Quorum(
                            q,
                        ) && spec_sv_eq(q.validation, p.validation_result.sv)
                            && q.ratification.bitset == e2.bitset
                            && q.ratification.aggregate_signature@ == e2.aggregate_signature@
                            && new_w >= committee.quorum_threshold))))
                    }))
                }))
            })),
            msg.payload matches Payload::Ratification(p) ==> (forall|it2: u8, v2: Vote|
                !(it2 == msg.header.iteration && crate::vote::spec_vote_eq(v2, p.vote))
                    ==> spec_cert_for(final(registry).entries@, it2, v2) == spec_cert_for(
                    old(registry).entries@,
                    it2,
                    v2,
                )),
            forall|it2: u8, h2: Seq<u8>|
                spec_emitted_contains(old(registry).emitted@, it2, h2) ==> spec_emitted_contains(
                    final(registry).emitted@,
                    it2,
                    h2,
                ),
    {
        let step = step_from_name(msg.header.iteration, StepName::Ratification);
        if step != self.curr_step {
            // a routing hint: the driver re-routes towards collect_from_past
            return Err(ConsensusError::InvalidMsgIteration(msg.header.iteration));
        }
        let (header, p) = match Self::unwrap_msg(msg) {
            Ok(hp) => hp,
            Err(e) => {
                return Err(e);
            },
        };
        let iteration = header.iteration;
        let (sv, quorum_reached) = match self.aggregator.collect_vote(
            committee,
            &p.sign_info,
            &p.vote,
            step,
        ) {
            Ok(out) => out,
            Err(_) => {
                return Ok(HandleMsgOutput::Pending);
            },
        };
        proof {
            // the signer's unique position pins the crossing flag
            assert(spec_is_member(*committee, p.sign_info.signer@));
        }
        let generator = match &committee.generator {
            Some(g) => g,
            None => unreached(),  // the committee always excludes its generator
        };
        // record the running result in the round-wide registry
        let _ = registry.add_step_votes(
            iteration,
            &p.vote,
            sv.duplicate(),
            StepName::Ratification,
            quorum_reached,
            generator,
            ru,
        );
        if quorum_reached {
            return Ok(
                HandleMsgOutput::Ready(
                    Self::build_quorum_msg(
                        ru,
                        iteration,
                        &p.vote,
                        p.validation_result.sv.duplicate(),
                        sv,
                    ),
                ),
            );
        }
        Ok(HandleMsgOutput::Pending)
    }

    /// Collects a ratification vote of a former iteration: the vote is
    /// aggregated into that iteration's bucket, and the only output is the
    /// registry's Quorum message, produced when this late vote completes the
    /// pair for its iteration.
    pub fn collect_from_past(
        &mut self,
        msg: Message,
        ru: &RoundUpdate,
        committee: &Committee,
        registry: &mut CertInfoRegistry,
    ) -> (r: Result<HandleMsgOutput, ConsensusError>)
        requires
            committee.wf(),
            committee.generator is Some,
            msg.header.iteration <= MAX_ITERATION,
            old(self).aggregator.consistent_with(
                *committee,
                spec_ratification_step(msg.header.iteration),
            ),
        ensures
            final(self).curr_step == old(self).curr_step,
            final(self).validation_result == old(self).validation_result,
            final(self).aggregator.consistent_with(
                *committee,
                spec_ratification_step(msg.header.iteration),
            ),
            !(msg.payload is Ratification) ==> (r matches Err(e) && e
                == ConsensusError::InvalidMsgType),
            msg.payload is Ratification ==> r is Ok,
            r is Err ==> *final(self) == *old(self) && *final(registry) == *old(registry),
            msg.payload matches Payload::Ratification(p) ==> ({
                let step = spec_ratification_step(msg.header.iteration);
                let accepted = spec_collect_accepts(
                    old(self).aggregator,
                    *committee,
                    p.sign_info.signer@,
                    p.sign_info.signature@,
                    p.vote,
                    step,
                );
                &&& (!accepted ==> *final(self) == *old(self) && *final(registry) == *old(
                    registry,
                ) && (r matches Ok(out) && out is Pending))
                &&& (accepted ==> ({
                    let old_bs = spec_bucket_bitset(old(self).aggregator.entries@, step, p.vote);
                    let old_w = sum_weights(committee.members@, old_bs);
                    &&& final(self).aggregator.spec_is_collected(
                        p.sign_info.signer@,
                        p.vote,
                        step,
                    )
                    &&& (spec_entry_for(
                        final(self).aggregator.entries@,
                        step,
                        p.vote,
                    ) matches Some(e2) && ({
                        let new_w = sum_weights(committee.members@, e2.bitset);
                        let reached = old_w < committee.quorum_threshold && new_w
                            >= committee.quorum_threshold;
                        &&& (forall|i: int|
                            0 <= i < committee.members@.len() && (
                            #[trigger] committee.members@[i]).pubkey@ == p.sign_info.signer@
                                ==> (!has_bit(old_bs, i) && (forall|j: int|
                                0 <= j < 64 ==> has_bit(e2.bitset, j) == (j == i || has_bit(
                                    old_bs,
                                    j,
                                ))) && new_w == old_w + committee.members@[i].weight))
                        &&& (match spec_entry_for(old(self).aggregator.entries@, step, p.vote) {
                            Some(e) => e2.aggregate_signature@ == bls::bls_agg(
                                e.aggregate_signature@,
                                p.sign_info.signature@,
                            ),
                            None => e2.aggregate_signature@ == p.sign_info.signature@,
                        })
                        &&& (spec_entry_for(old(self).aggregator.entries@, step, p.vote) is Some
                            ==> bls::sig_parses(e2.aggregate_signature@))
                        &&& (spec_cert_for(
                            final(registry).entries@,
                            msg.header.iteration,
                            p.vote,
                        ) matches Some(ce) && ({
                            let old_ce = spec_cert_for(
                                old(registry).entries@,
                                msg.header.iteration,
                                p.vote,
                            );
                            &&& (ce.ratification matches Some(v) && v.bitset == e2.bitset
                                && v.aggregate_signature@ == e2.aggregate_signature@)
                            &&& ce.ratification_quorum == spec_new_rq(
                                old_ce,
                                StepName::Ratification,
                                reached,
                            )
                            &&& (match old_ce {
                                Some(c0) => ce.generator@ == c0.generator@,
                                None => (committee.generator matches Some(g) && ce.generator@
                                    == g@),
                            })
                        }))
                        &&& (r matches Ok(out) ==> ((out is Ready) == spec_emits(
                            old(registry).entries@,
                            old(registry).emitted@,
                            msg.header.iteration,
                            p.vote,
                            StepName::Ratification,
                            reached,
                        )))
                        &&& (r matches Ok(out) ==> (out matches HandleMsgOutput::Ready(m) ==> (
                        m.payload matches Payload::Quorum(q) && q.ratification.bitset == e2.bitset
                            && q.ratification.aggregate_signature@ == e2.aggregate_signature@ && (
                        spec_cert_for(
                            old(registry).entries@,
                            msg.header.iteration,
                            p.vote,
                        ) matches Some(c0) && c0.validation matches Some(vsv) && spec_sv_eq(
                            q.validation,
                            vsv,
                        )))))
                    }))
                }))
            }),
            msg.payload matches Payload::Ratification(p) ==> (forall|it2: u8, v2: Vote|
                !(it2 == msg.header.iteration && crate::vote::spec_vote_eq(v2, p.vote))
                    ==> spec_cert_for(final(registry).entries@, it2, v2) == spec_cert_for(
                    old(registry).entries@,
                    it2,
                    v2,
                )),
            r matches Ok(out) ==> (out matches HandleMsgOutput::Ready(m) ==> (
            msg.payload matches Payload::Ratification(p) && m.header.iteration
                == msg.header.iteration && m.header.round == ru.spec_round() && m.payload is Quorum
                && m.header.block_hash@ =~= spec_vote_hash(p.vote) && !spec_emitted_contains(
                old(registry).emitted@,
                msg.header.iteration,
                spec_vote_hash(p.vote),
            ) && spec_emitted_contains(
                final(registry).emitted@,
                msg.header.iteration,
                spec_vote_hash(p.vote),
            ))),
            forall|it2: u8, h2: Seq<u8>|
                spec_emitted_contains(old(registry).emitted@, it2, h2) ==> spec_emitted_contains(
                    final(registry).emitted@,
                    it2,
                    h2,
                ),
    {
        let (header, p) = match Self::unwrap_msg(msg) {
            Ok(hp) => hp,
            Err(e) => {
                return Err(e);
            },
        };
        let iteration = header.iteration;
        let step = step_from_name(iteration, StepName::Ratification);
        match self.aggregator.collect_vote(committee, &p.sign_info, &p.vote, step) {
            Ok((sv, quorum_reached)) => {
                proof {
                    // the signer's unique position pins the crossing flag
                    assert(spec_is_member(*committee, p.sign_info.signer@));
                }
                let generator = match &committee.generator {
                    Some(g) => g,
                    None => unreached(),  // the committee always excludes its generator
                };
                if let Some(quorum_msg) = registry.add_step_votes(
                    iteration,
                    &p.vote,
                    sv,
                    StepName::Ratification,
                    quorum_reached,
                    generator,
                    ru,
                ) {
                    return Ok(HandleMsgOutput::Ready(quorum_msg));
                }
            },
            Err(_) => {},
        }
        Ok(HandleMsgOutput::Pending)
    }

    /// Answers a step timeout with the empty Ready marker.
    pub fn handle_timeout(&self) -> (r: Result<HandleMsgOutput, ConsensusError>)
        ensures
            r matches Ok(out) && out matches HandleMsgOutput::Ready(m) && m.payload is Empty,
    {
        Ok(HandleMsgOutput::Ready(Message::empty()))
    }
}

/// Any Quorum message the Ratification handler emits bundles, for one
/// (round, iteration, block hash): a validation record that re-verifies
/// against the iteration's validation committee — the handler only collects
/// messages whose embedded outcome passed `verify` — and a ratification
/// record whose summed weight reaches the ratification committee's quorum
/// threshold.
pub proof fn lemma_quorum_msg_sound(
    msg: Message,
    m: Message,
    round: u64,
    rc: RoundCommittees,
    committee: Committee,
)
    requires
        msg.header.iteration <= MAX_ITERATION,
        spec_ratification_verify(msg, round, rc) is Ok,
        msg.payload matches Payload::Ratification(p) && (m.payload matches Payload::Quorum(q)
            && spec_sv_eq(q.validation, p.validation_result.sv) && sum_weights(
            committee.members@,
            q.ratification.bitset,
        ) >= committee.quorum_threshold) && m.header.iteration == msg.header.iteration
            && m.header.block_hash@ =~= spec_vote_hash(p.vote),
    ensures
        msg.payload matches Payload::Ratification(p) ==> (m.payload matches Payload::Quorum(q)
            && (spec_committees_for(rc.entries@, msg.header.iteration) matches Some(e)
            && spec_votes_ok(
            spec_vote_hash(p.validation_result.vote),
            q.validation.bitset,
            q.validation.aggregate_signature@,
            e.validation,
            round,
            msg.header.iteration,
            StepName::Validation,
            p.validation_result.vote,
            true,
        )) && sum_weights(committee.members@, q.ratification.bitset)
            >= committee.quorum_threshold),
{
    let step = spec_ratification_step(msg.header.iteration);
    assert((step / 3) as u8 == msg.header.iteration) by {
        crate::step::lemma_step_encoding_inverts(msg.header.iteration, StepName::Ratification);
    }
}

} // verus!
