//! End-to-end scenarios over the Validation and Ratification handlers,
//! with real BLS keys and signatures.

use consensus_core::committee::{Committee, IterationCommittees, Member, RoundCommittees};
use consensus_core::error::ConsensusError;
use consensus_core::ledger::StepVotes;
use consensus_core::message::{
    HandleMsgOutput, Header, Message, Payload, RatificationPayload, SignInfo, Topic,
    ValidationPayload, ValidationResult,
};
use consensus_core::ratification::RatificationHandler;
use consensus_core::registry::CertInfoRegistry;
use consensus_core::round::RoundUpdate;
use consensus_core::step::{step_from_name, StepName};
use consensus_core::validation::ValidationHandler;
use consensus_core::vote::{QuorumType, Vote};

fn sk_bytes(i: u8) -> Vec<u8> {
    let mut v = vec![0u8; 32];
    v[0] = i;
    v
}

fn pubkey(i: u8) -> Vec<u8> {
    RoundUpdate::new(1, vec![7u8; 48], sk_bytes(i))
        .expect("small scalars are valid secret keys")
        .pubkey_bls()
        .clone()
}

/// Nine members of weight one, keys 1..=9; the generator is key 10.
fn committee9() -> Committee {
    let members: Vec<Member> = (1..=9)
        .map(|i| Member { pubkey: pubkey(i), weight: 1 })
        .collect();
    Committee::new(members, Some(pubkey(10))).expect("nine distinct members")
}

fn local_round() -> RoundUpdate {
    RoundUpdate::new(1, vec![7u8; 48], sk_bytes(10)).expect("valid key")
}

fn validation_msg(signer: u8, round: u64, iteration: u8, hash: [u8; 32], vote: Vote) -> Message {
    let header = Header {
        pubkey_bls: pubkey(signer),
        round,
        iteration,
        block_hash: hash,
        topic: Topic::Validation,
    };
    let signature = header
        .sign(&sk_bytes(signer), &pubkey(signer), StepName::Validation, &vote)
        .expect("valid keys");
    let sign_info = SignInfo { signer: pubkey(signer), signature };
    Message { header, payload: Payload::Validation(ValidationPayload { vote, sign_info }) }
}

fn ratification_msg(
    signer: u8,
    round: u64,
    iteration: u8,
    hash: [u8; 32],
    vote: Vote,
    vr: ValidationResult,
) -> Message {
    let header = Header {
        pubkey_bls: pubkey(signer),
        round,
        iteration,
        block_hash: hash,
        topic: Topic::Ratification,
    };
    let signature = header
        .sign(&sk_bytes(signer), &pubkey(signer), StepName::Ratification, &vote)
        .expect("valid keys");
    let sign_info = SignInfo { signer: pubkey(signer), signature };
    Message {
        header,
        payload: Payload::Ratification(RatificationPayload {
            vote,
            sign_info,
            validation_result: vr,
        }),
    }
}

fn round_committees() -> RoundCommittees {
    let mut rc = RoundCommittees::new();
    let validation = committee9();
    let ratification = committee9();
    rc.push_entry(IterationCommittees { iteration: 0, generator: pubkey(10), validation, ratification });
    rc
}

/// Runs the happy-path validation quorum and returns the emitted result.
fn run_validation_quorum(
    handler: &mut ValidationHandler,
    registry: &mut CertInfoRegistry,
    hash: [u8; 32],
) -> ValidationResult {
    let ru = local_round();
    let committee = committee9();
    let mut result = None;
    for signer in 1..=6u8 {
        let msg = validation_msg(signer, 1, 0, hash, Vote::Valid(hash));
        let rc = round_committees();
        assert!(handler.verify(&msg, 0, &rc).is_ok(), "vote {signer} must verify");
        let out = handler
            .collect(msg, &ru, &committee, registry)
            .expect("vote must collect");
        if signer < 6 {
            assert!(matches!(out, HandleMsgOutput::Pending), "no quorum before the sixth vote");
        } else {
            match out {
                HandleMsgOutput::Ready(m) => match m.payload {
                    Payload::ValidationResult(vr) => result = Some(vr),
                    other => panic!("expected a validation result, got {other:?}"),
                },
                HandleMsgOutput::Pending => panic!("the sixth vote must reach quorum"),
            }
        }
    }
    result.expect("quorum reached")
}

// Happy path: committee of nine, weights all one, threshold six; six Valid
// votes from signers 1..=6 reach quorum on the sixth vote exactly.
#[test]
fn validation_quorum_on_sixth_vote() {
    let mut handler = ValidationHandler::new();
    let mut registry = CertInfoRegistry::new();
    let hash = [0xAA; 32];
    let vr = run_validation_quorum(&mut handler, &mut registry, hash);
    assert_eq!(vr.sv.bitset, 0b000111111, "signers 1..=6 sit at positions 0..=5");
    assert_eq!(vr.vote, Vote::Valid(hash));
    assert_eq!(vr.quorum, QuorumType::Valid);
}

// Ratification quorum after the validation quorum: the handler emits the
// final Quorum message bundling both bitsets over the same hash.
#[test]
fn ratification_quorum_emits_quorum_message() {
    let mut vhandler = ValidationHandler::new();
    let mut registry = CertInfoRegistry::new();
    let hash = [0xAA; 32];
    let vr = run_validation_quorum(&mut vhandler, &mut registry, hash);

    let ru = local_round();
    let committee = committee9();
    let rc = round_committees();
    let mut rhandler = RatificationHandler::new();
    rhandler.reset(step_from_name(0, StepName::Ratification));
    for signer in 1..=6u8 {
        let msg = ratification_msg(signer, 1, 0, hash, Vote::Valid(hash), vr.clone());
        assert!(rhandler.verify(&msg, &ru, &rc).is_ok(), "ratification {signer} must verify");
        let out = rhandler
            .collect(msg, &ru, &committee, &mut registry)
            .expect("ratification must collect");
        if signer < 6 {
            assert!(matches!(out, HandleMsgOutput::Pending));
        } else {
            match out {
                HandleMsgOutput::Ready(m) => {
                    assert_eq!(m.header.block_hash, hash);
                    assert_eq!(m.header.round, 1);
                    assert_eq!(m.header.iteration, 0);
                    assert_eq!(m.header.topic, Topic::Quorum);
                    assert_eq!(m.header.pubkey_bls, pubkey(10), "signed by the local member");
                    match m.payload {
                        Payload::Quorum(q) => {
                            assert_eq!(q.validation.bitset, 0b000111111);
                            assert_eq!(q.ratification.bitset, 0b000111111);
                            let si = SignInfo {
                                signer: m.header.pubkey_bls.clone(),
                                signature: q.signature.clone(),
                            };
                            assert!(
                                consensus_core::message::verify_signed_vote(
                                    &m.header,
                                    StepName::Ratification,
                                    &Vote::Valid(hash),
                                    &si,
                                ),
                                "the quorum message carries a real signature"
                            );
                        }
                        other => panic!("expected a quorum payload, got {other:?}"),
                    }
                }
                HandleMsgOutput::Pending => panic!("the sixth ratification must reach quorum"),
            }
        }
    }
}

// Duplicate vote: the second collect is rejected, the aggregator state is
// unchanged, and the weight is not double-counted.
#[test]
fn duplicate_vote_rejected() {
    let mut handler = ValidationHandler::new();
    let mut registry = CertInfoRegistry::new();
    let ru = local_round();
    let committee = committee9();
    let hash = [0xAA; 32];
    let rc = round_committees();

    let first = validation_msg(3, 1, 0, hash, Vote::Valid(hash));
    assert!(handler.verify(&first, 0, &rc).is_ok());
    handler.collect(first, &ru, &committee, &mut registry).expect("first vote collects");

    let replay = validation_msg(3, 1, 0, hash, Vote::Valid(hash));
    assert_eq!(
        handler.verify(&replay, 0, &rc),
        Err(ConsensusError::VoteAlreadyCollected),
        "the verify path reports the replay"
    );
    let replay = validation_msg(3, 1, 0, hash, Vote::Valid(hash));
    assert_eq!(
        handler.collect(replay, &ru, &committee, &mut registry),
        Err(ConsensusError::VoteAlreadyCollected),
        "the collect path rejects the replay"
    );

    // the weight was not double-counted: five fresh votes are still needed
    for signer in [1u8, 2, 4, 5] {
        let msg = validation_msg(signer, 1, 0, hash, Vote::Valid(hash));
        let out = handler.collect(msg, &ru, &committee, &mut registry).unwrap();
        assert!(matches!(out, HandleMsgOutput::Pending));
    }
    let msg = validation_msg(6, 1, 0, hash, Vote::Valid(hash));
    let out = handler.collect(msg, &ru, &committee, &mut registry).unwrap();
    assert!(matches!(out, HandleMsgOutput::Ready(_)), "the sixth distinct vote reaches quorum");
}

// Split vote below quorum: five Valid and four Invalid votes fill both
// buckets without reaching quorum; the timeout yields the empty marker.
#[test]
fn split_vote_reaches_no_quorum() {
    let mut handler = ValidationHandler::new();
    let mut registry = CertInfoRegistry::new();
    let ru = local_round();
    let committee = committee9();
    let hash = [0xAA; 32];

    for signer in 1..=5u8 {
        let msg = validation_msg(signer, 1, 0, hash, Vote::Valid(hash));
        let out = handler.collect(msg, &ru, &committee, &mut registry).unwrap();
        assert!(matches!(out, HandleMsgOutput::Pending));
    }
    for signer in 6..=9u8 {
        let msg = validation_msg(signer, 1, 0, hash, Vote::Invalid(hash));
        let out = handler.collect(msg, &ru, &committee, &mut registry).unwrap();
        assert!(matches!(out, HandleMsgOutput::Pending));
    }
    let out = handler.handle_timeout().unwrap();
    match out {
        HandleMsgOutput::Ready(m) => assert!(matches!(m.payload, Payload::Empty)),
        HandleMsgOutput::Pending => panic!("a timeout always yields the empty marker"),
    }
}

// NoQuorum votes cannot be cast from a validation committee.
#[test]
fn no_quorum_vote_rejected() {
    let mut handler = ValidationHandler::new();
    let mut registry = CertInfoRegistry::new();
    let ru = local_round();
    let committee = committee9();
    let msg = validation_msg(1, 1, 0, [0u8; 32], Vote::NoQuorum);
    assert_eq!(
        handler.collect(msg, &ru, &committee, &mut registry),
        Err(ConsensusError::InvalidVote(Vote::NoQuorum))
    );
}

// A message of another iteration is a routing hint, not a failure of the
// message: collect answers InvalidMsgIteration and changes nothing.
#[test]
fn foreign_iteration_routed_to_past() {
    let mut handler = ValidationHandler::new();
    handler.reset(1);
    let mut registry = CertInfoRegistry::new();
    let ru = local_round();
    let committee = committee9();
    let hash = [0xAA; 32];
    let msg = validation_msg(1, 1, 0, hash, Vote::Valid(hash));
    assert_eq!(
        handler.collect(msg, &ru, &committee, &mut registry),
        Err(ConsensusError::InvalidMsgIteration(0))
    );
}

// Late past-iteration votes still close that iteration's certificate: with
// the ratification quorum already recorded, the last validation vote makes
// the registry hand out the Quorum message — exactly once.
#[test]
fn late_vote_closes_certificate() {
    let mut registry = CertInfoRegistry::new();
    let ru = local_round();
    let committee = committee9();
    let hash = [0xAA; 32];

    // the ratification quorum for iteration 0 is already present
    let vr = ValidationResult::new(StepVotes::new(vec![0u8; 48], 0), Vote::Valid(hash), QuorumType::Valid);
    let mut rhandler = RatificationHandler::new();
    rhandler.reset(step_from_name(0, StepName::Ratification));
    for signer in 1..=6u8 {
        let msg = ratification_msg(signer, 1, 0, hash, Vote::Valid(hash), vr.clone());
        rhandler.collect(msg, &ru, &committee, &mut registry).expect("ratification collects");
    }

    // the round has advanced; validation votes for iteration 0 arrive late
    let mut vhandler = ValidationHandler::new();
    vhandler.reset(1);
    for signer in 1..=5u8 {
        let msg = validation_msg(signer, 1, 0, hash, Vote::Valid(hash));
        let out = vhandler
            .collect_from_past(msg, &ru, &committee, &mut registry)
            .expect("past votes collect");
        assert!(matches!(out, HandleMsgOutput::Pending), "no validation quorum yet");
    }
    let msg = validation_msg(6, 1, 0, hash, Vote::Valid(hash));
    let out = vhandler
        .collect_from_past(msg, &ru, &committee, &mut registry)
        .expect("past vote collects");
    match out {
        HandleMsgOutput::Ready(m) => {
            assert_eq!(m.header.iteration, 0);
            assert_eq!(m.header.block_hash, hash);
            assert!(matches!(m.payload, Payload::Quorum(_)));
        }
        HandleMsgOutput::Pending => panic!("the late sixth vote closes the certificate"),
    }

    // the pair is recorded as emitted: a replayed update emits nothing more
    let msg = validation_msg(7, 1, 0, hash, Vote::Valid(hash));
    let out = vhandler
        .collect_from_past(msg, &ru, &committee, &mut registry)
        .expect("further late votes still collect");
    assert!(matches!(out, HandleMsgOutput::Pending), "a Quorum message goes out at most once");
}

// Past-iteration votes never leak into the current iteration's buckets:
// after a late vote for iteration 0, the iteration-1 quorum still needs
// six distinct votes of its own.
#[test]
fn past_votes_do_not_leak_into_current_iteration() {
    let mut handler = ValidationHandler::new();
    handler.reset(1);
    let mut registry = CertInfoRegistry::new();
    let ru = local_round();
    let committee = committee9();
    let hash = [0xAA; 32];

    let late = validation_msg(1, 1, 0, hash, Vote::Valid(hash));
    let out = handler
        .collect_from_past(late, &ru, &committee, &mut registry)
        .expect("past vote collects");
    assert_eq!(out, HandleMsgOutput::Pending);

    for signer in 1..=5u8 {
        let msg = validation_msg(signer, 1, 1, hash, Vote::Valid(hash));
        let out = handler.collect(msg, &ru, &committee, &mut registry).unwrap();
        assert_eq!(out, HandleMsgOutput::Pending, "the late vote counted for nothing here");
    }
    let msg = validation_msg(6, 1, 1, hash, Vote::Valid(hash));
    let out = handler.collect(msg, &ru, &committee, &mut registry).unwrap();
    assert!(matches!(out, HandleMsgOutput::Ready(_)));
}

// A ratification message of another step is answered with the routing
// hint, and nothing changes.
#[test]
fn ratification_foreign_step_routed_to_past() {
    let mut rhandler = RatificationHandler::new();
    rhandler.reset(step_from_name(0, StepName::Ratification));
    let mut registry = CertInfoRegistry::new();
    let ru = local_round();
    let committee = committee9();
    let hash = [0xAA; 32];
    let vr = ValidationResult::new(StepVotes::empty(), Vote::Valid(hash), QuorumType::Valid);
    let msg = ratification_msg(1, 1, 1, hash, Vote::Valid(hash), vr);
    assert_eq!(
        rhandler.collect(msg, &ru, &committee, &mut registry),
        Err(ConsensusError::InvalidMsgIteration(1))
    );
}

// Ratification of a malformed validation result: a bitset bit set for a
// member outside the reconstructed validation committee fails verify with
// InvalidValidation.
#[test]
fn malformed_validation_result_rejected() {
    let ru = local_round();
    let rc = round_committees();
    let hash = [0xAA; 32];
    let bad = ValidationResult::new(
        StepVotes::new(vec![0u8; 48], 1 << 9),
        Vote::Valid(hash),
        QuorumType::Valid,
    );
    let rhandler = RatificationHandler::new();
    let msg = ratification_msg(1, 1, 0, hash, Vote::Valid(hash), bad);
    assert_eq!(rhandler.verify(&msg, &ru, &rc), Err(ConsensusError::InvalidValidation));
}

// A ratification whose embedded result reports a NoQuorum outcome is
// rejected even with a sound vote set.
#[test]
fn no_quorum_validation_result_rejected() {
    let mut vhandler = ValidationHandler::new();
    let mut registry = CertInfoRegistry::new();
    let hash = [0xAA; 32];
    let mut vr = run_validation_quorum(&mut vhandler, &mut registry, hash);
    vr.quorum = QuorumType::NoQuorum;
    let ru = local_round();
    let rc = round_committees();
    let rhandler = RatificationHandler::new();
    let msg = ratification_msg(1, 1, 0, hash, Vote::Valid(hash), vr);
    assert_eq!(rhandler.verify(&msg, &ru, &rc), Err(ConsensusError::InvalidValidation));
}

// A sound validation result passes the ratification verify: the embedded
// step votes re-verify against the reconstructed validation committee.
#[test]
fn sound_validation_result_accepted() {
    let mut vhandler = ValidationHandler::new();
    let mut registry = CertInfoRegistry::new();
    let hash = [0xAA; 32];
    let vr = run_validation_quorum(&mut vhandler, &mut registry, hash);
    let ru = local_round();
    let rc = round_committees();
    let rhandler = RatificationHandler::new();
    let msg = ratification_msg(1, 1, 0, hash, Vote::Valid(hash), vr);
    assert!(rhandler.verify(&msg, &ru, &rc).is_ok());
}

// A tampered signature is refused: the same message signed by the wrong
// key fails the validation verify path.
#[test]
fn wrong_signature_rejected() {
    let handler = ValidationHandler::new();
    let rc = round_committees();
    let hash = [0xAA; 32];
    let mut msg = validation_msg(1, 1, 0, hash, Vote::Valid(hash));
    // swap in another member's signature over the same vote
    let other = validation_msg(2, 1, 0, hash, Vote::Valid(hash));
    if let (Payload::Validation(p), Payload::Validation(q)) = (&mut msg.payload, &other.payload) {
        p.sign_info.signature = q.sign_info.signature.clone();
    }
    assert_eq!(handler.verify(&msg, 0, &rc), Err(ConsensusError::InvalidSignature));
}

// A signer outside the committee is rejected by the aggregator.
#[test]
fn non_member_rejected() {
    let mut handler = ValidationHandler::new();
    let mut registry = CertInfoRegistry::new();
    let ru = local_round();
    let committee = committee9();
    let hash = [0xAA; 32];
    // key 11 is no committee member
    let msg = validation_msg(11, 1, 0, hash, Vote::Valid(hash));
    assert_eq!(
        handler.collect(msg, &ru, &committee, &mut registry),
        Err(ConsensusError::InvalidVote(Vote::Valid(hash)))
    );
}

// A message of a foreign payload kind is InvalidMsgType.
#[test]
fn wrong_payload_type_rejected() {
    let mut handler = ValidationHandler::new();
    let mut registry = CertInfoRegistry::new();
    let ru = local_round();
    let committee = committee9();
    assert_eq!(
        handler.collect(Message::empty(), &ru, &committee, &mut registry),
        Err(ConsensusError::InvalidMsgType)
    );
}

// A first vote whose signature bytes do not even deserialize poisons its
// bucket: the next vote of that bucket cannot be aggregated onto it.
#[test]
fn garbage_signature_bytes_fail_aggregation() {
    let mut handler = ValidationHandler::new();
    let mut registry = CertInfoRegistry::new();
    let ru = local_round();
    let committee = committee9();
    let hash = [0xAA; 32];
    let mut first = validation_msg(1, 1, 0, hash, Vote::Valid(hash));
    if let Payload::Validation(p) = &mut first.payload {
        p.sign_info.signature = vec![0xFF; 48];
    }
    // collect does not re-verify; the bytes are stored as handed in
    handler.collect(first, &ru, &committee, &mut registry).expect("first vote is stored");
    let second = validation_msg(2, 1, 0, hash, Vote::Valid(hash));
    assert_eq!(
        handler.collect(second, &ru, &committee, &mut registry),
        Err(ConsensusError::InvalidSignature),
        "folding onto bytes that are no signature fails"
    );
}

// An invalid secret key is refused when the round data is built.
#[test]
fn invalid_secret_key_refused() {
    assert!(RoundUpdate::new(1, vec![0u8; 48], vec![0xFF; 32]).is_none());
    assert!(RoundUpdate::new(1, vec![0u8; 48], sk_bytes(1)).is_some());
}
