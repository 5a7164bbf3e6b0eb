//! Candidate-header validation: plain fields, and certificates verified
//! against recorded committees with real aggregate signatures.

use consensus_core::committee::{Committee, IterationCommittees, Member, RoundCommittees};
use consensus_core::header_validation::{
    execute_checks, verify_basic_fields, verify_block_cert, verify_failed_iterations,
    verify_winning_cert, HeaderError,
};
use consensus_core::ledger::{BlockHeader, Certificate, IterationCert, StepVotes};
use consensus_core::message::{
    HandleMsgOutput, Header, Message, Payload, SignInfo, Topic, ValidationPayload,
};
use consensus_core::registry::CertInfoRegistry;
use consensus_core::round::RoundUpdate;
use consensus_core::step::StepName;
use consensus_core::validation::ValidationHandler;
use consensus_core::vote::Vote;

fn sk_bytes(i: u8) -> Vec<u8> {
    let mut v = vec![0u8; 32];
    v[0] = i;
    v
}

fn pubkey(i: u8) -> Vec<u8> {
    RoundUpdate::new(1, vec![7u8; 48], sk_bytes(i))
        .expect("small scalars are valid secret keys")
        .pubkey_bls()
        .clone()
}

fn committee9() -> Committee {
    let members: Vec<Member> = (1..=9)
        .map(|i| Member { pubkey: pubkey(i), weight: 1 })
        .collect();
    Committee::new(members, Some(pubkey(10))).expect("nine distinct members")
}

fn signed_vote_msg(signer: u8, round: u64, iteration: u8, kind: StepName, vote: Vote) -> Message {
    let header = Header {
        pubkey_bls: pubkey(signer),
        round,
        iteration,
        block_hash: vote.block_hash(),
        topic: Topic::Validation,
    };
    let signature = header
        .sign(&sk_bytes(signer), &pubkey(signer), kind, &vote)
        .expect("valid keys");
    let sign_info = SignInfo { signer: pubkey(signer), signature };
    Message { header, payload: Payload::Validation(ValidationPayload { vote, sign_info }) }
}

/// Aggregates six signatures over (round, iteration, kind, vote) into a
/// quorum-strength step-votes record, through the validation handler.
fn quorum_step_votes(round: u64, iteration: u8, kind: StepName, vote: Vote) -> StepVotes {
    let mut handler = ValidationHandler::new();
    handler.reset(iteration);
    let mut registry = CertInfoRegistry::new();
    let ru = RoundUpdate::new(round, vec![7u8; 48], sk_bytes(10)).expect("valid key");
    let committee = committee9();
    let mut last = None;
    for signer in 1..=6u8 {
        // the handler does not re-check signatures on collect, so it can
        // aggregate signatures of either step kind
        let msg = signed_vote_msg(signer, round, iteration, kind, vote);
        match handler.collect(msg, &ru, &committee, &mut registry) {
            Ok(HandleMsgOutput::Ready(m)) => match m.payload {
                Payload::ValidationResult(vr) => last = Some(vr.sv),
                other => panic!("expected a validation result, got {other:?}"),
            },
            Ok(HandleMsgOutput::Pending) => {}
            Err(e) => panic!("vote must collect: {e:?}"),
        }
    }
    last.expect("six votes reach the threshold of six")
}

fn genesis() -> BlockHeader {
    BlockHeader {
        version: 0,
        height: 0,
        hash: [0x11; 32],
        prev_block_hash: [0u8; 32],
        seed: vec![7u8; 48],
        iteration: 0,
        cert: empty_cert(),
        prev_block_cert: empty_cert(),
        failed_iterations: Vec::new(),
    }
}

fn empty_cert() -> Certificate {
    Certificate { validation: StepVotes::empty(), ratification: StepVotes::empty() }
}

fn candidate(prev: &BlockHeader, cert: Certificate) -> BlockHeader {
    BlockHeader {
        version: 0,
        height: prev.height + 1,
        hash: [0xAA; 32],
        prev_block_hash: prev.hash,
        seed: vec![7u8; 48],
        iteration: 0,
        cert,
        prev_block_cert: empty_cert(),
        failed_iterations: Vec::new(),
    }
}

fn committees_for_iteration(iteration: u8) -> RoundCommittees {
    let mut rc = RoundCommittees::new();
    rc.push_entry(IterationCommittees {
        iteration,
        generator: pubkey(10),
        validation: committee9(),
        ratification: committee9(),
    });
    rc
}

#[test]
fn basic_fields_pass_and_fail() {
    let prev = genesis();
    let good = candidate(&prev, empty_cert());
    assert!(verify_basic_fields(&good, &prev, false).is_ok());

    let mut versioned = good.clone();
    versioned.version = 1;
    assert_eq!(verify_basic_fields(&versioned, &prev, false), Err(HeaderError::UnsupportedVersion));

    let mut empty_hash = good.clone();
    empty_hash.hash = [0u8; 32];
    assert_eq!(verify_basic_fields(&empty_hash, &prev, false), Err(HeaderError::EmptyBlockHash));

    let mut wrong_height = good.clone();
    wrong_height.height = 5;
    assert_eq!(
        verify_basic_fields(&wrong_height, &prev, false),
        Err(HeaderError::InvalidBlockHeight)
    );

    let mut wrong_prev = good.clone();
    wrong_prev.prev_block_hash = [9u8; 32];
    assert_eq!(
        verify_basic_fields(&wrong_prev, &prev, false),
        Err(HeaderError::InvalidPrevBlockHash)
    );

    assert_eq!(verify_basic_fields(&good, &prev, true), Err(HeaderError::BlockAlreadyExists));
}

#[test]
fn winning_cert_with_real_aggregates() {
    let hash = [0xAA; 32];
    let cert = Certificate {
        validation: quorum_step_votes(1, 0, StepName::Validation, Vote::Valid(hash)),
        ratification: quorum_step_votes(1, 0, StepName::Ratification, Vote::Valid(hash)),
    };
    let prev = genesis();
    let block = candidate(&prev, cert);
    let rc = committees_for_iteration(0);
    assert!(verify_winning_cert(&block, &rc).is_ok());

    // a tampered bitset (a signer who never signed) breaks the aggregate
    let mut tampered = block.clone();
    tampered.cert.validation.bitset |= 1 << 7;
    assert_eq!(
        verify_winning_cert(&tampered, &rc),
        Err(HeaderError::InvalidCertValidation),
        "the aggregate only verifies under exactly the signing keys"
    );

    // the same on the ratification side
    let mut tampered_r = block.clone();
    tampered_r.cert.ratification.bitset |= 1 << 7;
    assert_eq!(
        verify_winning_cert(&tampered_r, &rc),
        Err(HeaderError::InvalidCertRatification)
    );

    // a missing iteration entry cannot be checked
    let empty_rc = RoundCommittees::new();
    assert_eq!(verify_winning_cert(&block, &empty_rc), Err(HeaderError::MissingCommittees));
}

#[test]
fn block_cert_quorum_results() {
    let hash = [0xAA; 32];
    let cert = Certificate {
        validation: quorum_step_votes(1, 0, StepName::Validation, Vote::Valid(hash)),
        ratification: quorum_step_votes(1, 0, StepName::Ratification, Vote::Valid(hash)),
    };
    let vc = committee9();
    let rc = committee9();
    let (qv, qr) = verify_block_cert(&vc, &rc, &hash, 1, 0, &cert, true).expect("cert verifies");
    assert_eq!(qv.total, 6);
    assert_eq!(qv.target_quorum, 6);
    assert!(qv.quorum_reached());
    assert!(qr.quorum_reached());
}

#[test]
fn failed_iterations_checked_per_slot() {
    let prev = genesis();
    let rc = committees_for_iteration(0);

    // an empty slot clears the attestation
    let mut with_empty = candidate(&prev, empty_cert());
    with_empty.failed_iterations = vec![None];
    assert_eq!(verify_failed_iterations(&with_empty, &rc), Ok(false));

    // a recorded failed iteration: NoCandidate quorums over the zero hash
    let failed_cert = Certificate {
        validation: quorum_step_votes(1, 0, StepName::Validation, Vote::NoCandidate),
        ratification: quorum_step_votes(1, 0, StepName::Ratification, Vote::NoCandidate),
    };
    let mut with_failed = candidate(&prev, empty_cert());
    with_failed.failed_iterations = vec![Some(IterationCert {
        cert: failed_cert.clone(),
        generator: pubkey(10),
    })];
    assert_eq!(verify_failed_iterations(&with_failed, &rc), Ok(true));

    // the wrong generator is refused
    let mut wrong_generator = with_failed.clone();
    wrong_generator.failed_iterations =
        vec![Some(IterationCert { cert: failed_cert, generator: pubkey(9) })];
    assert_eq!(
        verify_failed_iterations(&wrong_generator, &rc),
        Err(HeaderError::InvalidGenerator)
    );
}

#[test]
fn execute_checks_composes() {
    let hash = [0xAA; 32];
    let cert = Certificate {
        validation: quorum_step_votes(1, 0, StepName::Validation, Vote::Valid(hash)),
        ratification: quorum_step_votes(1, 0, StepName::Ratification, Vote::Valid(hash)),
    };
    let prev = genesis();
    let block = candidate(&prev, cert);
    let rc = committees_for_iteration(0);
    let prev_rc = RoundCommittees::new();

    assert_eq!(execute_checks(&block, &prev, false, &rc, &prev_rc, false), Ok(true));

    // the winner-certificate check can be disabled
    let plain = candidate(&prev, empty_cert());
    assert_eq!(execute_checks(&plain, &prev, false, &rc, &prev_rc, true), Ok(true));
    assert_eq!(
        execute_checks(&plain, &prev, false, &rc, &prev_rc, false),
        Err(HeaderError::InvalidCertValidation)
    );
}
