//! Committee construction rules, the quorum threshold, and the crossing of
//! the threshold under unequal voting weights.

use consensus_core::committee::{Committee, Member};
use consensus_core::message::{HandleMsgOutput, Header, Message, Payload, SignInfo, Topic, ValidationPayload};
use consensus_core::registry::CertInfoRegistry;
use consensus_core::round::RoundUpdate;
use consensus_core::step::StepName;
use consensus_core::validation::ValidationHandler;
use consensus_core::vote::Vote;

fn sk_bytes(i: u8) -> Vec<u8> {
    let mut v = vec![0u8; 32];
    v[0] = i;
    v
}

fn pubkey(i: u8) -> Vec<u8> {
    RoundUpdate::new(1, vec![7u8; 48], sk_bytes(i))
        .expect("small scalars are valid secret keys")
        .pubkey_bls()
        .clone()
}

fn members(weights: &[u64]) -> Vec<Member> {
    weights
        .iter()
        .enumerate()
        .map(|(i, w)| Member { pubkey: pubkey(i as u8 + 1), weight: *w })
        .collect()
}

#[test]
fn threshold_is_two_thirds_rounded_up() {
    let c = Committee::new(members(&[1; 9]), None).unwrap();
    assert_eq!(c.total_weight, 9);
    assert_eq!(c.quorum_threshold, 6);

    let c = Committee::new(members(&[1]), None).unwrap();
    assert_eq!(c.quorum_threshold, 1);

    let c = Committee::new(members(&[4, 3, 3]), None).unwrap();
    assert_eq!(c.total_weight, 10);
    assert_eq!(c.quorum_threshold, 7);
}

#[test]
fn malformed_member_lists_refused() {
    assert!(Committee::new(Vec::new(), None).is_none(), "an empty committee has no weight");
    assert!(
        Committee::new(members(&[1, 0, 1]), None).is_none(),
        "every member needs a positive weight"
    );
    let mut dup = members(&[1, 1]);
    dup[1].pubkey = dup[0].pubkey.clone();
    assert!(Committee::new(dup, None).is_none(), "keys must be distinct");
    let gen_inside = members(&[1, 1]);
    assert!(
        Committee::new(gen_inside, Some(pubkey(1))).is_none(),
        "the generator is excluded from its committees"
    );
    assert!(Committee::new(members(&[1, 1]), Some(pubkey(10))).is_some());
}

// A committee holds at most 64 members: one bitset bit each.
#[test]
fn committee_size_capped_at_64() {
    let sixty_four: Vec<Member> = (1..=64)
        .map(|i| Member { pubkey: pubkey(i), weight: 1 })
        .collect();
    let c = Committee::new(sixty_four, None).expect("sixty-four members fit the bitset");
    assert_eq!(c.total_weight, 64);
    assert_eq!(c.quorum_threshold, 43);

    let sixty_five: Vec<Member> = (1..=65)
        .map(|i| Member { pubkey: pubkey(i), weight: 1 })
        .collect();
    assert!(Committee::new(sixty_five, None).is_none());
}

#[test]
fn member_positions() {
    let c = Committee::new(members(&[1, 2, 3]), None).unwrap();
    assert_eq!(c.size(), 3);
    assert_eq!(c.position(&pubkey(2)), Some(1));
    assert_eq!(c.position(&pubkey(9)), None);
}

fn validation_msg(signer: u8, vote: Vote) -> Message {
    let header = Header {
        pubkey_bls: pubkey(signer),
        round: 1,
        iteration: 0,
        block_hash: vote.block_hash(),
        topic: Topic::Validation,
    };
    let signature = header
        .sign(&sk_bytes(signer), &pubkey(signer), StepName::Validation, &vote)
        .expect("valid keys");
    let sign_info = SignInfo { signer: pubkey(signer), signature };
    Message { header, payload: Payload::Validation(ValidationPayload { vote, sign_info }) }
}

// With weights (4, 3, 2) the threshold is 6; the flag comes on the single
// call whose vote first reaches it — here the second — and never again.
#[test]
fn weighted_quorum_crosses_once() {
    let committee = Committee::new(members(&[4, 3, 2]), Some(pubkey(10))).unwrap();
    assert_eq!(committee.quorum_threshold, 6);
    let mut handler = ValidationHandler::new();
    let mut registry = CertInfoRegistry::new();
    let ru = RoundUpdate::new(1, vec![7u8; 48], sk_bytes(10)).unwrap();
    let hash = [0xAA; 32];

    let out = handler
        .collect(validation_msg(1, Vote::Valid(hash)), &ru, &committee, &mut registry)
        .unwrap();
    assert!(matches!(out, HandleMsgOutput::Pending), "weight 4 stays under 6");
    let out = handler
        .collect(validation_msg(2, Vote::Valid(hash)), &ru, &committee, &mut registry)
        .unwrap();
    assert!(matches!(out, HandleMsgOutput::Ready(_)), "weight 7 crosses 6");
    let out = handler
        .collect(validation_msg(3, Vote::Valid(hash)), &ru, &committee, &mut registry)
        .unwrap();
    assert!(
        matches!(out, HandleMsgOutput::Pending),
        "a late vote still lands in the record but never re-announces the quorum"
    );
}
