//! The canonical signing bytes and the step numbering, against exact
//! expected values.

use consensus_core::message::signable_bytes;
use consensus_core::step::{iteration_from_step, step_from_name, step_name_tag, StepName};
use consensus_core::vote::Vote;

// The canonical bytes of a Valid vote: big-endian round, iteration, step
// kind, block hash, vote tag, vote hash.
#[test]
fn signable_bytes_valid_vote() {
    let hash = [0xAA; 32];
    let bytes = signable_bytes(0x0102030405060708, 2, StepName::Validation, &hash, &Vote::Valid(hash));
    let mut expected = vec![0x01, 0x02, 0x03, 0x04, 0x05, 0x06, 0x07, 0x08];
    expected.push(2); // iteration
    expected.push(1); // step kind: Validation
    expected.extend_from_slice(&[0xAA; 32]);
    expected.push(0); // vote tag: Valid
    expected.extend_from_slice(&[0xAA; 32]);
    assert_eq!(bytes, expected);
    assert_eq!(bytes.len(), 75);
}

// Votes without a candidate carry no vote-hash payload.
#[test]
fn signable_bytes_no_candidate() {
    let hash = [0u8; 32];
    let bytes = signable_bytes(7, 0, StepName::Ratification, &hash, &Vote::NoCandidate);
    let mut expected = vec![0, 0, 0, 0, 0, 0, 0, 7];
    expected.push(0); // iteration
    expected.push(2); // step kind: Ratification
    expected.extend_from_slice(&[0u8; 32]);
    expected.push(2); // vote tag: NoCandidate
    assert_eq!(bytes, expected);
    assert_eq!(bytes.len(), 43);
}

// The four vote tags, and the payload rule: Invalid carries its hash,
// NoQuorum does not.
#[test]
fn signable_bytes_vote_tags() {
    let hash = [3u8; 32];
    let invalid = signable_bytes(0, 0, StepName::Validation, &hash, &Vote::Invalid(hash));
    assert_eq!(invalid[42], 1);
    assert_eq!(invalid.len(), 75);
    let noq = signable_bytes(0, 0, StepName::Validation, &hash, &Vote::NoQuorum);
    assert_eq!(noq[42], 3);
    assert_eq!(noq.len(), 43);
}

// step = iteration * 3 + kind, and the iteration is recovered from it.
#[test]
fn step_encoding_round_trip() {
    assert_eq!(step_name_tag(StepName::Proposal), 0);
    assert_eq!(step_name_tag(StepName::Validation), 1);
    assert_eq!(step_name_tag(StepName::Ratification), 2);
    assert_eq!(step_from_name(0, StepName::Proposal), 0);
    assert_eq!(step_from_name(0, StepName::Validation), 1);
    assert_eq!(step_from_name(0, StepName::Ratification), 2);
    assert_eq!(step_from_name(7, StepName::Validation), 22);
    assert_eq!(step_from_name(84, StepName::Ratification), 254);
    for iteration in 0..=84u8 {
        for kind in [StepName::Proposal, StepName::Validation, StepName::Ratification] {
            assert_eq!(iteration_from_step(step_from_name(iteration, kind)), iteration);
        }
    }
}
