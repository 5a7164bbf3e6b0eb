//! Votes cast in the Validation and Ratification steps, and the quorum kinds
//! that terminate an iteration.

use vstd::prelude::*;

use crate::bytes_util::{hash_eq, zero_hash};

verus! {

/// A vote over a candidate block: for it, against it, or reporting that no
/// candidate (or no quorum) was seen.
#[derive(Clone, Copy, Debug, PartialEq, Eq)]
pub enum Vote {
    Valid([u8; 32]),
    Invalid([u8; 32]),
    NoCandidate,
    NoQuorum,
}

/// The kind of quorum an iteration terminated with.
#[derive(Clone, Copy, Debug, PartialEq, Eq, Structural)]
pub enum QuorumType {
    Valid,
    Invalid,
    NoCandidate,
    NoQuorum,
    NilQuorum,
}

/// The wire tag of a vote.
pub open spec fn spec_vote_tag(v: Vote) -> int {
    match v {
        Vote::Valid(_) => 0,
        Vote::Invalid(_) => 1,
        Vote::NoCandidate => 2,
        Vote::NoQuorum => 3,
    }
}

/// The block hash a vote speaks of; all zeroes when it names no candidate.
pub open spec fn spec_vote_hash(v: Vote) -> Seq<u8> {
    match v {
        Vote::Valid(h) => h@,
        Vote::Invalid(h) => h@,
        Vote::NoCandidate => zero_hash(),
        Vote::NoQuorum => zero_hash(),
    }
}

/// The quorum kind that a winning vote of that kind establishes.
pub open spec fn spec_quorum_of_vote(v: Vote) -> QuorumType {
    match v {
        Vote::Valid(_) => QuorumType::Valid,
        Vote::Invalid(_) => QuorumType::Invalid,
        Vote::NoCandidate => QuorumType::NoCandidate,
        Vote::NoQuorum => QuorumType::NoQuorum,
    }
}

/// Two votes are the same kind over the same hash.
pub open spec fn spec_vote_eq(a: Vote, b: Vote) -> bool {
    spec_vote_tag(a) == spec_vote_tag(b) && spec_vote_hash(a) =~= spec_vote_hash(b)
}

impl Vote {
    /// The wire tag of this vote.
    pub fn tag(&self) -> (r: u8)
        ensures
            r == spec_vote_tag(*self),
    {
        match self {
            Vote::Valid(_) => 0,
            Vote::Invalid(_) => 1,
            Vote::NoCandidate => 2,
            Vote::NoQuorum => 3,
        }
    }

    /// The block hash this vote speaks of.
    pub fn block_hash(&self) -> (r: [u8; 32])
        ensures
            r@ =~= spec_vote_hash(*self),
    {
        match self {
            Vote::Valid(h) => *h,
            Vote::Invalid(h) => *h,
            Vote::NoCandidate => [0u8; 32],
            Vote::NoQuorum => [0u8; 32],
        }
    }

    /// Whether this vote carries the payload of its hash in signed bytes.
    pub open spec fn has_hash_payload(&self) -> bool {
        self matches Vote::Valid(_) || self matches Vote::Invalid(_)
    }
}

/// Same vote kind over the same hash.
pub fn vote_eq(a: &Vote, b: &Vote) -> (r: bool)
    ensures
        r == spec_vote_eq(*a, *b),
{
    match (a, b) {
        (Vote::Valid(x), Vote::Valid(y)) => hash_eq(x, y),
        (Vote::Invalid(x), Vote::Invalid(y)) => hash_eq(x, y),
        (Vote::NoCandidate, Vote::NoCandidate) => true,
        (Vote::NoQuorum, Vote::NoQuorum) => true,
        _ => false,
    }
}

} // verus!
