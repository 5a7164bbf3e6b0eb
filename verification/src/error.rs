//! Errors the consensus message handlers distinguish.

use vstd::prelude::*;

use crate::vote::Vote;

verus! {

/// Why a consensus message was rejected.
///
/// `InvalidMsgIteration` is a routing hint: the round driver re-routes such a
/// message to `collect_from_past` instead of dropping the peer.
#[derive(Clone, Copy, Debug, PartialEq, Eq)]
pub enum ConsensusError {
    InvalidMsgType,
    InvalidSignature,
    InvalidVote(Vote),
    InvalidMsgIteration(u8),
    VoteAlreadyCollected,
    InvalidValidation,
}

} // verus!
