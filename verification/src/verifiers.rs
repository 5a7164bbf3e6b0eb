//! Verification of aggregated step votes against a committee: reconstructs
//! the signers from the bitset, checks their summed weight against the
//! quorum threshold, and verifies the aggregate BLS signature over the
//! canonical message bytes.

use vstd::prelude::*;

use crate::bitset::{has_bit, test_bit};
use crate::bls;
use crate::bytes_util::copy_bytes;
use crate::committee::{
    lemma_sum_all_take_prefix, lemma_sum_weights_bounds, sum_weights, Committee, Member,
};
use crate::error::ConsensusError;
use crate::message::{signable_bytes, spec_signable_bytes};
use crate::step::StepName;
use crate::vote::Vote;

verus! {

/// The summed weight reached by a vote set, against the threshold it had to
/// reach.
#[derive(Clone, Copy, Debug, PartialEq, Eq, Structural)]
pub struct QuorumResult {
    pub total: u64,
    pub target_quorum: u64,
}

impl QuorumResult {
    /// Whether the summed weight reaches the threshold.
    pub fn quorum_reached(&self) -> (r: bool)
        ensures
            r == (self.total >= self.target_quorum),
    {
        self.total >= self.target_quorum
    }
}

/// Every set bit points below the committee size.
pub open spec fn spec_bits_in_range(bs: u64, len: int) -> bool {
    forall|j: int| #[trigger] has_bit(bs, j) ==> j < len
}

/// The keys of the members selected by the bitset, in committee order,
/// up to position `i`.
pub open spec fn spec_keys_up_to(ms: Seq<Member>, bs: u64, i: int) -> Seq<Seq<u8>>
    decreases i,
{
    if i <= 0 {
        Seq::empty()
    } else {
        spec_keys_up_to(ms, bs, i - 1) + if has_bit(bs, i - 1) {
            seq![ms[i - 1].pubkey@]
        } else {
            Seq::empty()
        }
    }
}

/// The keys of all members selected by the bitset, in committee order.
pub open spec fn spec_signer_keys(ms: Seq<Member>, bs: u64) -> Seq<Seq<u8>> {
    spec_keys_up_to(ms, bs, ms.len() as int)
}

/// Whether a vote set passes verification: bits point at members, the
/// summed weight reaches the threshold (when the check is on), and the
/// aggregate signature verifies under the selected keys over the canonical
/// bytes.
pub open spec fn spec_votes_ok(
    block_hash: Seq<u8>,
    bitset: u64,
    signature: Seq<u8>,
    c: Committee,
    round: u64,
    iteration: u8,
    kind: StepName,
    vote: Vote,
    enable_quorum_check: bool,
) -> bool {
    &&& spec_bits_in_range(bitset, c.members@.len() as int)
    &&& (enable_quorum_check ==> sum_weights(c.members@, bitset) >= c.quorum_threshold)
    &&& bls::bls_accepts(
        spec_signer_keys(c.members@, bitset),
        spec_signable_bytes(round, iteration, kind, block_hash, vote),
        signature,
    )
}

/// Verifies an aggregated vote set.
///
/// Fails with `InvalidValidation` exactly when a bit points outside the
/// committee or (with the check on) the summed weight stays under the
/// threshold, and with `InvalidSignature` exactly when only the aggregate
/// signature refuses.
pub fn verify_votes(
    block_hash: &[u8; 32],
    bitset: u64,
    signature: &Vec<u8>,
    committee: &Committee,
    round: u64,
    iteration: u8,
    kind: StepName,
    vote: &Vote,
    enable_quorum_check: bool,
) -> (r: Result<QuorumResult, ConsensusError>)
    requires
        committee.wf(),
    ensures
        (r is Ok) == spec_votes_ok(
            block_hash@,
            bitset,
            signature@,
            *committee,
            round,
            iteration,
            kind,
            *vote,
            enable_quorum_check,
        ),
        r matches Ok(q) ==> q.total == sum_weights(committee.members@, bitset) && q.target_quorum
            == committee.quorum_threshold,
        (r matches Err(e) && e == ConsensusError::InvalidValidation) <==> !(spec_bits_in_range(
            bitset,
            committee.members@.len() as int,
        ) && (enable_quorum_check ==> sum_weights(committee.members@, bitset)
            >= committee.quorum_threshold)),
{
    let n = committee.members.len();
    let ghost ms = committee.members@;
    // no bit may point past the committee
    let mut j: usize = n;
    while j < 64
        invariant
            n == committee.members@.len(),
            n <= 64,
            n <= j <= 64,
            forall|k: int| n <= k < j ==> !has_bit(bitset, k),
        decreases 64 - j,
    {
        if test_bit(bitset, j) {
            return Err(ConsensusError::InvalidValidation);
        }
        j += 1;
    }
    proof {
        assert forall|k: int| #[trigger] has_bit(bitset, k) implies k < n as int by {
            if k >= 64 {
                assert(!has_bit(bitset, k));
            }
        }
    }
    // reconstruct the signers and their summed weight
    let mut keys: Vec<Vec<u8>> = Vec::new();
    let mut wsum: u64 = 0;
    let mut i: usize = 0;
    while i < n
        invariant
            committee.wf(),
            ms == committee.members@,
            n == ms.len(),
            i <= n,
            keys@.map_values(|p: Vec<u8>| p@) =~= spec_keys_up_to(ms, bitset, i as int),
            wsum == sum_weights(ms.take(i as int), bitset),
            wsum <= 0x7fff_ffff_ffff_fffe,
        decreases n - i,
    {
        proof {
            assert(ms.take(i + 1).drop_last() =~= ms.take(i as int));
            lemma_sum_weights_bounds(ms.take(i + 1), bitset);
            lemma_sum_all_take_prefix(ms, i + 1);
        }
        if test_bit(bitset, i) {
            let ghost keys_old = keys@;
            keys.push(copy_bytes(&committee.members[i].pubkey));
            wsum = wsum + committee.members[i].weight;
            proof {
                assert(keys@.map_values(|p: Vec<u8>| p@) =~= keys_old.map_values(
                    |p: Vec<u8>| p@,
                ).push(keys@[keys@.len() - 1]@));
            }
        }
        i += 1;
    }
    proof {
        assert(ms.take(n as int) =~= ms);
    }
    if enable_quorum_check && wsum < committee.quorum_threshold {
        return Err(ConsensusError::InvalidValidation);
    }
    let msg = signable_bytes(round, iteration, kind, block_hash, vote);
    if !bls::verify_aggregate(&keys, &msg, signature) {
        return Err(ConsensusError::InvalidSignature);
    }
    Ok(QuorumResult { total: wsum, target_quorum: committee.quorum_threshold })
}

} // verus!
