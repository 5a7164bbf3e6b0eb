//! Ledger-side records: aggregated step votes, certificates, block headers.

use vstd::prelude::*;

verus! {

/// The aggregate BLS signature of one step's agreeing voters, together with
/// the committee bitset that says which members signed. Bit `i` of the bitset
/// stands for the member at position `i` of the step's committee.
#[derive(Debug, Clone, PartialEq, Eq)]
pub struct StepVotes {
    pub bitset: u64,
    pub aggregate_signature: Vec<u8>,
}

impl StepVotes {
    /// An empty record: nobody voted yet.
    pub fn empty() -> (r: StepVotes)
        ensures
            r.bitset == 0,
            r.aggregate_signature@ =~= Seq::<u8>::empty(),
    {
        StepVotes { bitset: 0, aggregate_signature: Vec::new() }
    }

    /// A record from its parts.
    pub fn new(aggregate_signature: Vec<u8>, bitset: u64) -> (r: StepVotes)
        ensures
            r.bitset == bitset,
            r.aggregate_signature@ == aggregate_signature@,
    {
        StepVotes { bitset, aggregate_signature }
    }

    /// A fresh copy.
    pub fn duplicate(&self) -> (r: StepVotes)
        ensures
            r.bitset == self.bitset,
            r.aggregate_signature@ =~= self.aggregate_signature@,
    {
        StepVotes {
            bitset: self.bitset,
            aggregate_signature: crate::bytes_util::copy_bytes(&self.aggregate_signature),
        }
    }
}

/// Same bitset and same aggregate signature bytes.
pub open spec fn spec_sv_eq(a: StepVotes, b: StepVotes) -> bool {
    a.bitset == b.bitset && a.aggregate_signature@ =~= b.aggregate_signature@
}

/// The pair of step-vote records that proves an iteration reached quorum in
/// both of its voting steps.
#[derive(Debug, Clone, PartialEq, Eq)]
pub struct Certificate {
    pub validation: StepVotes,
    pub ratification: StepVotes,
}

/// A certificate of a failed iteration, together with the public key of the
/// generator that led it.
#[derive(Debug, Clone, PartialEq, Eq)]
pub struct IterationCert {
    pub cert: Certificate,
    pub generator: Vec<u8>,
}

/// The header fields of a candidate block that the consensus core reads.
#[derive(Debug, Clone, PartialEq, Eq)]
pub struct BlockHeader {
    pub version: u8,
    pub height: u64,
    pub hash: [u8; 32],
    pub prev_block_hash: [u8; 32],
    pub seed: Vec<u8>,
    pub iteration: u8,
    pub cert: Certificate,
    pub prev_block_cert: Certificate,
    pub failed_iterations: Vec<Option<IterationCert>>,
}

} // verus!
