//! Per-handler vote accumulator: deduplicates votes, checks committee
//! membership, aggregates BLS signatures, and reports the single call on
//! which a bucket's accumulated weight first reaches the quorum threshold.

use vstd::prelude::*;

use crate::bitset::{has_bit, lemma_zero_bitset, set_bit, test_bit};
use crate::bls;
use crate::bytes_util::{bytes_eq, copy_bytes};
use crate::committee::{
    lemma_sum_weights_bounds, lemma_sum_weights_set_bit, sum_all, sum_weights, Committee, Member,
};
use crate::ledger::StepVotes;
use crate::message::SignInfo;
use crate::vote::{spec_vote_eq, vote_eq, Vote};

verus! {

/// Why the aggregator refused a vote.
#[derive(Clone, Copy, Debug, PartialEq, Eq, Structural)]
pub enum AggregatorError {
    NotCommitteeMember,
    DuplicatedVote,
    BadSignatureBytes,
}

/// One bucket of agreeing votes: everyone who cast `vote` in `step`.
#[derive(Debug)]
pub struct AggregateEntry {
    pub step: u8,
    pub vote: Vote,
    pub bitset: u64,
    pub weight: u64,
    pub aggregate_signature: Vec<u8>,
    pub signers: Vec<Vec<u8>>,
}

/// Whether a bucket accumulates votes of this step and kind.
pub open spec fn entry_matches(e: AggregateEntry, step: u8, vote: Vote) -> bool {
    e.step == step && spec_vote_eq(e.vote, vote)
}

/// The first bucket for (step, vote), if any.
pub open spec fn spec_entry_for(s: Seq<AggregateEntry>, step: u8, vote: Vote) -> Option<
    AggregateEntry,
>
    decreases s.len(),
{
    if s.len() == 0 {
        None
    } else if entry_matches(s[0], step, vote) {
        Some(s[0])
    } else {
        spec_entry_for(s.drop_first(), step, vote)
    }
}

/// The bucket's bitset, or the empty bitset where no bucket exists yet.
pub open spec fn spec_bucket_bitset(s: Seq<AggregateEntry>, step: u8, vote: Vote) -> u64 {
    match spec_entry_for(s, step, vote) {
        Some(e) => e.bitset,
        None => 0u64,
    }
}

/// Whether the list of signers holds these key bytes.
pub open spec fn signers_contain(s: Seq<Vec<u8>>, pk: Seq<u8>) -> bool {
    exists|k: int| 0 <= k < s.len() && (#[trigger] s[k])@ == pk
}

/// Whether some set bit points at a committee member with these key bytes.
pub open spec fn bit_for_key(c: Committee, bs: u64, pk: Seq<u8>) -> bool {
    exists|j: int| #[trigger] has_bit(bs, j) && j < c.members@.len() && c.members@[j].pubkey@ == pk
}

/// Whether these key bytes belong to a committee member.
pub open spec fn spec_is_member(c: Committee, pk: Seq<u8>) -> bool {
    exists|i: int| 0 <= i < c.members@.len() && (#[trigger] c.members@[i]).pubkey@ == pk
}

/// Whether `collect_vote` accepts this vote over the given state: the signer
/// is a member whose bit is not yet set, and where a bucket already holds an
/// aggregate, both signature byte strings deserialize.
pub open spec fn spec_collect_accepts(
    aggr: Aggregator,
    c: Committee,
    signer: Seq<u8>,
    sig: Seq<u8>,
    vote: Vote,
    step: u8,
) -> bool {
    &&& spec_is_member(c, signer)
    &&& forall|i: int|
        0 <= i < c.members@.len() && (#[trigger] c.members@[i]).pubkey@ == signer ==> !has_bit(
            spec_bucket_bitset(aggr.entries@, step, vote),
            i,
        )
    &&& match spec_entry_for(aggr.entries@, step, vote) {
        Some(e) => bls::sig_parses(e.aggregate_signature@) && bls::sig_parses(sig),
        None => true,
    }
}

/// A bucket is sound for a committee: its bits point at members, its weight
/// is the summed weight of the set bits, and its signer list holds exactly
/// the keys of the set bits.
pub open spec fn entry_consistent(e: AggregateEntry, c: Committee) -> bool {
    &&& forall|j: int| #[trigger] has_bit(e.bitset, j) ==> j < c.members@.len()
    &&& e.weight == sum_weights(c.members@, e.bitset)
    &&& forall|j: int| #[trigger] has_bit(e.bitset, j) && j < c.members@.len()
        ==> signers_contain(e.signers@, c.members@[j].pubkey@)
    &&& forall|k: int| 0 <= k < e.signers@.len() ==> bit_for_key(
        c,
        e.bitset,
        (#[trigger] e.signers@[k])@,
    )
}

/// The per-handler accumulator of votes.
#[derive(Debug)]
pub struct Aggregator {
    pub entries: Vec<AggregateEntry>,
}

impl Aggregator {
    /// Every bucket of this step is sound for the step's committee.
    pub open spec fn consistent_with(&self, c: Committee, step: u8) -> bool {
        forall|i: int| 0 <= i < self.entries@.len() && (#[trigger] self.entries@[i]).step == step
            ==> entry_consistent(self.entries@[i], c)
    }

    /// Whether this signer's vote already sits in the (step, vote) bucket.
    pub open spec fn spec_is_collected(&self, signer: Seq<u8>, vote: Vote, step: u8) -> bool {
        match spec_entry_for(self.entries@, step, vote) {
            Some(e) => signers_contain(e.signers@, signer),
            None => false,
        }
    }

    /// A fresh, empty accumulator.
    pub fn new() -> (r: Aggregator)
        ensures
            r.entries@.len() == 0,
            forall|c: Committee, step: u8| r.consistent_with(c, step),
            forall|signer: Seq<u8>, vote: Vote, step: u8| !r.spec_is_collected(signer, vote, step),
    {
        Aggregator { entries: Vec::new() }
    }

    /// Finds the first bucket of (step, vote), pinning the spec lookup.
    fn find_entry(&self, step: u8, vote: &Vote) -> (r: Option<usize>)
        ensures
            r matches Some(i) ==> i < self.entries@.len() && entry_matches(
                self.entries@[i as int],
                step,
                *vote,
            ) && spec_entry_for(self.entries@, step, *vote) == Some(self.entries@[i as int])
                && forall|j: int| 0 <= j < i ==> !entry_matches(self.entries@[j], step, *vote),
            r is None ==> spec_entry_for(self.entries@, step, *vote) is None,
    {
        let n = self.entries.len();
        let mut i: usize = 0;
        while i < n
            invariant
                n == self.entries@.len(),
                i <= n,
                forall|j: int| 0 <= j < i ==> !entry_matches(self.entries@[j], step, *vote),
            decreases n - i,
        {
            if self.entries[i].step == step && vote_eq(&self.entries[i].vote, vote) {
                proof {
                    lemma_entry_first_match(self.entries@, step, *vote, i as int);
                }
                return Some(i);
            }
            i += 1;
        }
        proof {
            lemma_entry_no_match(self.entries@, step, *vote);
        }
        None
    }

    /// True iff a vote with the same signer, vote and step was already
    /// accepted.
    pub fn is_vote_collected(&self, sign_info: &SignInfo, vote: &Vote, step: u8) -> (r: bool)
        ensures
            r == self.spec_is_collected(sign_info.signer@, *vote, step),
    {
        match self.find_entry(step, vote) {
            Some(i) => {
                let signers = &self.entries[i].signers;
                let n = signers.len();
                let mut k: usize = 0;
                while k < n
                    invariant
                        i < self.entries@.len(),
                        signers@ == self.entries@[i as int].signers@,
                        spec_entry_for(self.entries@, step, *vote) == Some(
                            self.entries@[i as int],
                        ),
                        n == signers@.len(),
                        k <= n,
                        forall|m: int| 0 <= m < k ==> (#[trigger] signers@[m])@
                            != sign_info.signer@,
                    decreases n - k,
                {
                    if bytes_eq(&signers[k], &sign_info.signer) {
                        proof {
                            assert((self.entries@[i as int].signers@[k as int])@
                                == sign_info.signer@);
                        }
                        return true;
                    }
                    k += 1;
                }
                false
            },
            None => false,
        }
    }

    /// Accepts one vote: checks membership and freshness, folds the signature
    /// into the (step, vote) bucket, and reports the running record together
    /// with whether this very call made the bucket's weight reach the quorum
    /// threshold.
    ///
    /// The flag is latched by construction: the accumulated weight only
    /// grows, so for each bucket the crossing happens on at most one call.
    pub fn collect_vote(
        &mut self,
        committee: &Committee,
        sign_info: &SignInfo,
        vote: &Vote,
        step: u8,
    ) -> (r: Result<(StepVotes, bool), AggregatorError>)
        requires
            committee.wf(),
            old(self).consistent_with(*committee, step),
        ensures
            final(self).consistent_with(*committee, step),
            r is Err ==> *final(self) == *old(self),
            (r matches Err(e) && e == AggregatorError::NotCommitteeMember) <==> !spec_is_member(
                *committee,
                sign_info.signer@,
            ),
            (r matches Err(e) && e == AggregatorError::DuplicatedVote) <==> (spec_is_member(
                *committee,
                sign_info.signer@,
            ) && forall|i: int|
                0 <= i < committee.members@.len() && (#[trigger] committee.members@[i]).pubkey@
                    == sign_info.signer@ ==> has_bit(
                    spec_bucket_bitset(old(self).entries@, step, *vote),
                    i,
                )),
            r is Ok ==> spec_is_member(*committee, sign_info.signer@),
            r matches Ok(out) ==> forall|i: int|
                0 <= i < committee.members@.len() && (#[trigger] committee.members@[i]).pubkey@
                    == sign_info.signer@ ==> {
                    let old_bs = spec_bucket_bitset(old(self).entries@, step, *vote);
                    let old_w = sum_weights(committee.members@, old_bs);
                    let new_w = sum_weights(committee.members@, out.0.bitset);
                    &&& !has_bit(old_bs, i)
                    &&& forall|j: int|
                        0 <= j < 64 ==> has_bit(out.0.bitset, j) == (j == i || has_bit(old_bs, j))
                    &&& new_w == old_w + committee.members@[i].weight
                    &&& out.1 == (old_w < committee.quorum_threshold && new_w
                        >= committee.quorum_threshold)
                    &&& new_w <= committee.total_weight
                },
            r matches Ok(out) ==> (spec_entry_for(final(self).entries@, step, *vote) matches Some(
                e2,
            ) && e2.bitset == out.0.bitset && e2.weight == sum_weights(
                committee.members@,
                out.0.bitset,
            ) && e2.aggregate_signature@ == out.0.aggregate_signature@ && signers_contain(
                e2.signers@,
                sign_info.signer@,
            )),
            r matches Ok(out) ==> match spec_entry_for(old(self).entries@, step, *vote) {
                Some(e) => out.0.aggregate_signature@ == bls::bls_agg(
                    e.aggregate_signature@,
                    sign_info.signature@,
                ),
                None => out.0.aggregate_signature@ == sign_info.signature@,
            },
            r matches Ok(out) ==> final(self).spec_is_collected(sign_info.signer@, *vote, step),
            r matches Ok(out) ==> (spec_entry_for(old(self).entries@, step, *vote) is Some
                ==> bls::sig_parses(out.0.aggregate_signature@)),
            (r is Ok) == spec_collect_accepts(
                *old(self),
                *committee,
                sign_info.signer@,
                sign_info.signature@,
                *vote,
                step,
            ),
            forall|step2: u8, vote2: Vote|
                !(step2 == step && spec_vote_eq(vote2, *vote)) ==> spec_entry_for(
                    final(self).entries@,
                    step2,
                    vote2,
                ) == spec_entry_for(old(self).entries@, step2, vote2),
    {
        let idx = match committee.position(&sign_info.signer) {
            Some(i) => i,
            None => {
                return Err(AggregatorError::NotCommitteeMember);
            },
        };
        proof {
            assert(spec_is_member(*committee, sign_info.signer@));
        }
        let ghost members = committee.members@;
        match self.find_entry(step, vote) {
            Some(ei) => {
                let ghost old_e = self.entries@[ei as int];
                proof {
                    assert(entry_consistent(old_e, *committee));
                }
                if test_bit(self.entries[ei].bitset, idx) {
                    proof {
                        lemma_member_index_unique(*committee, sign_info.signer@, idx as int);
                    }
                    return Err(AggregatorError::DuplicatedVote);
                }
                let new_sig = match bls::aggregate_signature(
                    &self.entries[ei].aggregate_signature,
                    &sign_info.signature,
                ) {
                    Some(s) => s,
                    None => {
                        return Err(AggregatorError::BadSignatureBytes);
                    },
                };
                let new_bs = set_bit(self.entries[ei].bitset, idx);
                let w = committee.members[idx].weight;
                proof {
                    lemma_sum_weights_set_bit(members, old_e.bitset, new_bs, idx as int);
                    lemma_sum_weights_bounds(members, new_bs);
                }
                let new_weight = self.entries[ei].weight + w;
                let old_weight = self.entries[ei].weight;
                let sv_sig = copy_bytes(&new_sig);
                let signer_copy = copy_bytes(&sign_info.signer);
                let e = &mut self.entries[ei];
                e.bitset = new_bs;
                e.weight = new_weight;
                e.aggregate_signature = new_sig;
                e.signers.push(signer_copy);
                let reached = old_weight < committee.quorum_threshold && new_weight
                    >= committee.quorum_threshold;
                proof {
                    let s2 = self.entries@;
                    let e2 = s2[ei as int];
                    lemma_entry_update_match(old(self).entries@, s2, step, *vote, ei as int);
                    assert(entry_consistent(e2, *committee)) by {
                        assert forall|j: int| #[trigger] has_bit(e2.bitset, j) && j
                            < members.len() implies signers_contain(
                            e2.signers@,
                            members[j].pubkey@,
                        ) by {
                            if j == idx as int {
                                assert(e2.signers@[e2.signers@.len() - 1]@ == sign_info.signer@);
                            } else {
                                assert(signers_contain(old_e.signers@, members[j].pubkey@));
                                let k = choose|k: int|
                                    0 <= k < old_e.signers@.len() && (#[trigger] old_e.signers@[k])@
                                        == members[j].pubkey@;
                                assert(e2.signers@[k]@ == members[j].pubkey@);
                            }
                        }
                        assert forall|k: int| 0 <= k < e2.signers@.len() implies bit_for_key(
                            *committee,
                            e2.bitset,
                            (#[trigger] e2.signers@[k])@,
                        ) by {
                            if k < old_e.signers@.len() {
                                assert(bit_for_key(*committee, old_e.bitset, old_e.signers@[k]@));
                                let j = choose|j: int|
                                    #[trigger] has_bit(old_e.bitset, j) && j < members.len()
                                        && members[j].pubkey@ == old_e.signers@[k]@;
                                assert(has_bit(e2.bitset, j));
                            } else {
                                assert(e2.signers@[k]@ == sign_info.signer@);
                                assert(has_bit(e2.bitset, idx as int));
                            }
                        }
                    }
                    assert forall|i2: int|
                        0 <= i2 < s2.len() && (#[trigger] s2[i2]).step == step implies
                        entry_consistent(s2[i2], *committee) by {
                        if i2 != ei as int {
                            assert(s2[i2] == old(self).entries@[i2]);
                        }
                    }
                    lemma_member_index_unique(*committee, sign_info.signer@, idx as int);
                    assert forall|step2: u8, vote2: Vote|
                        !(step2 == step && spec_vote_eq(vote2, *vote)) implies spec_entry_for(
                        s2,
                        step2,
                        vote2,
                    ) == spec_entry_for(old(self).entries@, step2, vote2) by {
                        lemma_entry_for_update_other(
                            old(self).entries@,
                            s2,
                            ei as int,
                            step2,
                            vote2,
                        );
                    }
                }
                Ok((StepVotes { bitset: new_bs, aggregate_signature: sv_sig }, reached))
            },
            None => {
                proof {
                    lemma_zero_bitset();
                    lemma_sum_weights_none(members, 0u64);
                }
                let new_bs = set_bit(0u64, idx);
                let w = committee.members[idx].weight;
                proof {
                    lemma_sum_weights_set_bit(members, 0u64, new_bs, idx as int);
                    lemma_sum_weights_bounds(members, new_bs);
                }
                let sig = copy_bytes(&sign_info.signature);
                let sv_sig = copy_bytes(&sign_info.signature);
                let mut signers: Vec<Vec<u8>> = Vec::new();
                signers.push(copy_bytes(&sign_info.signer));
                let entry = AggregateEntry {
                    step,
                    vote: *vote,
                    bitset: new_bs,
                    weight: w,
                    aggregate_signature: sig,
                    signers,
                };
                let ghost entry_g = entry;
                self.entries.push(entry);
                let reached = 0 < committee.quorum_threshold && w >= committee.quorum_threshold;
                proof {
                    let s2 = self.entries@;
                    lemma_entry_push_fresh(old(self).entries@, entry_g, step, *vote);
                    assert(entry_consistent(entry_g, *committee)) by {
                        assert forall|j: int| #[trigger] has_bit(entry_g.bitset, j) && j
                            < members.len() implies signers_contain(
                            entry_g.signers@,
                            members[j].pubkey@,
                        ) by {
                            assert(j == idx as int);
                            assert(entry_g.signers@[0]@ == sign_info.signer@);
                        }
                        assert forall|k: int| 0 <= k < entry_g.signers@.len() implies bit_for_key(
                            *committee,
                            entry_g.bitset,
                            (#[trigger] entry_g.signers@[k])@,
                        ) by {
                            assert(has_bit(entry_g.bitset, idx as int));
                        }
                    }
                    assert forall|i2: int|
                        0 <= i2 < s2.len() && (#[trigger] s2[i2]).step == step implies
                        entry_consistent(s2[i2], *committee) by {
                        if i2 < s2.len() - 1 {
                            assert(s2[i2] == old(self).entries@[i2]);
                        } else {
                            assert(s2[i2] == entry_g);
                        }
                    }
                    lemma_member_index_unique(*committee, sign_info.signer@, idx as int);
                    assert(sum_weights(members, 0u64) == 0);
                    assert forall|step2: u8, vote2: Vote|
                        !(step2 == step && spec_vote_eq(vote2, *vote)) implies spec_entry_for(
                        s2,
                        step2,
                        vote2,
                    ) == spec_entry_for(old(self).entries@, step2, vote2) by {
                        lemma_entry_for_push_other(old(self).entries@, entry_g, step2, vote2);
                    }
                }
                Ok((StepVotes { bitset: new_bs, aggregate_signature: sv_sig }, reached))
            },
        }
    }
}

/// In a well-formed committee a key sits at one position only.
proof fn lemma_member_index_unique(c: Committee, pk: Seq<u8>, idx: int)
    requires
        c.wf(),
        0 <= idx < c.members@.len(),
        c.members@[idx].pubkey@ == pk,
    ensures
        forall|i: int| 0 <= i < c.members@.len() && (#[trigger] c.members@[i]).pubkey@ == pk ==> i
            == idx,
{
}

/// A bitset with no set bit below the length selects nothing.
proof fn lemma_sum_weights_none(ms: Seq<crate::committee::Member>, bs: u64)
    requires
        forall|j: int| 0 <= j < ms.len() ==> !has_bit(bs, j),
    ensures
        sum_weights(ms, bs) == 0,
    decreases ms.len(),
{
    if ms.len() > 0 {
        lemma_sum_weights_none(ms.drop_last(), bs);
    }
}

/// A loop that found the first matching bucket found what the spec lookup
/// names.
proof fn lemma_entry_first_match(s: Seq<AggregateEntry>, step: u8, vote: Vote, i: int)
    requires
        0 <= i < s.len(),
        entry_matches(s[i], step, vote),
        forall|j: int| 0 <= j < i ==> !entry_matches(s[j], step, vote),
    ensures
        spec_entry_for(s, step, vote) == Some(s[i]),
    decreases i,
{
    if i > 0 {
        lemma_entry_first_match(s.drop_first(), step, vote, i - 1);
    }
}

/// A loop that found no matching bucket: the spec lookup finds none either.
proof fn lemma_entry_no_match(s: Seq<AggregateEntry>, step: u8, vote: Vote)
    requires
        forall|j: int| 0 <= j < s.len() ==> !entry_matches(s[j], step, vote),
    ensures
        spec_entry_for(s, step, vote) is None,
    decreases s.len(),
{
    if s.len() > 0 {
        lemma_entry_no_match(s.drop_first(), step, vote);
    }
}

/// Updating the first matching bucket with a bucket that still matches makes
/// it what the spec lookup names.
proof fn lemma_entry_update_match(
    s: Seq<AggregateEntry>,
    s2: Seq<AggregateEntry>,
    step: u8,
    vote: Vote,
    i: int,
)
    requires
        0 <= i < s.len(),
        s2 =~= s.update(i, s2[i]),
        s2.len() == s.len(),
        entry_matches(s[i], step, vote),
        entry_matches(s2[i], step, vote),
        forall|j: int| 0 <= j < i ==> !entry_matches(s[j], step, vote),
    ensures
        spec_entry_for(s2, step, vote) == Some(s2[i]),
{
    lemma_entry_first_match(s2, step, vote, i);
}

/// Pushing a matching bucket where none matched makes it what the spec
/// lookup names.
proof fn lemma_entry_push_fresh(s: Seq<AggregateEntry>, e: AggregateEntry, step: u8, vote: Vote)
    requires
        spec_entry_for(s, step, vote) is None,
        entry_matches(e, step, vote),
    ensures
        spec_entry_for(s.push(e), step, vote) == Some(e),
{
    lemma_entry_none_no_match(s, step, vote);
    lemma_entry_first_match(s.push(e), step, vote, s.len() as int);
}

/// Where the spec lookup finds nothing, no bucket matches.
proof fn lemma_entry_none_no_match(s: Seq<AggregateEntry>, step: u8, vote: Vote)
    requires
        spec_entry_for(s, step, vote) is None,
    ensures
        forall|j: int| 0 <= j < s.len() ==> !entry_matches(s[j], step, vote),
    decreases s.len(),
{
    if s.len() > 0 {
        lemma_entry_none_no_match(s.drop_first(), step, vote);
        assert forall|j: int| 0 <= j < s.len() implies !entry_matches(s[j], step, vote) by {
            if j > 0 {
                assert(s.drop_first()[j - 1] == s[j]);
            }
        }
    }
}

/// A run of cumulative bucket weights only ever grows, so it passes the
/// quorum threshold on at most one step: once a call crossed, no later call
/// crosses again.
pub proof fn lemma_quorum_crossing_unique(w: Seq<int>, t: int, i: int, j: int)
    requires
        forall|k: int| 0 <= k < w.len() - 1 ==> #[trigger] w[k] <= w[k + 1],
        0 <= i < j,
        j + 1 < w.len(),
        w[i] < t <= w[i + 1],
    ensures
        !(w[j] < t && t <= w[j + 1]),
{
    lemma_monotone_run(w, i + 1, j);
}

/// Distinct committee-member votes that reach the total make the threshold
/// crossing happen on some call: a run of cumulative weights that starts
/// under the threshold and ends at or above it crosses somewhere.
pub proof fn lemma_quorum_crossing_exists(w: Seq<int>, t: int)
    requires
        w.len() >= 2,
        w[0] < t,
        t <= w[w.len() - 1],
    ensures
        exists|i: int| 0 <= i < w.len() - 1 && w[i] < t && t <= #[trigger] w[i + 1],
    decreases w.len(),
{
    let n = w.len() as int;
    if w[n - 2] < t {
        assert(w[n - 2] < t && t <= w[n - 2 + 1]);
    } else {
        let w2 = w.take(n - 1);
        lemma_quorum_crossing_exists(w2, t);
        let i = choose|i: int| 0 <= i < w2.len() - 1 && w2[i] < t && t <= #[trigger] w2[i + 1];
        assert(w[i] < t && t <= w[i + 1]);
    }
}

/// Updating a bucket of one key leaves the lookup of every other key as it
/// was.
proof fn lemma_entry_for_update_other(
    s: Seq<AggregateEntry>,
    s2: Seq<AggregateEntry>,
    i: int,
    step2: u8,
    vote2: Vote,
)
    requires
        0 <= i < s.len(),
        s2 =~= s.update(i, s2[i]),
        s2.len() == s.len(),
        !entry_matches(s[i], step2, vote2),
        !entry_matches(s2[i], step2, vote2),
    ensures
        spec_entry_for(s2, step2, vote2) == spec_entry_for(s, step2, vote2),
    decreases s.len(),
{
    if i == 0 {
        assert(s2.drop_first() =~= s.drop_first());
    } else {
        assert(s2[0] == s[0]);
        if !entry_matches(s[0], step2, vote2) {
            assert(s2.drop_first() =~= s.drop_first().update(i - 1, s2.drop_first()[i - 1]));
            lemma_entry_for_update_other(s.drop_first(), s2.drop_first(), i - 1, step2, vote2);
        }
    }
}

/// Pushing a bucket of one key leaves the lookup of every other key as it
/// was.
proof fn lemma_entry_for_push_other(s: Seq<AggregateEntry>, e: AggregateEntry, step2: u8, vote2: Vote)
    requires
        !entry_matches(e, step2, vote2),
    ensures
        spec_entry_for(s.push(e), step2, vote2) == spec_entry_for(s, step2, vote2),
    decreases s.len(),
{
    if s.len() == 0 {
        assert(s.push(e)[0] == e);
        assert(s.push(e).drop_first() =~= Seq::<AggregateEntry>::empty());
        assert(spec_entry_for(s.push(e).drop_first(), step2, vote2) is None);
    } else {
        assert(s.push(e)[0] == s[0]);
        if !entry_matches(s[0], step2, vote2) {
            assert(s.push(e).drop_first() =~= s.drop_first().push(e));
            lemma_entry_for_push_other(s.drop_first(), e, step2, vote2);
        }
    }
}

/// Two words whose shifted-down tails agree bit by bit agree as shifted
/// words: a word is its lowest bit joined onto the next shift.
proof fn lemma_shift_eq(b1: u64, b2: u64, k: u64)
    requires
        k < 64,
        forall|j: u64| j < 64 ==> ((b1 >> j) & 1u64 == (b2 >> j) & 1u64),
    ensures
        (b1 >> k) == (b2 >> k),
    decreases 64 - k,
{
    assert((b1 >> k) & 1u64 == (b2 >> k) & 1u64);
    if k == 63 {
        assert((b1 >> 63u64) == (b1 >> 63u64) & 1u64) by (bit_vector);
        assert((b2 >> 63u64) == (b2 >> 63u64) & 1u64) by (bit_vector);
    } else {
        lemma_shift_eq(b1, b2, (k + 1) as u64);
        assert((b1 >> k) == (((b1 >> (k + 1)) << 1u64) | ((b1 >> k) & 1u64))) by (bit_vector)
            requires
                k < 63u64,
        ;
        assert((b2 >> k) == (((b2 >> (k + 1)) << 1u64) | ((b2 >> k) & 1u64))) by (bit_vector)
            requires
                k < 63u64,
        ;
    }
}

/// Two bitsets whose bits agree at every position are the same word.
proof fn lemma_bitset_ext(b1: u64, b2: u64)
    requires
        forall|j: int| 0 <= j < 64 ==> has_bit(b1, j) == has_bit(b2, j),
    ensures
        b1 == b2,
{
    assert forall|j: u64| j < 64 implies ((b1 >> j) & 1u64 == (b2 >> j) & 1u64) by {
        assert(((b1 >> j) & 1u64) <= 1 && ((b2 >> j) & 1u64) <= 1) by (bit_vector);
        assert(has_bit(b1, j as int) == has_bit(b2, j as int));
    }
    lemma_shift_eq(b1, b2, 0);
    assert((b1 >> 0u64) == b1) by (bit_vector);
    assert((b2 >> 0u64) == b2) by (bit_vector);
}

/// Vote accumulation is order-independent: every accepted vote sets exactly
/// its signer's bit, so two runs that accept the same set of member
/// positions end with the same bitset — and the same accumulated weight —
/// whatever the delivery order.
pub proof fn lemma_order_independent(ms: Seq<Member>, b1: u64, b2: u64, accepted: Set<int>)
    requires
        forall|j: int| #[trigger] has_bit(b1, j) == accepted.contains(j),
        forall|j: int| #[trigger] has_bit(b2, j) == accepted.contains(j),
    ensures
        b1 == b2,
        sum_weights(ms, b1) == sum_weights(ms, b2),
{
    lemma_bitset_ext(b1, b2);
}

/// In a nondecreasing run, earlier values never exceed later ones.
proof fn lemma_monotone_run(w: Seq<int>, a: int, b: int)
    requires
        forall|k: int| 0 <= k < w.len() - 1 ==> #[trigger] w[k] <= w[k + 1],
        0 <= a <= b < w.len(),
    ensures
        w[a] <= w[b],
    decreases b - a,
{
    if a < b {
        lemma_monotone_run(w, a + 1, b);
    }
}

} // verus!
