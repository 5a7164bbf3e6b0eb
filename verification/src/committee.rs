//! Voting committees: ordered members with voting weights, the quorum
//! threshold, and the per-iteration committees of a round.

use vstd::prelude::*;

use crate::bitset::has_bit;
use crate::bytes_util::bytes_eq;

verus! {

/// One committee member: a BLS public key and its voting weight.
#[derive(Debug, Clone, PartialEq, Eq)]
pub struct Member {
    pub pubkey: Vec<u8>,
    pub weight: u64,
}

/// The summed weight of every member.
pub open spec fn sum_all(ms: Seq<Member>) -> int
    decreases ms.len(),
{
    if ms.len() == 0 {
        0
    } else {
        sum_all(ms.drop_last()) + ms.last().weight
    }
}

/// The summed weight of the members whose bitset bit is set.
pub open spec fn sum_weights(ms: Seq<Member>, bs: u64) -> int
    decreases ms.len(),
{
    if ms.len() == 0 {
        0
    } else {
        sum_weights(ms.drop_last(), bs) + if has_bit(bs, ms.len() - 1) {
            ms.last().weight as int
        } else {
            0
        }
    }
}

/// A selected sum never goes below zero nor above the total.
pub proof fn lemma_sum_weights_bounds(ms: Seq<Member>, bs: u64)
    ensures
        0 <= sum_weights(ms, bs) <= sum_all(ms),
    decreases ms.len(),
{
    if ms.len() > 0 {
        lemma_sum_weights_bounds(ms.drop_last(), bs);
    }
}

/// Bitsets that agree on every member position select the same sum.
pub proof fn lemma_sum_weights_congruent(ms: Seq<Member>, bs1: u64, bs2: u64)
    requires
        forall|j: int| 0 <= j < ms.len() ==> has_bit(bs1, j) == has_bit(bs2, j),
    ensures
        sum_weights(ms, bs1) == sum_weights(ms, bs2),
    decreases ms.len(),
{
    if ms.len() > 0 {
        lemma_sum_weights_congruent(ms.drop_last(), bs1, bs2);
    }
}

/// Setting one fresh bit adds exactly that member's weight to the sum.
pub proof fn lemma_sum_weights_set_bit(ms: Seq<Member>, bs: u64, bs2: u64, i: int)
    requires
        0 <= i < ms.len() <= 64,
        !has_bit(bs, i),
        forall|j: int| 0 <= j < 64 ==> has_bit(bs2, j) == (j == i || has_bit(bs, j)),
    ensures
        sum_weights(ms, bs2) == sum_weights(ms, bs) + ms[i].weight,
    decreases ms.len(),
{
    let l = ms.len() - 1;
    if l == i {
        lemma_sum_weights_congruent(ms.drop_last(), bs, bs2);
    } else {
        lemma_sum_weights_set_bit(ms.drop_last(), bs, bs2, i);
    }
}

/// The sum over a prefix one longer grows by the weight of the member whose
/// bit decides it.
pub proof fn lemma_sum_all_take_step(ms: Seq<Member>, i: int)
    requires
        0 <= i < ms.len(),
    ensures
        sum_all(ms.take(i + 1)) == sum_all(ms.take(i)) + ms[i].weight,
{
    assert(ms.take(i + 1).drop_last() =~= ms.take(i));
}

/// The quorum threshold over a total weight: two thirds, rounded up.
pub open spec fn spec_quorum_threshold(total: int) -> int {
    (2 * total + 2) / 3
}

/// A voting committee: its ordered members, the summed weight, the quorum
/// threshold, and the generator excluded from it, if one is.
#[derive(Debug)]
pub struct Committee {
    pub members: Vec<Member>,
    pub total_weight: u64,
    pub quorum_threshold: u64,
    pub generator: Option<Vec<u8>>,
}

/// What a well-formed list of members looks like: at most 64 of them (one
/// bitset bit each), every weight positive, keys distinct, the excluded
/// generator not among them, and a total small enough that the threshold
/// arithmetic stays in `u64`.
pub open spec fn spec_members_ok(ms: Seq<Member>, generator: Option<Vec<u8>>) -> bool {
    &&& 0 < ms.len() <= 64
    &&& forall|i: int| 0 <= i < ms.len() ==> #[trigger] ms[i].weight >= 1
    &&& forall|i: int, j: int|
        0 <= i < j < ms.len() ==> ms[i].pubkey@ != ms[j].pubkey@
    &&& (generator matches Some(g) ==> forall|i: int|
        0 <= i < ms.len() ==> #[trigger] ms[i].pubkey@ != g@)
    &&& sum_all(ms) <= 0x7fff_ffff_ffff_fffe
}

impl Committee {
    /// A committee is sound when its cached total and threshold match its
    /// members and the members are well formed.
    pub open spec fn wf(&self) -> bool {
        &&& spec_members_ok(self.members@, self.generator)
        &&& self.total_weight == sum_all(self.members@)
        &&& self.quorum_threshold == spec_quorum_threshold(self.total_weight as int)
    }

    /// Builds a committee, computing its total weight and quorum threshold;
    /// `None` exactly when the member list is not well formed.
    pub fn new(members: Vec<Member>, generator: Option<Vec<u8>>) -> (r: Option<Committee>)
        ensures
            (r is Some) == spec_members_ok(members@, generator),
            r matches Some(c) ==> c.wf() && c.members == members && c.generator == generator,
    {
        let n = members.len();
        if n == 0 || n > 64 {
            return None;
        }
        let mut total: u64 = 0;
        let mut i: usize = 0;
        while i < n
            invariant
                n == members.len() <= 64,
                i <= n,
                total == sum_all(members@.take(i as int)),
                total <= 0x7fff_ffff_ffff_fffe,
                forall|k: int| 0 <= k < i ==> #[trigger] members@[k].weight >= 1,
            decreases n - i,
        {
            let w = members[i].weight;
            if w == 0 {
                return None;
            }
            proof {
                lemma_sum_all_take_step(members@, i as int);
            }
            if w > 0x7fff_ffff_ffff_fffe || total > 0x7fff_ffff_ffff_fffe - w {
                // the running sum already passes the largest total the
                // threshold arithmetic can carry
                proof {
                    lemma_sum_take_overflow(members@, i as int, total as int, w as int);
                }
                return None;
            }
            total = total + w;
            i += 1;
        }
        proof {
            assert(members@.take(n as int) =~= members@);
        }
        // distinct keys
        let mut a: usize = 0;
        while a < n
            invariant
                n == members.len(),
                a <= n,
                forall|i2: int, j2: int| 0 <= i2 < j2 < n && i2 < a ==> members@[i2].pubkey@
                    != members@[j2].pubkey@,
            decreases n - a,
        {
            let mut b: usize = a + 1;
            while b < n
                invariant
                    n == members.len(),
                    a < n,
                    a < b <= n,
                    forall|j2: int| a < j2 < b ==> members@[a as int].pubkey@
                        != members@[j2].pubkey@,
                decreases n - b,
            {
                if bytes_eq(&members[a].pubkey, &members[b].pubkey) {
                    return None;
                }
                b += 1;
            }
            a += 1;
        }
        // generator excluded
        match &generator {
            Some(g) => {
                let mut i2: usize = 0;
                while i2 < n
                    invariant
                        n == members.len(),
                        i2 <= n,
                        generator matches Some(gg) && gg@ == g@,
                        forall|k: int| 0 <= k < i2 ==> #[trigger] members@[k].pubkey@ != g@,
                    decreases n - i2,
                {
                    if bytes_eq(&members[i2].pubkey, g) {
                        return None;
                    }
                    i2 += 1;
                }
            },
            None => {},
        }
        let threshold = (2 * total + 2) / 3;
        Some(Committee { members, total_weight: total, quorum_threshold: threshold, generator })
    }

    /// How many members the committee has.
    pub fn size(&self) -> (r: usize)
        ensures
            r == self.members@.len(),
    {
        self.members.len()
    }

    /// The position of a public key in the committee, if it is a member.
    pub fn position(&self, pubkey: &Vec<u8>) -> (r: Option<usize>)
        ensures
            r matches Some(i) ==> i < self.members@.len() && self.members@[i as int].pubkey@
                == pubkey@,
            r is None ==> forall|i: int|
                0 <= i < self.members@.len() ==> #[trigger] self.members@[i].pubkey@ != pubkey@,
    {
        let n = self.members.len();
        let mut i: usize = 0;
        while i < n
            invariant
                n == self.members@.len(),
                i <= n,
                forall|k: int| 0 <= k < i ==> #[trigger] self.members@[k].pubkey@ != pubkey@,
            decreases n - i,
        {
            if bytes_eq(&self.members[i].pubkey, pubkey) {
                return Some(i);
            }
            i += 1;
        }
        None
    }
}

/// Helper for `Committee::new`: if a prefix sum together with the next weight
/// already passes the carrying bound, the whole sum does.
proof fn lemma_sum_take_overflow(ms: Seq<Member>, i: int, total: int, w: int)
    requires
        0 <= i < ms.len(),
        total == sum_all(ms.take(i)),
        w == ms[i].weight,
        total + w > 0x7fff_ffff_ffff_fffe,
    ensures
        sum_all(ms) > 0x7fff_ffff_ffff_fffe,
{
    lemma_sum_all_take_step(ms, i);
    lemma_sum_all_take_prefix(ms, i + 1);
}

/// The total over a prefix never exceeds the total over the whole list.
pub proof fn lemma_sum_all_take_prefix(ms: Seq<Member>, k: int)
    requires
        0 <= k <= ms.len(),
    ensures
        sum_all(ms.take(k)) <= sum_all(ms),
    decreases ms.len() - k,
{
    if k < ms.len() {
        lemma_sum_all_take_step(ms, k);
        lemma_sum_all_take_prefix(ms, k + 1);
    } else {
        assert(ms.take(k) =~= ms);
    }
}

/// The committees of one iteration: its generator and the two voting
/// committees the generator is excluded from.
#[derive(Debug)]
pub struct IterationCommittees {
    pub iteration: u8,
    pub generator: Vec<u8>,
    pub validation: Committee,
    pub ratification: Committee,
}

impl IterationCommittees {
    /// Both committees are sound and exclude this iteration's generator.
    pub open spec fn wf(&self) -> bool {
        &&& self.validation.wf()
        &&& self.ratification.wf()
        &&& self.validation.generator matches Some(g) && g@ == self.generator@
        &&& self.ratification.generator matches Some(g) && g@ == self.generator@
    }
}

/// The first entry for an iteration, if one is recorded.
pub open spec fn spec_committees_for(s: Seq<IterationCommittees>, it: u8) -> Option<
    IterationCommittees,
>
    decreases s.len(),
{
    if s.len() == 0 {
        None
    } else if s[0].iteration == it {
        Some(s[0])
    } else {
        spec_committees_for(s.drop_first(), it)
    }
}

/// A loop that found the first matching entry found what the spec lookup
/// names.
proof fn lemma_first_match(s: Seq<IterationCommittees>, it: u8, i: int)
    requires
        0 <= i < s.len(),
        s[i].iteration == it,
        forall|j: int| 0 <= j < i ==> s[j].iteration != it,
    ensures
        spec_committees_for(s, it) == Some(s[i]),
    decreases i,
{
    if i > 0 {
        lemma_first_match(s.drop_first(), it, i - 1);
    }
}

/// A loop that found no matching entry: the spec lookup finds none either.
proof fn lemma_no_match(s: Seq<IterationCommittees>, it: u8)
    requires
        forall|j: int| 0 <= j < s.len() ==> s[j].iteration != it,
    ensures
        spec_committees_for(s, it) is None,
    decreases s.len(),
{
    if s.len() > 0 {
        lemma_no_match(s.drop_first(), it);
    }
}

/// The per-iteration committees of a round, grown as iterations begin.
#[derive(Debug)]
pub struct RoundCommittees {
    pub entries: Vec<IterationCommittees>,
}

impl RoundCommittees {
    /// Every recorded entry is sound and no iteration is recorded twice.
    pub open spec fn wf(&self) -> bool {
        &&& forall|i: int| 0 <= i < self.entries@.len() ==> (#[trigger] self.entries@[i]).wf()
        &&& forall|i: int, j: int|
            0 <= i < j < self.entries@.len() ==> self.entries@[i].iteration
                != self.entries@[j].iteration
    }

    /// An empty record.
    pub fn new() -> (r: RoundCommittees)
        ensures
            r.wf(),
            r.entries@.len() == 0,
    {
        RoundCommittees { entries: Vec::new() }
    }

    /// Records an iteration's committees.
    pub fn push_entry(&mut self, e: IterationCommittees)
        requires
            old(self).wf(),
            e.wf(),
            spec_committees_for(old(self).entries@, e.iteration) is None,
        ensures
            final(self).wf(),
            final(self).entries@ == old(self).entries@.push(e),
    {
        proof {
            if exists|j: int|
                0 <= j < self.entries@.len() && self.entries@[j].iteration == e.iteration {
                let j = choose|j: int|
                    0 <= j < self.entries@.len() && self.entries@[j].iteration == e.iteration;
                lemma_committees_for_found(self.entries@, e.iteration, j);
            }
        }
        self.entries.push(e);
    }

    /// The entry of an iteration, if one is recorded.
    pub fn entry_for(&self, iteration: u8) -> (r: Option<&IterationCommittees>)
        ensures
            r matches Some(e) ==> spec_committees_for(self.entries@, iteration) == Some(*e),
            (r is Some) == (spec_committees_for(self.entries@, iteration) is Some),
    {
        let n = self.entries.len();
        let mut i: usize = 0;
        while i < n
            invariant
                n == self.entries@.len(),
                i <= n,
                forall|j: int| 0 <= j < i ==> self.entries@[j].iteration != iteration,
            decreases n - i,
        {
            if self.entries[i].iteration == iteration {
                proof {
                    lemma_first_match(self.entries@, iteration, i as int);
                }
                return Some(&self.entries[i]);
            }
            i += 1;
        }
        proof {
            lemma_no_match(self.entries@, iteration);
        }
        None
    }

    /// The generator of an iteration, if its committees are recorded.
    pub fn get_generator(&self, iteration: u8) -> (r: Option<&Vec<u8>>)
        ensures
            r matches Some(g) ==> spec_committees_for(self.entries@, iteration) matches Some(e)
                && g@ == e.generator@,
            (r is Some) == (spec_committees_for(self.entries@, iteration) is Some),
    {
        match self.entry_for(iteration) {
            Some(e) => Some(&e.generator),
            None => None,
        }
    }

    /// The validation committee of an iteration, if recorded.
    pub fn get_validation_committee(&self, iteration: u8) -> (r: Option<&Committee>)
        ensures
            r matches Some(c) ==> spec_committees_for(self.entries@, iteration) matches Some(e)
                && *c == e.validation,
            (r is Some) == (spec_committees_for(self.entries@, iteration) is Some),
    {
        match self.entry_for(iteration) {
            Some(e) => Some(&e.validation),
            None => None,
        }
    }

    /// The ratification committee of an iteration, if recorded.
    pub fn get_ratification_committee(&self, iteration: u8) -> (r: Option<&Committee>)
        ensures
            r matches Some(c) ==> spec_committees_for(self.entries@, iteration) matches Some(e)
                && *c == e.ratification,
            (r is Some) == (spec_committees_for(self.entries@, iteration) is Some),
    {
        match self.entry_for(iteration) {
            Some(e) => Some(&e.ratification),
            None => None,
        }
    }
}

/// What the spec lookup names is an element of the list.
pub proof fn lemma_committees_for_element(s: Seq<IterationCommittees>, it: u8)
    requires
        spec_committees_for(s, it) is Some,
    ensures
        exists|k: int| 0 <= k < s.len() && s[k] == spec_committees_for(s, it).unwrap(),
    decreases s.len(),
{
    if s.len() > 0 && s[0].iteration != it {
        lemma_committees_for_element(s.drop_first(), it);
        let k = choose|k: int|
            0 <= k < s.drop_first().len() && s.drop_first()[k] == spec_committees_for(
                s.drop_first(),
                it,
            ).unwrap();
        assert(s[k + 1] == s.drop_first()[k]);
    }
}

/// If some entry matches, the spec lookup finds one.
proof fn lemma_committees_for_found(s: Seq<IterationCommittees>, it: u8, j: int)
    requires
        0 <= j < s.len(),
        s[j].iteration == it,
    ensures
        spec_committees_for(s, it) is Some,
    decreases j,
{
    if j > 0 && s[0].iteration != it {
        lemma_committees_for_found(s.drop_first(), it, j - 1);
    }
}

} // verus!
