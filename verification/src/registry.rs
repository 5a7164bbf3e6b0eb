//! Round-wide registry of aggregated step votes across all iterations.
//!
//! Both handlers record every aggregated `StepVotes` here. When, for one
//! (iteration, vote), a validation quorum and a ratification quorum are both
//! present, the registry composes the final Quorum message — and emits it at
//! most once per (iteration, block hash), however the two quorums arrive.

use vstd::prelude::*;

use vstd::pervasive::unreached;

use crate::bls;
use crate::bytes_util::{copy_bytes, hash_eq};
use crate::ledger::{spec_sv_eq, StepVotes};
use crate::message::{spec_signable_bytes, Header, Message, Payload, QuorumPayload, Topic};
use crate::round::RoundUpdate;
use crate::step::StepName;
use crate::vote::{spec_vote_eq, spec_vote_hash, vote_eq, Vote};

verus! {

/// What the registry holds for one (iteration, vote): the latest aggregated
/// record of each step, whether that step's quorum was reached, and the
/// generator excluded from the iteration's committees.
#[derive(Debug)]
pub struct CertificateInfo {
    pub iteration: u8,
    pub vote: Vote,
    pub validation: Option<StepVotes>,
    pub validation_quorum: bool,
    pub ratification: Option<StepVotes>,
    pub ratification_quorum: bool,
    pub generator: Vec<u8>,
}

/// A (iteration, block hash) pair whose Quorum message has been emitted.
#[derive(Debug)]
pub struct EmittedKey {
    pub iteration: u8,
    pub block_hash: [u8; 32],
}

/// Whether a slot records this iteration and vote.
pub open spec fn cert_matches(e: CertificateInfo, iteration: u8, vote: Vote) -> bool {
    e.iteration == iteration && spec_vote_eq(e.vote, vote)
}

/// The first slot for (iteration, vote), if any.
pub open spec fn spec_cert_for(s: Seq<CertificateInfo>, iteration: u8, vote: Vote) -> Option<
    CertificateInfo,
>
    decreases s.len(),
{
    if s.len() == 0 {
        None
    } else if cert_matches(s[0], iteration, vote) {
        Some(s[0])
    } else {
        spec_cert_for(s.drop_first(), iteration, vote)
    }
}

/// Whether a Quorum message for (iteration, block hash) was already emitted.
pub open spec fn spec_emitted_contains(s: Seq<EmittedKey>, iteration: u8, h: Seq<u8>) -> bool {
    exists|k: int| 0 <= k < s.len() && (#[trigger] s[k]).iteration == iteration && s[k].block_hash@
        =~= h
}

/// The validation-quorum flag a slot would hold after recording this update.
pub open spec fn spec_new_vq(
    old_e: Option<CertificateInfo>,
    kind: StepName,
    quorum_reached: bool,
) -> bool {
    (match old_e {
        Some(e) => e.validation_quorum,
        None => false,
    }) || (kind is Validation && quorum_reached)
}

/// The ratification-quorum flag a slot would hold after recording this
/// update.
pub open spec fn spec_new_rq(
    old_e: Option<CertificateInfo>,
    kind: StepName,
    quorum_reached: bool,
) -> bool {
    (match old_e {
        Some(e) => e.ratification_quorum,
        None => false,
    }) || (kind is Ratification && quorum_reached)
}

/// Whether the slot would hold a validation record after this update.
pub open spec fn spec_new_vp(old_e: Option<CertificateInfo>, kind: StepName) -> bool {
    kind is Validation || (old_e matches Some(e) && e.validation is Some)
}

/// Whether the slot would hold a ratification record after this update.
pub open spec fn spec_new_rp(old_e: Option<CertificateInfo>, kind: StepName) -> bool {
    kind is Ratification || (old_e matches Some(e) && e.ratification is Some)
}

/// Whether recording (iteration, vote, kind, quorum_reached) over the given
/// state makes the registry emit the Quorum message: both quorums present,
/// both records present, and the pair not yet emitted.
pub open spec fn spec_emits(
    entries: Seq<CertificateInfo>,
    emitted: Seq<EmittedKey>,
    iteration: u8,
    vote: Vote,
    kind: StepName,
    quorum_reached: bool,
) -> bool {
    let old_e = spec_cert_for(entries, iteration, vote);
    &&& spec_new_vq(old_e, kind, quorum_reached)
    &&& spec_new_rq(old_e, kind, quorum_reached)
    &&& spec_new_vp(old_e, kind)
    &&& spec_new_rp(old_e, kind)
    &&& !spec_emitted_contains(emitted, iteration, spec_vote_hash(vote))
}

/// The shared, round-wide registry. One instance serves both handlers; the
/// caller serialises access to it.
#[derive(Debug)]
pub struct CertInfoRegistry {
    pub entries: Vec<CertificateInfo>,
    pub emitted: Vec<EmittedKey>,
}

impl CertInfoRegistry {
    /// A fresh registry with nothing recorded and nothing emitted.
    pub fn new() -> (r: CertInfoRegistry)
        ensures
            r.entries@.len() == 0,
            r.emitted@.len() == 0,
    {
        CertInfoRegistry { entries: Vec::new(), emitted: Vec::new() }
    }

    /// Finds the first slot of (iteration, vote), pinning the spec lookup.
    fn find_cert(&self, iteration: u8, vote: &Vote) -> (r: Option<usize>)
        ensures
            r matches Some(i) ==> i < self.entries@.len() && cert_matches(
                self.entries@[i as int],
                iteration,
                *vote,
            ) && spec_cert_for(self.entries@, iteration, *vote) == Some(self.entries@[i as int])
                && forall|j: int| 0 <= j < i ==> !cert_matches(self.entries@[j], iteration, *vote),
            r is None ==> spec_cert_for(self.entries@, iteration, *vote) is None,
    {
        let n = self.entries.len();
        let mut i: usize = 0;
        while i < n
            invariant
                n == self.entries@.len(),
                i <= n,
                forall|j: int| 0 <= j < i ==> !cert_matches(self.entries@[j], iteration, *vote),
            decreases n - i,
        {
            if self.entries[i].iteration == iteration && vote_eq(&self.entries[i].vote, vote) {
                proof {
                    lemma_cert_first_match(self.entries@, iteration, *vote, i as int);
                }
                return Some(i);
            }
            i += 1;
        }
        proof {
            lemma_cert_no_match(self.entries@, iteration, *vote);
        }
        None
    }

    /// True iff a Quorum message for (iteration, block hash) went out.
    fn emitted_contains(&self, iteration: u8, block_hash: &[u8; 32]) -> (r: bool)
        ensures
            r == spec_emitted_contains(self.emitted@, iteration, block_hash@),
    {
        let n = self.emitted.len();
        let mut k: usize = 0;
        while k < n
            invariant
                n == self.emitted@.len(),
                k <= n,
                forall|m: int| 0 <= m < k ==> !((#[trigger] self.emitted@[m]).iteration
                    == iteration && self.emitted@[m].block_hash@ =~= block_hash@),
            decreases n - k,
        {
            if self.emitted[k].iteration == iteration && hash_eq(
                &self.emitted[k].block_hash,
                block_hash,
            ) {
                return true;
            }
            k += 1;
        }
        false
    }

    /// Records an aggregated step-votes update into the slot of
    /// (iteration, vote); when after the update both the validation and the
    /// ratification quorum of that slot are present and the pair
    /// (iteration, block hash) was never emitted, marks it emitted and
    /// returns the composed Quorum message.
    ///
    /// The quorum flags are latched: once recorded they are never cleared,
    /// and identical updates are idempotent. Emission is recorded before the
    /// message is handed out, so each (iteration, block hash) pair emits at
    /// most once, in whatever order the two quorums arrive.
    pub fn add_step_votes(
        &mut self,
        iteration: u8,
        vote: &Vote,
        sv: StepVotes,
        kind: StepName,
        quorum_reached: bool,
        generator: &Vec<u8>,
        ru: &RoundUpdate,
    ) -> (r: Option<Message>)
        requires
            !(kind is Proposal),
        ensures
            (r is Some) == spec_emits(
                old(self).entries@,
                old(self).emitted@,
                iteration,
                *vote,
                kind,
                quorum_reached,
            ),
            r is None ==> final(self).emitted@ == old(self).emitted@,
            r is Some ==> final(self).emitted@.len() == old(self).emitted@.len() + 1,
            r is Some ==> (forall|k: int|
                0 <= k < old(self).emitted@.len() ==> final(self).emitted@[k]
                    == old(self).emitted@[k]),
            r is Some ==> final(self).emitted@.last().iteration == iteration,
            r is Some ==> final(self).emitted@.last().block_hash@ =~= spec_vote_hash(*vote),
            r is Some ==> spec_emitted_contains(
                final(self).emitted@,
                iteration,
                spec_vote_hash(*vote),
            ),
            forall|it2: u8, h2: Seq<u8>|
                spec_emitted_contains(old(self).emitted@, it2, h2) ==> spec_emitted_contains(
                    final(self).emitted@,
                    it2,
                    h2,
                ),
            r matches Some(m) ==> m.header.round == ru.spec_round() && m.header.iteration
                == iteration && m.header.block_hash@ =~= spec_vote_hash(*vote) && m.header.topic
                == Topic::Quorum && m.header.pubkey_bls@ == ru.spec_pubkey(),
            r matches Some(m) ==> (m.payload matches Payload::Quorum(q) && q.signature@
                == bls::bls_sig(
                ru.spec_secret_key(),
                ru.spec_pubkey(),
                spec_signable_bytes(
                    ru.spec_round(),
                    iteration,
                    StepName::Ratification,
                    spec_vote_hash(*vote),
                    *vote,
                ),
            )),
            r matches Some(m) ==> (m.payload matches Payload::Quorum(q) && (kind is Validation
                ==> spec_sv_eq(q.validation, sv) && (spec_cert_for(
                old(self).entries@,
                iteration,
                *vote,
            ) matches Some(e) && e.ratification matches Some(rsv) && spec_sv_eq(
                q.ratification,
                rsv,
            ))) && (kind is Ratification ==> spec_sv_eq(q.ratification, sv) && (spec_cert_for(
                old(self).entries@,
                iteration,
                *vote,
            ) matches Some(e) && e.validation matches Some(vsv) && spec_sv_eq(q.validation, vsv)))),
            spec_cert_for(final(self).entries@, iteration, *vote) matches Some(e2) && {
                let old_e = spec_cert_for(old(self).entries@, iteration, *vote);
                &&& e2.validation_quorum == spec_new_vq(old_e, kind, quorum_reached)
                &&& e2.ratification_quorum == spec_new_rq(old_e, kind, quorum_reached)
                &&& (e2.validation is Some) == spec_new_vp(old_e, kind)
                &&& (e2.ratification is Some) == spec_new_rp(old_e, kind)
                &&& (kind is Validation ==> (e2.validation matches Some(v) && spec_sv_eq(v, sv)))
                &&& (kind is Ratification ==> (e2.ratification matches Some(v) && spec_sv_eq(
                    v,
                    sv,
                )))
                &&& (kind is Validation ==> (match old_e {
                    Some(e) => (e2.ratification is Some ==> e2.ratification == e.ratification),
                    None => e2.ratification is None,
                }))
                &&& (kind is Ratification ==> (match old_e {
                    Some(e) => (e2.validation is Some ==> e2.validation == e.validation),
                    None => e2.validation is None,
                }))
                &&& (match old_e {
                    Some(e) => e2.generator@ == e.generator@,
                    None => e2.generator@ == generator@,
                })
            },
            forall|it2: u8, v2: Vote|
                !(it2 == iteration && spec_vote_eq(v2, *vote)) ==> spec_cert_for(
                    final(self).entries@,
                    it2,
                    v2,
                ) == spec_cert_for(old(self).entries@, it2, v2),
    {
        let ghost old_entries = self.entries@;
        let ghost old_e = spec_cert_for(old_entries, iteration, *vote);
        let i: usize;
        match self.find_cert(iteration, vote) {
            Some(found) => {
                i = found;
            },
            None => {
                let fresh = CertificateInfo {
                    iteration,
                    vote: *vote,
                    validation: None,
                    validation_quorum: false,
                    ratification: None,
                    ratification_quorum: false,
                    generator: copy_bytes(generator),
                };
                let ghost fresh_g = fresh;
                i = self.entries.len();
                self.entries.push(fresh);
                proof {
                    lemma_cert_push_fresh(old_entries, fresh_g, iteration, *vote);
                }
            },
        }
        let ghost pre_entries = self.entries@;
        let ghost pre_i = pre_entries[i as int];
        proof {
            if old_e is None {
                lemma_cert_none_no_match(old_entries, iteration, *vote);
                assert forall|j: int| 0 <= j < i implies !cert_matches(
                    pre_entries[j],
                    iteration,
                    *vote,
                ) by {
                    assert(pre_entries[j] == old_entries[j]);
                }
            }
        }
        let sv_copy = sv.duplicate();
        {
            let e = &mut self.entries[i];
            match kind {
                StepName::Validation => {
                    e.validation = Some(sv);
                    e.validation_quorum = e.validation_quorum || quorum_reached;
                },
                StepName::Ratification => {
                    e.ratification = Some(sv);
                    e.ratification_quorum = e.ratification_quorum || quorum_reached;
                },
                StepName::Proposal => {},
            }
        }
        proof {
            lemma_cert_update_match(
                pre_entries,
                self.entries@,
                iteration,
                *vote,
                i as int,
            );
            assert forall|it2: u8, v2: Vote|
                !(it2 == iteration && spec_vote_eq(v2, *vote)) implies spec_cert_for(
                self.entries@,
                it2,
                v2,
            ) == spec_cert_for(old_entries, it2, v2) by {
                lemma_cert_update_other(pre_entries, self.entries@, i as int, it2, v2);
                if old_e is None {
                    lemma_cert_push_other(old_entries, pre_entries[i as int], it2, v2);
                }
            }
        }
        let have_pair = self.entries[i].validation_quorum && self.entries[i].ratification_quorum
            && self.entries[i].validation.is_some() && self.entries[i].ratification.is_some();
        if !have_pair {
            return None;
        }
        let block_hash = vote.block_hash();
        if self.emitted_contains(iteration, &block_hash) {
            return None;
        }
        let validation_sv = match &self.entries[i].validation {
            Some(v) => v.duplicate(),
            None => sv_copy,  // unreachable: the pair is present
        };
        let ratification_sv = match &self.entries[i].ratification {
            Some(v) => v.duplicate(),
            None => StepVotes::empty(),  // unreachable: the pair is present
        };
        let ghost old_emitted = self.emitted@;
        self.emitted.push(EmittedKey { iteration, block_hash });
        proof {
            let last = self.emitted@.len() - 1;
            assert((#[trigger] self.emitted@[last]).iteration == iteration
                && self.emitted@[last].block_hash@ =~= spec_vote_hash(*vote));
            assert forall|it2: u8, h2: Seq<u8>|
                spec_emitted_contains(old_emitted, it2, h2) implies spec_emitted_contains(
                self.emitted@,
                it2,
                h2,
            ) by {
                let k = choose|k: int|
                    0 <= k < old_emitted.len() && (#[trigger] old_emitted[k]).iteration == it2
                        && old_emitted[k].block_hash@ =~= h2;
                assert(self.emitted@[k] == old_emitted[k]);
            }
        }
        ru.keys_sound();
        let header = Header {
            pubkey_bls: copy_bytes(ru.pubkey_bls()),
            round: ru.round(),
            iteration,
            block_hash,
            topic: Topic::Quorum,
        };
        let signature = match header.sign(
            ru.secret_key(),
            ru.pubkey_bls(),
            StepName::Ratification,
            vote,
        ) {
            Some(s) => s,
            None => unreached(),  // the round's keys always deserialize
        };
        let payload = QuorumPayload {
            signature,
            validation: validation_sv,
            ratification: ratification_sv,
        };
        Some(Message::new_quorum(header, payload))
    }
}

/// Once a pair is recorded as emitted, no registry state that still records
/// it emits a Quorum message for that pair again: together with the
/// monotonicity of the emitted set this bounds emissions to one per
/// (iteration, block hash).
pub proof fn lemma_quorum_emitted_at_most_once(
    entries: Seq<CertificateInfo>,
    emitted: Seq<EmittedKey>,
    iteration: u8,
    vote: Vote,
    kind: StepName,
    quorum_reached: bool,
)
    requires
        spec_emitted_contains(emitted, iteration, spec_vote_hash(vote)),
    ensures
        !spec_emits(entries, emitted, iteration, vote, kind, quorum_reached),
{
}

/// A loop that found the first matching slot found what the spec lookup
/// names.
proof fn lemma_cert_first_match(s: Seq<CertificateInfo>, iteration: u8, vote: Vote, i: int)
    requires
        0 <= i < s.len(),
        cert_matches(s[i], iteration, vote),
        forall|j: int| 0 <= j < i ==> !cert_matches(s[j], iteration, vote),
    ensures
        spec_cert_for(s, iteration, vote) == Some(s[i]),
    decreases i,
{
    if i > 0 {
        lemma_cert_first_match(s.drop_first(), iteration, vote, i - 1);
    }
}

/// A loop that found no matching slot: the spec lookup finds none either.
proof fn lemma_cert_no_match(s: Seq<CertificateInfo>, iteration: u8, vote: Vote)
    requires
        forall|j: int| 0 <= j < s.len() ==> !cert_matches(s[j], iteration, vote),
    ensures
        spec_cert_for(s, iteration, vote) is None,
    decreases s.len(),
{
    if s.len() > 0 {
        lemma_cert_no_match(s.drop_first(), iteration, vote);
    }
}

/// Where the spec lookup finds nothing, no slot matches.
proof fn lemma_cert_none_no_match(s: Seq<CertificateInfo>, iteration: u8, vote: Vote)
    requires
        spec_cert_for(s, iteration, vote) is None,
    ensures
        forall|j: int| 0 <= j < s.len() ==> !cert_matches(s[j], iteration, vote),
    decreases s.len(),
{
    if s.len() > 0 {
        lemma_cert_none_no_match(s.drop_first(), iteration, vote);
        assert forall|j: int| 0 <= j < s.len() implies !cert_matches(s[j], iteration, vote) by {
            if j > 0 {
                assert(s.drop_first()[j - 1] == s[j]);
            }
        }
    }
}

/// Pushing a matching slot where none matched makes it what the spec lookup
/// names.
proof fn lemma_cert_push_fresh(s: Seq<CertificateInfo>, e: CertificateInfo, iteration: u8, vote: Vote)
    requires
        spec_cert_for(s, iteration, vote) is None,
        cert_matches(e, iteration, vote),
    ensures
        spec_cert_for(s.push(e), iteration, vote) == Some(e),
{
    lemma_cert_none_no_match(s, iteration, vote);
    lemma_cert_first_match(s.push(e), iteration, vote, s.len() as int);
}

/// Updating a slot of one key leaves the lookup of every other key as it
/// was.
proof fn lemma_cert_update_other(
    s: Seq<CertificateInfo>,
    s2: Seq<CertificateInfo>,
    i: int,
    it2: u8,
    v2: Vote,
)
    requires
        0 <= i < s.len(),
        s2 =~= s.update(i, s2[i]),
        s2.len() == s.len(),
        !cert_matches(s[i], it2, v2),
        !cert_matches(s2[i], it2, v2),
    ensures
        spec_cert_for(s2, it2, v2) == spec_cert_for(s, it2, v2),
    decreases s.len(),
{
    if i == 0 {
        assert(s2.drop_first() =~= s.drop_first());
    } else {
        assert(s2[0] == s[0]);
        if !cert_matches(s[0], it2, v2) {
            assert(s2.drop_first() =~= s.drop_first().update(i - 1, s2.drop_first()[i - 1]));
            lemma_cert_update_other(s.drop_first(), s2.drop_first(), i - 1, it2, v2);
        }
    }
}

/// Pushing a slot of one key leaves the lookup of every other key as it
/// was.
proof fn lemma_cert_push_other(s: Seq<CertificateInfo>, e: CertificateInfo, it2: u8, v2: Vote)
    requires
        !cert_matches(e, it2, v2),
    ensures
        spec_cert_for(s.push(e), it2, v2) == spec_cert_for(s, it2, v2),
    decreases s.len(),
{
    if s.len() == 0 {
        assert(s.push(e)[0] == e);
        assert(s.push(e).drop_first() =~= Seq::<CertificateInfo>::empty());
        assert(spec_cert_for(s.push(e).drop_first(), it2, v2) is None);
    } else {
        assert(s.push(e)[0] == s[0]);
        if !cert_matches(s[0], it2, v2) {
            assert(s.push(e).drop_first() =~= s.drop_first().push(e));
            lemma_cert_push_other(s.drop_first(), e, it2, v2);
        }
    }
}

/// Updating the first matching slot with a slot that still matches makes it
/// what the spec lookup names.
proof fn lemma_cert_update_match(
    s: Seq<CertificateInfo>,
    s2: Seq<CertificateInfo>,
    iteration: u8,
    vote: Vote,
    i: int,
)
    requires
        0 <= i < s.len(),
        s2 =~= s.update(i, s2[i]),
        s2.len() == s.len(),
        cert_matches(s[i], iteration, vote),
        cert_matches(s2[i], iteration, vote),
        forall|j: int| 0 <= j < i ==> !cert_matches(s[j], iteration, vote),
    ensures
        spec_cert_for(s2, iteration, vote) == Some(s2[i]),
{
    lemma_cert_first_match(s2, iteration, vote, i);
}

} // verus!
