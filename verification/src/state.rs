//! The node's commit-tip state: which state commits exist, which one is
//! current, which one is the base, and the last epoch commit. The caller
//! performs the disk and virtual-machine work (reading and writing commit
//! files, deleting commits) with the plain values these functions hand out.

use vstd::prelude::*;

use crate::bytes_util::hash_eq;

verus! {

/// How many blocks one epoch holds.
pub const EPOCH: u64 = 2160;

/// What executing a block settles on: the resulting state root and the hash
/// of the emitted events.
#[derive(Clone, Copy, Debug, PartialEq, Eq)]
pub struct VerificationOutput {
    pub state_root: [u8; 32],
    pub event_hash: [u8; 32],
}

/// Why a state operation was refused.
#[derive(Clone, Copy, Debug, PartialEq, Eq)]
pub enum StateError {
    CommitNotFound([u8; 32]),
    LastEpochNotFound,
    InconsistentState(VerificationOutput),
    OutOfGas,
    MalformedCommitBytes,
}

/// The tip of the node's state: the current commit, the base commit, and
/// the last epoch commit if one was recorded.
#[derive(Clone, Copy, Debug, PartialEq, Eq)]
pub struct RuskTip {
    pub current: [u8; 32],
    pub base: [u8; 32],
    pub epoch: Option<[u8; 32]>,
}

/// Whether the list of commits holds this hash.
pub open spec fn spec_commits_contain(s: Seq<[u8; 32]>, h: Seq<u8>) -> bool {
    exists|k: int| 0 <= k < s.len() && (#[trigger] s[k])@ =~= h
}

/// Whether a commit is one the tip still needs: the previous current, the
/// previous base, or the commit being set.
pub open spec fn spec_commit_kept(tip: RuskTip, commit: [u8; 32], h: Seq<u8>) -> bool {
    h =~= tip.current@ || h =~= tip.base@ || h =~= commit@
}

/// The commit-tip state of the node; `commits` mirrors the commits the
/// caller's store holds.
#[derive(Debug)]
pub struct Rusk {
    pub tip: RuskTip,
    pub commits: Vec<[u8; 32]>,
}

impl Rusk {
    /// A state whose current and base commit both start at the given base.
    pub fn new(base_commit: [u8; 32], epoch: Option<[u8; 32]>, commits: Vec<[u8; 32]>) -> (r: Rusk)
        ensures
            r.tip.current == base_commit,
            r.tip.base == base_commit,
            r.tip.epoch == epoch,
            r.commits == commits,
    {
        Rusk { tip: RuskTip { current: base_commit, base: base_commit, epoch }, commits }
    }

    /// True iff the store holds this commit.
    fn commits_contain(&self, h: &[u8; 32]) -> (r: bool)
        ensures
            r == spec_commits_contain(self.commits@, h@),
    {
        let n = self.commits.len();
        let mut k: usize = 0;
        while k < n
            invariant
                n == self.commits@.len(),
                k <= n,
                forall|m: int| 0 <= m < k ==> !((#[trigger] self.commits@[m])@ =~= h@),
            decreases n - k,
        {
            if hash_eq(&self.commits[k], h) {
                return true;
            }
            k += 1;
        }
        false
    }

    /// Moves the current commit back to a known state hash; fails with
    /// `CommitNotFound` exactly when the store does not hold it, changing
    /// nothing.
    pub fn revert(&mut self, state_hash: [u8; 32]) -> (r: Result<[u8; 32], StateError>)
        ensures
            spec_commits_contain(old(self).commits@, state_hash@) ==> (r matches Ok(h) && h
                == state_hash && final(self).tip.current == state_hash && final(self).tip.base
                == old(self).tip.base && final(self).tip.epoch == old(self).tip.epoch && final(self).commits == old(self).commits),
            !spec_commits_contain(old(self).commits@, state_hash@) ==> (r matches Err(e) && e
                == StateError::CommitNotFound(state_hash) && *final(self) == *old(self)),
    {
        if !self.commits_contain(&state_hash) {
            return Err(StateError::CommitNotFound(state_hash));
        }
        self.tip.current = state_hash;
        Ok(state_hash)
    }

    /// Moves the current commit back to the base commit.
    pub fn revert_to_base_root(&mut self) -> (r: Result<[u8; 32], StateError>)
        ensures
            spec_commits_contain(old(self).commits@, old(self).tip.base@) ==> (r matches Ok(h) && h
                == old(self).tip.base && final(self).tip.current == old(self).tip.base && final(self).tip.base == old(self).tip.base && final(self).tip.epoch == old(self).tip.epoch
                && final(self).commits == old(self).commits),
            !spec_commits_contain(old(self).commits@, old(self).tip.base@) ==> (r matches Err(e)
                && e == StateError::CommitNotFound(old(self).tip.base) && *final(self) == *old(self)),
    {
        let base = self.base_root();
        self.revert(base)
    }

    /// Moves both the current and the base commit back to the last epoch
    /// commit; the caller persists the returned commit as the new base.
    /// Fails with `LastEpochNotFound` when no epoch commit was recorded, and
    /// with `CommitNotFound` when the store no longer holds it.
    pub fn revert_to_epoch_root(&mut self) -> (r: Result<[u8; 32], StateError>)
        ensures
            old(self).tip.epoch is None ==> (r matches Err(e) && e == StateError::LastEpochNotFound
                && *final(self) == *old(self)),
            old(self).tip.epoch matches Some(ec) ==> (if spec_commits_contain(
                old(self).commits@,
                ec@,
            ) {
                r matches Ok(h) && h == ec && final(self).tip.current == ec && final(self).tip.base == ec && final(self).tip.epoch == old(self).tip.epoch && final(self).commits == old(self).commits
            } else {
                r matches Err(e) && e == StateError::CommitNotFound(ec) && *final(self) == *old(self)
            }),
    {
        let epoch_commit = match self.tip.epoch {
            Some(ec) => ec,
            None => {
                return Err(StateError::LastEpochNotFound);
            },
        };
        if !self.commits_contain(&epoch_commit) {
            return Err(StateError::CommitNotFound(epoch_commit));
        }
        self.tip.current = epoch_commit;
        self.tip.base = epoch_commit;
        Ok(epoch_commit)
    }

    /// The base commit.
    pub fn base_root(&self) -> (r: [u8; 32])
        ensures
            r == self.tip.base,
    {
        self.tip.base
    }

    /// The current state commit.
    pub fn state_root(&self) -> (r: [u8; 32])
        ensures
            r == self.tip.current,
    {
        self.tip.current
    }

    /// The latest known epoch commit.
    pub fn epoch_root(&self) -> (r: Option<[u8; 32]>)
        ensures
            r == self.tip.epoch,
    {
        self.tip.epoch
    }

    /// Makes a commit current; on an epoch boundary it also becomes the
    /// epoch commit, and the result tells the caller to persist it as such.
    pub fn set_current_commit(&mut self, commit: [u8; 32], block_height: u64) -> (r: bool)
        ensures
            r == (block_height % EPOCH == 0),
            final(self).tip.current == commit,
            final(self).tip.base == old(self).tip.base,
            final(self).tip.epoch == if r {
                Some(commit)
            } else {
                old(self).tip.epoch
            },
            final(self).commits == old(self).commits,
    {
        let epoch_boundary = block_height % EPOCH == 0;
        if epoch_boundary {
            self.tip.epoch = Some(commit);
        }
        self.tip.current = commit;
        epoch_boundary
    }

    /// Makes a commit both current and base, keeps only the commits the tip
    /// still needs, and returns the ones to delete; the second result tells
    /// the caller to persist the commit as the epoch commit.
    pub fn set_base_and_delete(&mut self, commit: [u8; 32], block_height: u64) -> (r: (
        Vec<[u8; 32]>,
        bool,
    ))
        ensures
            r.1 == (block_height % EPOCH == 0),
            final(self).tip.current == commit,
            final(self).tip.base == commit,
            final(self).tip.epoch == if r.1 {
                Some(commit)
            } else {
                old(self).tip.epoch
            },
            forall|h: Seq<u8>|
                spec_commits_contain(final(self).commits@, h) == (spec_commits_contain(
                    old(self).commits@,
                    h,
                ) && spec_commit_kept(old(self).tip, commit, h)),
            forall|h: Seq<u8>|
                spec_commits_contain(r.0@, h) == (spec_commits_contain(old(self).commits@, h)
                    && !spec_commit_kept(old(self).tip, commit, h)),
    {
        let epoch_boundary = block_height % EPOCH == 0;
        if epoch_boundary {
            self.tip.epoch = Some(commit);
        }
        let current_commit = self.tip.current;
        let base_commit = self.tip.base;
        self.tip.current = commit;
        self.tip.base = commit;
        let n = self.commits.len();
        let mut kept: Vec<[u8; 32]> = Vec::new();
        let mut deleted: Vec<[u8; 32]> = Vec::new();
        let mut k: usize = 0;
        while k < n
            invariant
                n == self.commits@.len(),
                k <= n,
                forall|h: Seq<u8>|
                    spec_commits_contain(kept@, h) == (spec_commits_contain(
                        self.commits@.take(k as int),
                        h,
                    ) && spec_commit_kept(old(self).tip, commit, h)),
                forall|h: Seq<u8>|
                    spec_commits_contain(deleted@, h) == (spec_commits_contain(
                        self.commits@.take(k as int),
                        h,
                    ) && !spec_commit_kept(old(self).tip, commit, h)),
                current_commit == old(self).tip.current,
                base_commit == old(self).tip.base,
                self.commits@ == old(self).commits@,
            decreases n - k,
        {
            let c = self.commits[k];
            let ghost kept_old = kept@;
            let ghost deleted_old = deleted@;
            if hash_eq(&c, &current_commit) || hash_eq(&c, &base_commit) || hash_eq(&c, &commit) {
                kept.push(c);
            } else {
                deleted.push(c);
            }
            proof {
                lemma_commit_partition_step(
                    self.commits@,
                    kept_old,
                    deleted_old,
                    kept@,
                    deleted@,
                    old(self).tip,
                    commit,
                    k as int,
                );
            }
            k += 1;
        }
        proof {
            assert(self.commits@.take(n as int) =~= self.commits@);
        }
        self.commits = kept;
        (deleted, epoch_boundary)
    }
}

/// One partition step: after sorting one more commit into `kept` or
/// `deleted`, both lists still hold exactly what the prefix one longer
/// gives them.
proof fn lemma_commit_partition_step(
    commits: Seq<[u8; 32]>,
    kept_old: Seq<[u8; 32]>,
    deleted_old: Seq<[u8; 32]>,
    kept: Seq<[u8; 32]>,
    deleted: Seq<[u8; 32]>,
    tip: RuskTip,
    commit: [u8; 32],
    k: int,
)
    requires
        0 <= k < commits.len(),
        forall|h: Seq<u8>|
            spec_commits_contain(kept_old, h) == (spec_commits_contain(commits.take(k), h)
                && spec_commit_kept(tip, commit, h)),
        forall|h: Seq<u8>|
            spec_commits_contain(deleted_old, h) == (spec_commits_contain(commits.take(k), h)
                && !spec_commit_kept(tip, commit, h)),
        spec_commit_kept(tip, commit, commits[k]@) ==> kept == kept_old.push(commits[k])
            && deleted == deleted_old,
        !spec_commit_kept(tip, commit, commits[k]@) ==> deleted == deleted_old.push(commits[k])
            && kept == kept_old,
    ensures
        forall|h: Seq<u8>|
            spec_commits_contain(kept, h) == (spec_commits_contain(commits.take(k + 1), h)
                && spec_commit_kept(tip, commit, h)),
        forall|h: Seq<u8>|
            spec_commits_contain(deleted, h) == (spec_commits_contain(commits.take(k + 1), h)
                && !spec_commit_kept(tip, commit, h)),
{
    assert(commits.take(k + 1) =~= commits.take(k).push(commits[k]));
    assert forall|h: Seq<u8>|
        spec_commits_contain(kept, h) == (spec_commits_contain(commits.take(k + 1), h)
            && spec_commit_kept(tip, commit, h)) by {
        lemma_contain_push(commits.take(k), commits[k], h);
        if kept == kept_old.push(commits[k]) {
            lemma_contain_push(kept_old, commits[k], h);
        }
    }
    assert forall|h: Seq<u8>|
        spec_commits_contain(deleted, h) == (spec_commits_contain(commits.take(k + 1), h)
            && !spec_commit_kept(tip, commit, h)) by {
        lemma_contain_push(commits.take(k), commits[k], h);
        if deleted == deleted_old.push(commits[k]) {
            lemma_contain_push(deleted_old, commits[k], h);
        }
    }
}

/// Membership after a push: the pushed hash, or anything the list already
/// held.
proof fn lemma_contain_push(s: Seq<[u8; 32]>, c: [u8; 32], h: Seq<u8>)
    ensures
        spec_commits_contain(s.push(c), h) == (spec_commits_contain(s, h) || c@ =~= h),
{
    if spec_commits_contain(s, h) {
        let k = choose|k: int| 0 <= k < s.len() && (#[trigger] s[k])@ =~= h;
        assert(s.push(c)[k]@ =~= h);
    }
    if c@ =~= h {
        assert(s.push(c)[s.len() as int]@ =~= h);
    }
    if spec_commits_contain(s.push(c), h) {
        let k = choose|k: int| 0 <= k < s.push(c).len() && (#[trigger] s.push(c)[k])@ =~= h;
        if k < s.len() {
            assert(s[k]@ =~= h);
        }
    }
}

/// Reads a 32-byte commit out of raw bytes; fails exactly when the length
/// is not 32.
pub fn commit_from_bytes(bytes: &Vec<u8>) -> (r: Result<[u8; 32], StateError>)
    ensures
        (r is Ok) == (bytes@.len() == 32),
        r matches Ok(c) ==> c@ =~= bytes@,
        r matches Err(e) ==> e == StateError::MalformedCommitBytes,
{
    if bytes.len() != 32 {
        return Err(StateError::MalformedCommitBytes);
    }
    let mut commit = [0u8; 32];
    let mut i: usize = 0;
    while i < 32
        invariant
            bytes@.len() == 32,
            i <= 32,
            forall|j: int| 0 <= j < i ==> commit@[j] == bytes@[j],
        decreases 32 - i,
    {
        let b = bytes[i];
        commit[i] = b;
        i += 1;
    }
    Ok(commit)
}

/// Compares an expected verification output against the one execution
/// settled on; a `None` expectation disables the check. Fails exactly on a
/// mismatch, carrying the actual output.
pub fn check_consistency(expected: &Option<VerificationOutput>, actual: &VerificationOutput) -> (r:
    Result<(), StateError>)
    ensures
        expected is None ==> r is Ok,
        expected matches Some(e) ==> ((r is Ok) == (e.state_root@ =~= actual.state_root@
            && e.event_hash@ =~= actual.event_hash@)),
        r matches Err(err) ==> err == StateError::InconsistentState(*actual),
{
    match expected {
        None => Ok(()),
        Some(e) => {
            if hash_eq(&e.state_root, &actual.state_root) && hash_eq(
                &e.event_hash,
                &actual.event_hash,
            ) {
                Ok(())
            } else {
                Err(StateError::InconsistentState(*actual))
            }
        },
    }
}

/// What becomes of one transaction while a block is being built.
#[derive(Clone, Copy, Debug, PartialEq, Eq, Structural)]
pub enum TxDecision {
    Include,
    SkipOverLimit,
    Discard,
}

/// Decides one transaction outcome while building a block: a failed
/// execution is discarded; one that spent more than the block has left is
/// skipped, and the caller re-executes the block built so far; the rest are
/// included and charged. The gas left and the fee total come back updated
/// only for included transactions.
pub fn plan_transaction(
    block_gas_left: u64,
    dusk_spent: u64,
    executed_gas: &Option<u64>,
    gas_price: u64,
) -> (r: (TxDecision, u64, u64))
    requires
        executed_gas matches Some(g) ==> dusk_spent + *g * gas_price <= u64::MAX,
    ensures
        executed_gas is None ==> r == (TxDecision::Discard, block_gas_left, dusk_spent),
        executed_gas matches Some(g) ==> (*g > block_gas_left ==> r == (
            TxDecision::SkipOverLimit,
            block_gas_left,
            dusk_spent,
        )),
        executed_gas matches Some(g) ==> (*g <= block_gas_left ==> r == (
            TxDecision::Include,
            (block_gas_left - *g) as u64,
            (dusk_spent + *g * gas_price) as u64,
        )),
{
    match executed_gas {
        None => (TxDecision::Discard, block_gas_left, dusk_spent),
        Some(g) => {
            if *g > block_gas_left {
                (TxDecision::SkipOverLimit, block_gas_left, dusk_spent)
            } else {
                (TxDecision::Include, block_gas_left - *g, dusk_spent + *g * gas_price)
            }
        },
    }
}

/// Settles one executed transaction against the block's gas budget: takes
/// the spent gas out of what is left and adds the charged fee to the spent
/// total. Fails with `OutOfGas` exactly when the transaction spent more
/// than the block had left.
pub fn spend_transaction(
    block_gas_left: u64,
    dusk_spent: u64,
    gas_spent: u64,
    gas_price: u64,
) -> (r: Result<(u64, u64), StateError>)
    requires
        dusk_spent + gas_spent * gas_price <= u64::MAX,
    ensures
        (r is Ok) == (gas_spent <= block_gas_left),
        r matches Ok(out) ==> out.0 == block_gas_left - gas_spent && out.1 == dusk_spent
            + gas_spent * gas_price,
        r matches Err(e) ==> e == StateError::OutOfGas,
{
    let gas_left = match block_gas_left.checked_sub(gas_spent) {
        Some(g) => g,
        None => {
            return Err(StateError::OutOfGas);
        },
    };
    Ok((gas_left, dusk_spent + gas_spent * gas_price))
}

} // verus!
