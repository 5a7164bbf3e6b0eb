//! Validation checks over a candidate block header: its plain fields against
//! the previous header, and the certificates it carries against the recorded
//! committees. The caller supplies what only its stores know: whether the
//! block already exists, and the committees of the rounds involved.

use vstd::prelude::*;

use crate::bytes_util::{bytes_eq, hash_eq, is_zero_hash, zero_hash};
use crate::committee::{spec_committees_for, Committee, RoundCommittees};
use crate::ledger::{BlockHeader, Certificate, IterationCert};
use crate::step::StepName;
use crate::verifiers::{spec_votes_ok, verify_votes, QuorumResult};
use crate::vote::Vote;

verus! {

/// Why a candidate header was refused.
#[derive(Clone, Copy, Debug, PartialEq, Eq)]
pub enum HeaderError {
    UnsupportedVersion,
    EmptyBlockHash,
    InvalidBlockHeight,
    InvalidPrevBlockHash,
    BlockAlreadyExists,
    MissingCommittees,
    InvalidGenerator,
    InvalidCertValidation,
    InvalidCertRatification,
}

/// The vote a certificate attests: for the block of this hash, or that no
/// candidate was seen where the hash is all zeroes.
pub open spec fn spec_block_vote(h: [u8; 32]) -> Vote {
    if h@ =~= zero_hash() {
        Vote::NoCandidate
    } else {
        Vote::Valid(h)
    }
}

/// What the plain-field check answers: the first failing check names the
/// error, in a fixed order.
pub open spec fn spec_basic_fields(
    candidate: BlockHeader,
    prev: BlockHeader,
    block_exists: bool,
) -> Result<(), HeaderError> {
    if candidate.version > 0 {
        Err(HeaderError::UnsupportedVersion)
    } else if candidate.hash@ =~= zero_hash() {
        Err(HeaderError::EmptyBlockHash)
    } else if candidate.height != prev.height + 1 {
        Err(HeaderError::InvalidBlockHeight)
    } else if !(candidate.prev_block_hash@ =~= prev.hash@) {
        Err(HeaderError::InvalidPrevBlockHash)
    } else if block_exists {
        Err(HeaderError::BlockAlreadyExists)
    } else {
        Ok(())
    }
}

/// Verifies every non-certificate field of a candidate header against the
/// previous header; `block_exists` says whether the caller's ledger already
/// holds the candidate's hash.
pub fn verify_basic_fields(candidate: &BlockHeader, prev: &BlockHeader, block_exists: bool) -> (r:
    Result<(), HeaderError>)
    ensures
        (r is Ok) == (spec_basic_fields(*candidate, *prev, block_exists) is Ok),
        r matches Err(e) ==> (spec_basic_fields(*candidate, *prev, block_exists) matches Err(e2)
            && e == e2),
{
    if candidate.version > 0 {
        return Err(HeaderError::UnsupportedVersion);
    }
    if is_zero_hash(&candidate.hash) {
        return Err(HeaderError::EmptyBlockHash);
    }
    if !(prev.height < u64::MAX && candidate.height == prev.height + 1) {
        return Err(HeaderError::InvalidBlockHeight);
    }
    if !hash_eq(&candidate.prev_block_hash, &prev.hash) {
        return Err(HeaderError::InvalidPrevBlockHash);
    }
    if block_exists {
        return Err(HeaderError::BlockAlreadyExists);
    }
    Ok(())
}

/// What verifying one certificate answers: both step-vote records must pass
/// `verify_votes` over the block's vote against their committees.
pub open spec fn spec_cert_result(
    validation_committee: Committee,
    ratification_committee: Committee,
    block_hash: [u8; 32],
    round: u64,
    iteration: u8,
    cert: Certificate,
    enable_quorum_check: bool,
) -> Result<(), HeaderError> {
    let vote = spec_block_vote(block_hash);
    if !spec_votes_ok(
        block_hash@,
        cert.validation.bitset,
        cert.validation.aggregate_signature@,
        validation_committee,
        round,
        iteration,
        StepName::Validation,
        vote,
        enable_quorum_check,
    ) {
        Err(HeaderError::InvalidCertValidation)
    } else if !spec_votes_ok(
        block_hash@,
        cert.ratification.bitset,
        cert.ratification.aggregate_signature@,
        ratification_committee,
        round,
        iteration,
        StepName::Ratification,
        vote,
        enable_quorum_check,
    ) {
        Err(HeaderError::InvalidCertRatification)
    } else {
        Ok(())
    }
}

/// Verifies a block certificate: the validation and the ratification record
/// must each pass `verify_votes` against their committee; the returned pair
/// reports the summed weights against the quorum thresholds.
pub fn verify_block_cert(
    validation_committee: &Committee,
    ratification_committee: &Committee,
    block_hash: &[u8; 32],
    round: u64,
    iteration: u8,
    cert: &Certificate,
    enable_quorum_check: bool,
) -> (r: Result<(QuorumResult, QuorumResult), HeaderError>)
    requires
        validation_committee.wf(),
        ratification_committee.wf(),
    ensures
        (r is Ok) == (spec_cert_result(
            *validation_committee,
            *ratification_committee,
            *block_hash,
            round,
            iteration,
            *cert,
            enable_quorum_check,
        ) is Ok),
        r matches Err(e) ==> (spec_cert_result(
            *validation_committee,
            *ratification_committee,
            *block_hash,
            round,
            iteration,
            *cert,
            enable_quorum_check,
        ) matches Err(e2) && e == e2),
        r matches Ok(q) ==> q.0.total == crate::committee::sum_weights(
            validation_committee.members@,
            cert.validation.bitset,
        ) && q.0.target_quorum == validation_committee.quorum_threshold && q.1.total
            == crate::committee::sum_weights(
            ratification_committee.members@,
            cert.ratification.bitset,
        ) && q.1.target_quorum == ratification_committee.quorum_threshold,
{
    let vote = if is_zero_hash(block_hash) {
        Vote::NoCandidate
    } else {
        Vote::Valid(*block_hash)
    };
    let qv = match verify_votes(
        block_hash,
        cert.validation.bitset,
        &cert.validation.aggregate_signature,
        validation_committee,
        round,
        iteration,
        StepName::Validation,
        &vote,
        enable_quorum_check,
    ) {
        Ok(q) => q,
        Err(_) => {
            return Err(HeaderError::InvalidCertValidation);
        },
    };
    let qr = match verify_votes(
        block_hash,
        cert.ratification.bitset,
        &cert.ratification.aggregate_signature,
        ratification_committee,
        round,
        iteration,
        StepName::Ratification,
        &vote,
        enable_quorum_check,
    ) {
        Ok(q) => q,
        Err(_) => {
            return Err(HeaderError::InvalidCertRatification);
        },
    };
    Ok((qv, qr))
}

/// What verifying the winning certificate answers: the candidate
/// iteration's committees must be recorded and its certificate must pass.
pub open spec fn spec_winning_result(candidate: BlockHeader, rc: RoundCommittees) -> Result<
    (),
    HeaderError,
> {
    match spec_committees_for(rc.entries@, candidate.iteration) {
        Some(e) => spec_cert_result(
            e.validation,
            e.ratification,
            candidate.hash,
            candidate.height,
            candidate.iteration,
            candidate.cert,
            true,
        ),
        None => Err(HeaderError::MissingCommittees),
    }
}

/// Verifies the candidate's own certificate against the committees of its
/// iteration, quorum check on.
pub fn verify_winning_cert(candidate: &BlockHeader, round_committees: &RoundCommittees) -> (r:
    Result<(), HeaderError>)
    requires
        round_committees.wf(),
    ensures
        (r is Ok) == (spec_winning_result(*candidate, *round_committees) is Ok),
        r matches Err(e) ==> (spec_winning_result(*candidate, *round_committees) matches Err(e2)
            && e == e2),
{
    let entry = match round_committees.entry_for(candidate.iteration) {
        Some(e) => e,
        None => {
            return Err(HeaderError::MissingCommittees);
        },
    };
    proof {
        crate::committee::lemma_committees_for_element(
            round_committees.entries@,
            candidate.iteration,
        );
        let e = spec_committees_for(round_committees.entries@, candidate.iteration).unwrap();
        let k = choose|k: int|
            0 <= k < round_committees.entries@.len() && round_committees.entries@[k] == e;
        assert(round_committees.entries@[k].wf());
    }
    match verify_block_cert(
        &entry.validation,
        &entry.ratification,
        &candidate.hash,
        candidate.height,
        candidate.iteration,
        &candidate.cert,
        true,
    ) {
        Ok(_) => Ok(()),
        Err(e) => Err(e),
    }
}

/// What verifying the previous block's certificate answers: nothing at the
/// genesis height; otherwise the previous iteration's committees must be
/// recorded and the carried certificate must pass over the previous header.
pub open spec fn spec_prev_cert_result(
    candidate: BlockHeader,
    prev: BlockHeader,
    prev_rc: RoundCommittees,
) -> Result<(), HeaderError> {
    if prev.height == 0 {
        Ok(())
    } else {
        match spec_committees_for(prev_rc.entries@, prev.iteration) {
            Some(e) => spec_cert_result(
                e.validation,
                e.ratification,
                prev.hash,
                prev.height,
                prev.iteration,
                candidate.prev_block_cert,
                true,
            ),
            None => Err(HeaderError::MissingCommittees),
        }
    }
}

/// Verifies the certificate the candidate carries for the previous block,
/// against the previous round's committees.
pub fn verify_prev_block_cert(
    candidate: &BlockHeader,
    prev: &BlockHeader,
    prev_round_committees: &RoundCommittees,
) -> (r: Result<(), HeaderError>)
    requires
        prev_round_committees.wf(),
    ensures
        (r is Ok) == (spec_prev_cert_result(*candidate, *prev, *prev_round_committees) is Ok),
        r matches Err(e) ==> (spec_prev_cert_result(
            *candidate,
            *prev,
            *prev_round_committees,
        ) matches Err(e2) && e == e2),
{
    if prev.height == 0 {
        return Ok(());
    }
    let entry = match prev_round_committees.entry_for(prev.iteration) {
        Some(e) => e,
        None => {
            return Err(HeaderError::MissingCommittees);
        },
    };
    proof {
        crate::committee::lemma_committees_for_element(
            prev_round_committees.entries@,
            prev.iteration,
        );
        let e = spec_committees_for(prev_round_committees.entries@, prev.iteration).unwrap();
        let k = choose|k: int|
            0 <= k < prev_round_committees.entries@.len() && prev_round_committees.entries@[k]
                == e;
        assert(prev_round_committees.entries@[k].wf());
    }
    match verify_block_cert(
        &entry.validation,
        &entry.ratification,
        &prev.hash,
        prev.height,
        prev.iteration,
        &candidate.prev_block_cert,
        true,
    ) {
        Ok(_) => Ok(()),
        Err(e) => Err(e),
    }
}

/// What checking one failed-iteration slot answers over the remaining
/// slots, given what the earlier slots established: an empty slot clears
/// the attestation; a recorded one must name the recorded generator and
/// carry a certificate that passes with the quorum check on.
pub open spec fn spec_failed_from(
    s: Seq<Option<IterationCert>>,
    rc: RoundCommittees,
    height: u64,
    i: int,
    acc: bool,
) -> Result<bool, HeaderError>
    decreases s.len() - i,
{
    if i < 0 || i >= s.len() {
        Ok(acc)
    } else {
        match s[i] {
            None => spec_failed_from(s, rc, height, i + 1, false),
            Some(ic) => match spec_committees_for(rc.entries@, i as u8) {
                None => Err(HeaderError::MissingCommittees),
                Some(e) => if !(ic.generator@ =~= e.generator@) {
                    Err(HeaderError::InvalidGenerator)
                } else {
                    match spec_cert_result(
                        e.validation,
                        e.ratification,
                        crate::bytes_util::spec_zero_hash_value(),
                        height,
                        i as u8,
                        ic.cert,
                        true,
                    ) {
                        Err(err) => Err(err),
                        Ok(_) => spec_failed_from(s, rc, height, i + 1, acc),
                    }
                },
            },
        }
    }
}

/// Verifies the certificates of the candidate's failed iterations: each
/// recorded one must name its iteration's recorded generator and carry a
/// certificate that reaches both quorums over the zero hash; the result says
/// whether every failed iteration was attested.
pub fn verify_failed_iterations(candidate: &BlockHeader, round_committees: &RoundCommittees) -> (r:
    Result<bool, HeaderError>)
    requires
        round_committees.wf(),
        candidate.failed_iterations@.len() <= 255,
    ensures
        r == spec_failed_from(
            candidate.failed_iterations@,
            *round_committees,
            candidate.height,
            0,
            true,
        ),
{
    let s = &candidate.failed_iterations;
    let n = s.len();
    let mut attested = true;
    let mut i: usize = 0;
    while i < n
        invariant
            round_committees.wf(),
            n == s@.len() <= 255,
            s@ == candidate.failed_iterations@,
            i <= n,
            spec_failed_from(s@, *round_committees, candidate.height, 0, true)
                == spec_failed_from(s@, *round_committees, candidate.height, i as int, attested),
        decreases n - i,
    {
        match &s[i] {
            None => {
                attested = false;
            },
            Some(ic) => {
                let entry = match round_committees.entry_for(i as u8) {
                    Some(e) => e,
                    None => {
                        return Err(HeaderError::MissingCommittees);
                    },
                };
                proof {
                    crate::committee::lemma_committees_for_element(
                        round_committees.entries@,
                        i as u8,
                    );
                    let e = spec_committees_for(round_committees.entries@, i as u8).unwrap();
                    let k = choose|k: int|
                        0 <= k < round_committees.entries@.len() && round_committees.entries@[k]
                            == e;
                    assert(round_committees.entries@[k].wf());
                }
                if !bytes_eq(&ic.generator, &entry.generator) {
                    return Err(HeaderError::InvalidGenerator);
                }
                match verify_block_cert(
                    &entry.validation,
                    &entry.ratification,
                    &[0u8; 32],
                    candidate.height,
                    i as u8,
                    &ic.cert,
                    true,
                ) {
                    Ok(_) => {},
                    Err(e) => {
                        return Err(e);
                    },
                };
            },
        }
        i += 1;
    }
    Ok(attested)
}

/// What the whole header check answers: the four checks in order, the first
/// failure naming the error.
pub open spec fn spec_execute_checks(
    candidate: BlockHeader,
    prev: BlockHeader,
    block_exists: bool,
    rc: RoundCommittees,
    prev_rc: RoundCommittees,
    disable_winner_cert_check: bool,
) -> Result<bool, HeaderError> {
    match spec_basic_fields(candidate, prev, block_exists) {
        Err(e) => Err(e),
        Ok(_) => match spec_prev_cert_result(candidate, prev, prev_rc) {
            Err(e) => Err(e),
            Ok(_) => if !disable_winner_cert_check && spec_winning_result(candidate, rc) is Err {
                match spec_winning_result(candidate, rc) {
                    Err(e) => Err(e),
                    Ok(_) => Ok(true),
                }
            } else {
                spec_failed_from(candidate.failed_iterations@, rc, candidate.height, 0, true)
            },
        },
    }
}

/// Runs every check that makes a candidate header fully valid: the plain
/// fields, the previous block's certificate, the winning certificate
/// (unless disabled) and the failed-iteration certificates; the result says
/// whether every failed iteration was attested.
pub fn execute_checks(
    candidate: &BlockHeader,
    prev: &BlockHeader,
    block_exists: bool,
    round_committees: &RoundCommittees,
    prev_round_committees: &RoundCommittees,
    disable_winner_cert_check: bool,
) -> (r: Result<bool, HeaderError>)
    requires
        round_committees.wf(),
        prev_round_committees.wf(),
        candidate.failed_iterations@.len() <= 255,
    ensures
        r == spec_execute_checks(
            *candidate,
            *prev,
            block_exists,
            *round_committees,
            *prev_round_committees,
            disable_winner_cert_check,
        ),
{
    match verify_basic_fields(candidate, prev, block_exists) {
        Ok(_) => {},
        Err(e) => {
            return Err(e);
        },
    }
    match verify_prev_block_cert(candidate, prev, prev_round_committees) {
        Ok(_) => {},
        Err(e) => {
            return Err(e);
        },
    }
    if !disable_winner_cert_check {
        match verify_winning_cert(candidate, round_committees) {
            Ok(_) => {},
            Err(e) => {
                return Err(e);
            },
        }
    }
    verify_failed_iterations(candidate, round_committees)
}

} // verus!
