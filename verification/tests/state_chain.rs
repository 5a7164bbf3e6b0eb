//! The commit-tip state: reverts, epoch boundaries, commit pruning, gas
//! settlement and consistency checks.

use consensus_core::state::{
    check_consistency, commit_from_bytes, plan_transaction, spend_transaction, Rusk, StateError,
    TxDecision, VerificationOutput, EPOCH,
};

fn commit(i: u8) -> [u8; 32] {
    let mut c = [0u8; 32];
    c[0] = i;
    c
}

#[test]
fn revert_to_known_commit() {
    let mut rusk = Rusk::new(commit(1), None, vec![commit(1), commit(2), commit(3)]);
    assert_eq!(rusk.state_root(), commit(1));
    assert_eq!(rusk.base_root(), commit(1));
    assert_eq!(rusk.epoch_root(), None);
    assert_eq!(rusk.revert(commit(3)), Ok(commit(3)));
    assert_eq!(rusk.state_root(), commit(3));
    assert_eq!(rusk.base_root(), commit(1), "revert keeps the base");
}

#[test]
fn revert_to_unknown_commit_fails() {
    let mut rusk = Rusk::new(commit(1), None, vec![commit(1)]);
    assert_eq!(rusk.revert(commit(9)), Err(StateError::CommitNotFound(commit(9))));
    assert_eq!(rusk.state_root(), commit(1), "a failed revert changes nothing");
}

#[test]
fn revert_to_base_root_restores_base() {
    let mut rusk = Rusk::new(commit(1), None, vec![commit(1), commit(2)]);
    rusk.revert(commit(2)).unwrap();
    assert_eq!(rusk.revert_to_base_root(), Ok(commit(1)));
    assert_eq!(rusk.state_root(), commit(1));
}

#[test]
fn revert_to_epoch_root_moves_base() {
    let mut rusk = Rusk::new(commit(1), Some(commit(5)), vec![commit(1), commit(5)]);
    assert_eq!(rusk.revert_to_epoch_root(), Ok(commit(5)));
    assert_eq!(rusk.state_root(), commit(5));
    assert_eq!(rusk.base_root(), commit(5), "the epoch commit becomes the base");

    let mut none = Rusk::new(commit(1), None, vec![commit(1)]);
    assert_eq!(none.revert_to_epoch_root(), Err(StateError::LastEpochNotFound));
}

#[test]
fn set_current_commit_marks_epoch_boundary() {
    let mut rusk = Rusk::new(commit(1), None, vec![commit(1)]);
    assert!(!rusk.set_current_commit(commit(2), EPOCH - 1));
    assert_eq!(rusk.state_root(), commit(2));
    assert_eq!(rusk.epoch_root(), None);
    assert!(rusk.set_current_commit(commit(3), 2 * EPOCH));
    assert_eq!(rusk.epoch_root(), Some(commit(3)));
}

#[test]
fn set_base_and_delete_prunes_commits() {
    let mut rusk = Rusk::new(
        commit(1),
        None,
        vec![commit(1), commit(2), commit(3), commit(4)],
    );
    rusk.revert(commit(2)).unwrap();
    // keep the previous current (2), the previous base (1) and the new
    // commit (4); delete 3
    let (deleted, epoch) = rusk.set_base_and_delete(commit(4), 1);
    assert!(!epoch);
    assert_eq!(deleted, vec![commit(3)]);
    assert_eq!(rusk.state_root(), commit(4));
    assert_eq!(rusk.base_root(), commit(4));
}

#[test]
fn commit_bytes_need_exactly_32() {
    assert_eq!(commit_from_bytes(&vec![7u8; 32]), Ok([7u8; 32]));
    assert_eq!(commit_from_bytes(&vec![7u8; 31]), Err(StateError::MalformedCommitBytes));
    assert_eq!(commit_from_bytes(&vec![7u8; 33]), Err(StateError::MalformedCommitBytes));
}

#[test]
fn consistency_check_compares_outputs() {
    let a = VerificationOutput { state_root: commit(1), event_hash: commit(2) };
    let b = VerificationOutput { state_root: commit(1), event_hash: commit(3) };
    assert_eq!(check_consistency(&None, &a), Ok(()));
    assert_eq!(check_consistency(&Some(a), &a), Ok(()));
    assert_eq!(check_consistency(&Some(b), &a), Err(StateError::InconsistentState(a)));
}

#[test]
fn block_building_decisions() {
    // a failed execution is discarded and charges nothing
    assert_eq!(plan_transaction(100, 0, &None, 2), (TxDecision::Discard, 100, 0));
    // 30 gas at price 2 within a budget of 100: included, 70 left, 60 charged
    assert_eq!(plan_transaction(100, 10, &Some(30), 2), (TxDecision::Include, 70, 70));
    // over the remaining budget: skipped, nothing charged
    assert_eq!(plan_transaction(20, 10, &Some(30), 2), (TxDecision::SkipOverLimit, 20, 10));
}

#[test]
fn gas_settlement() {
    // 100 gas left, 3 gas at price 2: 97 left, 6 charged
    assert_eq!(spend_transaction(100, 10, 3, 2), Ok((97, 16)));
    // spending more than the block has left is out of gas
    assert_eq!(spend_transaction(2, 0, 3, 1), Err(StateError::OutOfGas));
    // exact spend empties the budget
    assert_eq!(spend_transaction(3, 0, 3, 0), Ok((0, 0)));
}
