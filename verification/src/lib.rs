//! Core of a two-phase BFT consensus round: message handlers for the
//! Validation and Ratification steps, a weighted vote aggregator over BLS
//! signatures, a round-wide step-votes registry that assembles certificates,
//! block-header certificate checks, and the node's commit-tip state.

pub mod aggregator;
pub mod bitset;
pub mod bls;
pub mod bytes_util;
pub mod committee;
pub mod error;
pub mod header_validation;
pub mod ledger;
pub mod message;
pub mod ratification;
pub mod registry;
pub mod round;
pub mod state;
pub mod step;
pub mod validation;
pub mod verifiers;
pub mod vote;
