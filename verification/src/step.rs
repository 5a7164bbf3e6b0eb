//! Step and iteration numbering.
//!
//! A round runs a sequence of iterations; each iteration has three steps in a
//! fixed order: Proposal, Validation, Ratification. The global step number is
//! `iteration * 3 + kind`, and this encoding appears in signed message bytes,
//! so it must be the same on every node.

use vstd::prelude::*;

verus! {

/// How many steps one iteration holds.
pub const STEPS_PER_ITERATION: u8 = 3;

/// The largest iteration whose steps still fit in a `u8` step number.
pub const MAX_ITERATION: u8 = 84;

/// The kind of a step within an iteration.
#[derive(Clone, Copy, PartialEq, Eq, Structural, Debug)]
pub enum StepName {
    Proposal,
    Validation,
    Ratification,
}

/// The position of a step kind within its iteration.
pub open spec fn step_offset(name: StepName) -> int {
    match name {
        StepName::Proposal => 0,
        StepName::Validation => 1,
        StepName::Ratification => 2,
    }
}

/// The wire tag of a step kind, equal to its offset.
pub fn step_name_tag(name: StepName) -> (r: u8)
    ensures
        r == step_offset(name),
{
    match name {
        StepName::Proposal => 0,
        StepName::Validation => 1,
        StepName::Ratification => 2,
    }
}

/// The global step number of the given kind within the given iteration.
pub fn step_from_name(iteration: u8, name: StepName) -> (r: u8)
    requires
        iteration <= MAX_ITERATION,
    ensures
        r == iteration * 3 + step_offset(name),
{
    iteration * 3 + step_name_tag(name)
}

/// The iteration that a global step number belongs to.
pub fn iteration_from_step(step: u8) -> (r: u8)
    ensures
        r == step / 3,
{
    step / 3
}

/// Encoding and decoding of step numbers invert each other: the iteration is
/// recovered from any of its three step numbers.
pub proof fn lemma_step_encoding_inverts(iteration: u8, name: StepName)
    requires
        iteration <= MAX_ITERATION,
    ensures
        (iteration * 3 + step_offset(name)) / 3 == iteration,
{
    let o = step_offset(name);
    assert(0 <= o < 3);
    assert((iteration * 3 + o) / 3 == iteration) by (nonlinear_arith)
        requires
            0 <= o < 3,
            0 <= iteration,
    ;
}

} // verus!
