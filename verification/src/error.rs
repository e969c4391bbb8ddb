//! Failures of witness assignment.

use vstd::prelude::*;
use halo2_proofs::plonk::Error;
use crate::halo::{error_is_synthesis, is_synthesis};

verus! {

/// Why an assignment did not complete.
#[derive(Debug)]
pub enum RangeError {
    /// The framework asked for a witness value that the caller did not supply.
    MissingWitness,
    /// The framework refused an operation for a reason of its own.
    Circuit(Error),
}

/// How a refused assignment is reported: as a missing witness where no value
/// was supplied and the framework reports a synthesis failure, and as the
/// framework's own error otherwise.
pub open spec fn failure_of(witness_present: bool, error: Error) -> RangeError {
    if !witness_present && is_synthesis(error) {
        RangeError::MissingWitness
    } else {
        RangeError::Circuit(error)
    }
}

/// Classifies the error with which the framework refused an assignment.
pub fn assignment_failure(witness_present: bool, error: Error) -> (r: RangeError)
    ensures
        r == failure_of(witness_present, error),
{
    if !witness_present && error_is_synthesis(&error) {
        RangeError::MissingWitness
    } else {
        RangeError::Circuit(error)
    }
}

} // verus!
