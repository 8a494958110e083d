use vstd::prelude::*;

use crate::mediator::{Mediator, MediatorError};

verus! {

/// What became of a request whose completion a callback reports.
#[derive(PartialEq, Eq, Structural, Clone, Copy, Debug)]
pub enum PromiseOutcome {
    Successful,
    Failed,
    NotReady,
}

/// Verdict on a callback: only the contract itself may call it, and it must
/// carry exactly one result, a successful one.
pub open spec fn callback_verdict(
    predecessor: Seq<char>,
    current: Seq<char>,
    results: Seq<PromiseOutcome>,
) -> Result<(), MediatorError> {
    if predecessor != current {
        Err(MediatorError::Unauthorized)
    } else if results.len() != 1 {
        Err(MediatorError::CallbackResultMissing)
    } else if results[0] != PromiseOutcome::Successful {
        Err(MediatorError::CallbackFailed)
    } else {
        Ok(())
    }
}

/// Checks a callback invoked by `predecessor` on the contract `current`,
/// with the results of the requests it completes.
pub fn check_callback(
    predecessor: &String,
    current: &String,
    results: &Vec<PromiseOutcome>,
) -> (r: Result<(), MediatorError>)
    ensures
        r == callback_verdict(predecessor@, current@, results@),
{
    if *predecessor != *current {
        Err(MediatorError::Unauthorized)
    } else if results.len() != 1 {
        Err(MediatorError::CallbackResultMissing)
    } else if results[0] != PromiseOutcome::Successful {
        Err(MediatorError::CallbackFailed)
    } else {
        Ok(())
    }
}

impl Mediator {
    /// Confirmation that the custodian accepted a newly opened dispute.
    pub fn on_validate_dispute(
        &self,
        predecessor: &String,
        current: &String,
        results: &Vec<PromiseOutcome>,
    ) -> (r: Result<(), MediatorError>)
        ensures
            r == callback_verdict(predecessor@, current@, results@),
    {
        check_callback(predecessor, current, results)
    }

    /// Confirmation that the custodian released the service `_service_id`.
    pub fn on_return_service(
        _service_id: u64,
        predecessor: &String,
        current: &String,
        results: &Vec<PromiseOutcome>,
    ) -> (r: Result<(), MediatorError>)
        ensures
            r == callback_verdict(predecessor@, current@, results@),
    {
        check_callback(predecessor, current, results)
    }
}

} // verus!
