use vstd::prelude::*;

verus! {

/// Errors returned by the fund accounting.
#[derive(Debug, PartialEq, Eq)]
pub enum ContractError {
    /// A refusal described by a message.
    Generic { err: String },
    /// A deduction exceeded the funds held in a denomination.
    InsufficientFunds {},
}

/// `r` is a `Generic` error whose message is `message`.
pub open spec fn is_generic_err(r: Result<(), ContractError>, message: Seq<char>) -> bool {
    match r {
        Err(ContractError::Generic { err }) => err@ == message,
        _ => false,
    }
}

impl ContractError {
    /// A `Generic` error carrying the message `err`.
    pub fn new(err: &str) -> (r: ContractError)
        ensures
            r matches ContractError::Generic { err: e } && e@ == err@,
    {
        ContractError::Generic { err: err.to_owned() }
    }
}

} // verus!
