//! The error taxonomy shared by the ledger, governance and settlement
//! operations. Every error aborts the whole enclosing operation: a
//! function that returns one of these leaves the state unchanged.

use vstd::prelude::*;

verus! {

/// Why an operation was refused. Each variant corresponds to one
/// rejection rule of the ledger, the governance engine or the
/// settlement protocol.
#[derive(Clone, Copy, Debug, PartialEq, Eq, Structural)]
pub enum Error {
    /// A required field is malformed or an argument is outside its
    /// permitted set (for example an unknown role name).
    ValidationError,
    /// The caller's role does not permit the operation.
    UnauthorizedError,
    /// The named proposal or account is not known.
    NotFoundError,
    /// The proposal has already left the `Open` state.
    AlreadyFinalizedError,
    /// The proposal's funds have already been moved.
    AlreadyExecutedError,
    /// The caller has already voted on this proposal.
    DuplicateVoteError,
    /// The proposal was not accepted, so it cannot be executed.
    NotAcceptedError,
    /// The identity is already present in the registry.
    AlreadyRegisteredError,
    /// A balance (or the unsold pool) is too small for the operation.
    InsufficientBalanceError,
    /// Required amount or target field is absent from the proposal.
    MissingFieldError,
    /// Unsigned arithmetic would exceed the 128-bit range.
    OverflowError,
    /// Settlement bookkeeping would drive the used amount below zero.
    SupplyOverflowError,
    /// A transfer to oneself, or of a zero amount.
    InvalidTransferError,
}

impl Error {
    /// A short human-readable description of the error kind.
    pub fn message(&self) -> (r: &'static str)
        ensures
            r@.len() > 0,
    {
        proof {
            reveal_strlit("invalid or malformed field");
            reveal_strlit("caller role does not permit this operation");
            reveal_strlit("unknown proposal or account");
            reveal_strlit("proposal is already finalized");
            reveal_strlit("proposal is already executed");
            reveal_strlit("caller has already voted");
            reveal_strlit("proposal is not accepted");
            reveal_strlit("account is already registered");
            reveal_strlit("not enough balance");
            reveal_strlit("required proposal field is absent");
            reveal_strlit("balance overflow");
            reveal_strlit("total supply overflow");
            reveal_strlit("transfer must move a positive amount between two distinct accounts");
        }
        match self {
            Error::ValidationError => "invalid or malformed field",
            Error::UnauthorizedError => "caller role does not permit this operation",
            Error::NotFoundError => "unknown proposal or account",
            Error::AlreadyFinalizedError => "proposal is already finalized",
            Error::AlreadyExecutedError => "proposal is already executed",
            Error::DuplicateVoteError => "caller has already voted",
            Error::NotAcceptedError => "proposal is not accepted",
            Error::AlreadyRegisteredError => "account is already registered",
            Error::InsufficientBalanceError => "not enough balance",
            Error::MissingFieldError => "required proposal field is absent",
            Error::OverflowError => "balance overflow",
            Error::SupplyOverflowError => "total supply overflow",
            Error::InvalidTransferError => "transfer must move a positive amount between two distinct accounts",
        }
    }
}

} // verus!
