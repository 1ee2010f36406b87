//! The outcomes that an operation reports when it does not go through.

use vstd::prelude::*;

verus! {

/// Why an operation was refused. A refused operation changes nothing.
#[derive(Clone, Copy, Debug, PartialEq, Eq, Structural)]
pub enum EscrowError {
    /// A source account holds less than the amount that must leave it.
    InsufficientFunds,
    /// The party that must authorize the operation has not done so, or is
    /// not the one entitled to.
    Unauthorized,
    /// An account named in the request is not the one the operation calls for.
    AccountMismatch,
    /// The offer named in the request is not open.
    RecordNotFound,
}

impl EscrowError {
    /// A short description of the error.
    pub fn message(&self) -> (text: &'static str)
        ensures
            text@ == Self::message_of(*self)@,
    {
        match self {
            EscrowError::InsufficientFunds => "insufficient funds",
            EscrowError::Unauthorized => "unauthorized",
            EscrowError::AccountMismatch => "account mismatch",
            EscrowError::RecordNotFound => "record not found",
        }
    }

    /// The description that `message` returns for each error.
    pub open spec fn message_of(e: EscrowError) -> &'static str {
        match e {
            EscrowError::InsufficientFunds => "insufficient funds",
            EscrowError::Unauthorized => "unauthorized",
            EscrowError::AccountMismatch => "account mismatch",
            EscrowError::RecordNotFound => "record not found",
        }
    }
}

} // verus!
