//! The failures that the ledger reports.

use crate::address::Address;
use vstd::prelude::*;

verus! {

/// Why an operation of the ledger failed. A failed operation leaves the ledger as it was.
#[derive(Clone, Copy, Debug, PartialEq, Eq)]
pub enum BitsaveErrors {
    /// The caller has not joined.
    UserNotExist,
    /// The caller has joined before; holds the address on the caller's record.
    AlreadyJoined(Address),
    /// The caller has an active saving of that name.
    SavingAlreadyExists,
    /// The caller has no active saving of that name.
    SavingNotFound,
    /// The saving holds another token than the one offered.
    TokenMismatch,
    /// Any other failure.
    GeneralError,
    /// The payout of a withdrawal could not be delivered.
    TransferFailure,
}

} // verus!
