//! The failures the contract can report.

use vstd::prelude::*;

verus! {

/// Every failure the contract reports. Each operation's contract states
/// exactly which variant is returned on which inputs; no failure is ever
/// folded into a generic error.
#[derive(Copy, Clone, Debug, PartialEq, Eq, Structural)]
pub enum QuickexError {
    AlreadyInitialized,
    Unauthorized,
    PrivacyAlreadySet,
    InvalidPrivacyLevel,
    InvalidAmount,
    InvalidSalt,
    CommitmentMismatch,
    CommitmentNotFound,
    AlreadySpent,
    InvalidCommitment,
}

} // verus!
