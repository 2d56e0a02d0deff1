//! The contract's error conditions and the failures an entry point can end in.
use vstd::prelude::*;

verus! {

/// All error conditions that can be returned by the SoroTip contract.
#[derive(Clone, Copy, Debug, PartialEq, Eq, Structural, PartialOrd, Ord)]
pub enum Error {
    /// The contract has not been initialized yet.
    NotInitialized,
    /// The contract has already been initialized.
    AlreadyInitialized,
    /// No creator profile exists for the given wallet address.
    CreatorNotFound,
    /// The caller is not the creator associated with this resource.
    NotCreator,
    /// No subscription exists for the given subscription id.
    SubscriptionNotFound,
    /// The caller is not the supporter who owns this subscription.
    NotSubscriber,
    /// The subscription has already been cancelled.
    SubscriptionAlreadyCancelled,
    /// The requested fee is outside the allowed range (0-500 basis points).
    InvalidFee,
    /// The requested amount is zero, which is not a valid tip or subscription amount.
    ZeroAmount,
    /// The caller has not authorized enough of the asset to complete the transfer.
    InsufficientAllowance,
    /// No tip goal exists for the given creator.
    GoalNotFound,
    /// The tip goal has already been marked as completed.
    GoalAlreadyCompleted,
    /// The provided amount is invalid (e.g. negative).
    InvalidAmount,
    /// The caller is not authorized to perform this admin-only action.
    Unauthorized,
}

impl Error {
    /// The numeric code under which the error is reported on chain.
    pub open spec fn spec_code(self) -> u32 {
        match self {
            Error::NotInitialized => 1,
            Error::AlreadyInitialized => 2,
            Error::CreatorNotFound => 3,
            Error::NotCreator => 4,
            Error::SubscriptionNotFound => 5,
            Error::NotSubscriber => 6,
            Error::SubscriptionAlreadyCancelled => 7,
            Error::InvalidFee => 8,
            Error::ZeroAmount => 9,
            Error::InsufficientAllowance => 10,
            Error::GoalNotFound => 11,
            Error::GoalAlreadyCompleted => 12,
            Error::InvalidAmount => 13,
            Error::Unauthorized => 14,
        }
    }

    /// The numeric code under which the error is reported on chain.
    pub fn code(&self) -> (c: u32)
        ensures
            c == self.spec_code(),
    {
        match self {
            Error::NotInitialized => 1,
            Error::AlreadyInitialized => 2,
            Error::CreatorNotFound => 3,
            Error::NotCreator => 4,
            Error::SubscriptionNotFound => 5,
            Error::NotSubscriber => 6,
            Error::SubscriptionAlreadyCancelled => 7,
            Error::InvalidFee => 8,
            Error::ZeroAmount => 9,
            Error::InsufficientAllowance => 10,
            Error::GoalNotFound => 11,
            Error::GoalAlreadyCompleted => 12,
            Error::InvalidAmount => 13,
            Error::Unauthorized => 14,
        }
    }
}

/// How a contract invocation can fail: with one of the contract's own error
/// codes, or by aborting because a counter or running total would leave the
/// range of its integer type (the contract's checked arithmetic traps there).
#[derive(Clone, Copy, Debug, PartialEq, Eq, Structural)]
pub enum Failure {
    Contract(Error),
    Overflow,
}

} // verus!
