//! Errors that the state objects and the fee engine report.
use vstd::prelude::*;

verus! {

/// Why an operation on a market or user account was refused.
#[derive(Clone, Copy, Debug, PartialEq, Eq, Structural)]
pub enum DexError {
    /// The buffer does not hold a record of the requested kind.
    InvalidAccountData,
    /// An order index outside the active range.
    InvalidOrderIndex,
    /// No active order has the requested id or client id.
    OrderNotFound,
    /// Every order slot of the account is in use.
    UserAccountFull,
    /// A discount token account with another owner or an unknown mint.
    InvalidArgument,
}

} // verus!
