//! State engine of an exchange market: fixed-layout market and user account
//! records, the bounded order-slot array of a user account, and the fee tiers
//! with their 32.32 fixed-point fee arithmetic.
pub mod fixed_point;
pub mod codec;
pub mod error;
pub mod state;
pub mod fee;
pub mod orders;
pub mod token;
