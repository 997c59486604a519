//! A semi-fungible token ledger with time-bounded operator approvals and an
//! ascending-price auction mechanism, written as a pure state machine: every
//! operation takes the current contract state and an authenticated caller,
//! validates, and either applies an all-or-nothing transition (possibly
//! emitting effect requests for the host to carry out) or returns a typed
//! error and leaves the state untouched.

pub mod contract;
pub mod error;
pub mod msg;
pub mod state;

pub use crate::error::ContractError;
