use vstd::prelude::*;

verus! {

/// The generic storage/arithmetic failure kind: overflow or underflow of a
/// balance, or a record that a query requires but that is absent.
#[derive(Clone, Copy, Debug, PartialEq, Eq, Structural)]
pub enum StdError {
    Overflow,
    Underflow,
    NotFound,
}

/// Every operation of the contract either succeeds as a whole or aborts with
/// one of these kinds; on failure no state change is kept.
#[derive(Clone, Copy, Debug, PartialEq, Eq, Structural)]
pub enum ContractError {
    /// An underlying storage or arithmetic failure.
    Std(StdError),
    /// The caller lacks the rights the operation demands.
    Unauthorized,
    /// A supplied expiration is already in the past.
    Expired,
    /// The seller lacks the token amount being reserved for auction.
    InsufficientNftBalance,
    /// The attached payment is absent, of the wrong denomination, or below
    /// the required price.
    InsufficientFundsSend,
    /// The targeted auction key is in the wrong state: already taken on
    /// creation, absent on bid or close.
    InvalidAuction,
    /// A bid arrived at or after the bidding-close threshold.
    AuctionEnded,
}

} // verus!
