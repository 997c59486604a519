//! Request and response shapes of the contract, and the effect requests an
//! operation may emit: descriptions of follow-up actions (a funds transfer,
//! a receiver notification) that the surrounding transaction carries out
//! atomically with the state change.

use vstd::prelude::*;

use crate::state::{Auction, Coin, CoinV, Expiration};

verus! {

pub type TokenId = String;

/// Sets up the demo counter and names the single account allowed to mint.
pub struct InstantiateMsg {
    /// The minter is the only one who can create new tokens.
    pub minter: String,
    pub count: i32,
}

/// The mutating operations a caller may request.
pub enum ExecuteMsg {
    Increment {},
    Reset { count: i32 },
    Mint { to: String, token_id: TokenId, value: u128, msg: Option<Vec<u8>> },
    SendFrom { from: String, to: String, token_id: TokenId, value: u128, msg: Option<Vec<u8>> },
    ApproveAll { operator: String, expires: Option<Expiration> },
    RevokeAll { operator: String },
    CreateAuction {
        token_id: TokenId,
        amount: u128,
        price: Coin,
        seller: String,
        bidding_close: Expiration,
    },
    Bid { token_id: TokenId, seller: String },
    CloseAuction { token_id: TokenId, seller: String },
}

/// The read-only queries; none of them changes state or emits effects.
pub enum QueryMsg {
    /// Returns the current demo count.
    GetCount {},
    /// Returns the current balance of the given owner, zero if unset.
    Balance { owner: String, token_id: TokenId },
    /// Returns whether `owner` has granted `operator` unexpired transfer
    /// rights.
    IsApprovedForAll { owner: String, operator: String },
    /// Returns the auction record under `(seller, token_id)`.
    Auction { seller: String, token_id: TokenId },
}

#[derive(Clone, Copy, Debug, PartialEq, Eq, Structural)]
pub struct CountResponse {
    pub count: i32,
}

#[derive(Clone, Copy, Debug, PartialEq, Eq, Structural)]
pub struct BalanceResponse {
    pub balance: u128,
}

#[derive(Clone, Copy, Debug, PartialEq, Eq, Structural)]
pub struct IsApprovedForAllResponse {
    pub approved: bool,
}

#[derive(Debug, PartialEq, Eq)]
pub struct AuctionResponse {
    pub auction: Auction,
}

/// The value a query returns; the host serializes it to the wire encoding.
#[derive(Debug, PartialEq, Eq)]
pub enum QueryAnswer {
    Count(CountResponse),
    Balance(BalanceResponse),
    IsApprovedForAll(IsApprovedForAllResponse),
    Auction(AuctionResponse),
}

/// The "receive" notification addressed to an account that was sent or
/// minted tokens, delivered by the host as a call the target may reject.
#[derive(Debug, PartialEq, Eq)]
pub struct Cw1155ReceiveMsg {
    /// The account that executed the send or mint.
    pub operator: String,
    /// The account the tokens moved from; absent on a mint.
    pub from: Option<String>,
    pub token_id: TokenId,
    pub amount: u128,
    pub msg: Vec<u8>,
}

/// The mathematical value of a [`Cw1155ReceiveMsg`].
#[verifier::ext_equal]
pub struct Cw1155ReceiveMsgV {
    pub operator: Seq<char>,
    pub from: Option<Seq<char>>,
    pub token_id: Seq<char>,
    pub amount: u128,
    pub msg: Seq<u8>,
}

impl View for Cw1155ReceiveMsg {
    type V = Cw1155ReceiveMsgV;

    open spec fn view(&self) -> Cw1155ReceiveMsgV {
        Cw1155ReceiveMsgV {
            operator: self.operator@,
            from: match self.from {
                Some(f) => Some(f@),
                None => None,
            },
            token_id: self.token_id@,
            amount: self.amount,
            msg: self.msg@,
        }
    }
}

/// The batch form of the receive notification.
pub struct Cw1155BatchReceiveMsg {
    pub operator: String,
    pub from: Option<String>,
    pub batch: Vec<(TokenId, u128)>,
    pub msg: Vec<u8>,
}

/// One effect request emitted to the host: either pay out funds, or call a
/// receiving contract with a receive notification.
#[derive(Debug, PartialEq, Eq)]
pub enum CosmosMsg {
    BankSend { to_address: String, amount: Coin },
    Receive { contract_addr: String, msg: Cw1155ReceiveMsg },
}

/// The mathematical value of a [`CosmosMsg`].
#[verifier::ext_equal]
pub enum CosmosMsgV {
    BankSend { to_address: Seq<char>, amount: CoinV },
    Receive { contract_addr: Seq<char>, msg: Cw1155ReceiveMsgV },
}

impl View for CosmosMsg {
    type V = CosmosMsgV;

    open spec fn view(&self) -> CosmosMsgV {
        match self {
            CosmosMsg::BankSend { to_address, amount } => CosmosMsgV::BankSend {
                to_address: to_address@,
                amount: amount@,
            },
            CosmosMsg::Receive { contract_addr, msg } => CosmosMsgV::Receive {
                contract_addr: contract_addr@,
                msg: msg@,
            },
        }
    }
}

/// What a successful mutating operation hands back: the effect requests the
/// host must carry out as part of the same all-or-nothing transaction.
#[derive(Debug, PartialEq, Eq)]
pub struct Response {
    pub messages: Vec<CosmosMsg>,
}

impl Response {
    /// The emitted effect requests as mathematical values, in order.
    pub open spec fn msgs(&self) -> Seq<CosmosMsgV> {
        self.messages@.map_values(|m: CosmosMsg| m@)
    }

    /// A response that requests no effects.
    pub fn new() -> (r: Response)
        ensures
            r.msgs() =~= Seq::<CosmosMsgV>::empty(),
    {
        Response { messages: Vec::new() }
    }
}

} // verus!
