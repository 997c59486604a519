//! The contract's operations: counter demo, token ledger (mint and
//! transfer), time-bounded operator approvals, and the auction protocol.
//! Every mutating operation is all-or-nothing: on any failure it returns a
//! typed error and leaves the state exactly as it was.

use vstd::prelude::*;

use crate::error::{ContractError, StdError};
use crate::msg::{
    AuctionResponse, BalanceResponse, CosmosMsg, CosmosMsgV, CountResponse, Cw1155ReceiveMsg,
    Cw1155ReceiveMsgV, ExecuteMsg, InstantiateMsg, IsApprovedForAllResponse, QueryAnswer, QueryMsg,
    Response, TokenId,
};
use crate::state::{
    Auction, AuctionV, BlockInfo, Coin, CoinV, ContractState, Env, Expiration, MessageInfo, State,
};
use crate::state::{
    read_approval, read_auction, read_balance, register_token, remove_approval, set_approval,
    set_auction, set_balance,
};

verus! {

/// The identity view of an optional borrowed account name.
pub open spec fn opt_view(x: Option<&String>) -> Option<Seq<char>> {
    match x {
        Some(s) => Some(s@),
        None => None,
    }
}

/// The view of an optional payload.
pub open spec fn opt_bytes(x: Option<Vec<u8>>) -> Option<Seq<u8>> {
    match x {
        Some(b) => Some(b@),
        None => None,
    }
}

// ---------------------------------------------------------------------------
// Authorization gate.
// ---------------------------------------------------------------------------

/// Whether `operator` may move `owner`'s tokens at `block`: the owner is
/// always authorized over themself; anyone else needs an approval record
/// whose expiration has not elapsed.
pub open spec fn can_approve_spec(
    s: ContractState,
    owner: Seq<char>,
    operator: Seq<char>,
    block: BlockInfo,
) -> bool {
    owner == operator || (match s.approval(owner, operator) {
        Some(ex) => !ex.spec_is_expired(&block),
        None => false,
    })
}

/// Returns true iff the operator can currently act for the owner.
pub fn check_can_approve(
    state: &ContractState,
    env: &Env,
    owner: &String,
    operator: &String,
) -> (r: bool)
    ensures
        r == can_approve_spec(*state, owner@, operator@, env.block),
{
    // owner can approve
    if *owner == *operator {
        return true;
    }
    // operator can approve
    let op = read_approval(&state.approves, owner, operator);
    match op {
        Some(ex) => !ex.is_expired(&env.block),
        None => false,
    }
}

/// Fails with `Unauthorized` unless the operator can act for the owner.
pub fn guard_can_approve(
    state: &ContractState,
    env: &Env,
    owner: &String,
    operator: &String,
) -> (r: Result<(), ContractError>)
    ensures
        r is Ok <==> can_approve_spec(*state, owner@, operator@, env.block),
        r is Err ==> r == Err::<(), ContractError>(ContractError::Unauthorized),
{
    if !check_can_approve(state, env, owner, operator) {
        Err(ContractError::Unauthorized)
    } else {
        Ok(())
    }
}

// ---------------------------------------------------------------------------
// The ledger's transfer step.
// ---------------------------------------------------------------------------

/// One ledger operation, named by what it does to the total supply.
pub enum LedgerOp {
    Mint { to: Seq<char>, token: Seq<char>, amount: u128 },
    Transfer { from: Seq<char>, to: Seq<char>, token: Seq<char>, amount: u128 },
    Burn { from: Seq<char>, token: Seq<char>, amount: u128 },
}

/// How one applied transfer relates the balances after to the balances
/// before: the named keys move by `amount`, every other balance is
/// untouched, and the token's supply moves by what was minted minus what
/// was burned while every other token's supply is untouched.
pub open spec fn transfer_applied(
    pre: ContractState,
    post: ContractState,
    from: Option<Seq<char>>,
    to: Option<Seq<char>>,
    token: Seq<char>,
    amount: u128,
) -> bool {
    &&& (match (from, to) {
        (Some(f), Some(t)) => if f == t {
            post.bal(f, token) == pre.bal(f, token)
        } else {
            post.bal(f, token) == pre.bal(f, token) - amount && post.bal(t, token) == pre.bal(
                t,
                token,
            ) + amount
        },
        (Some(f), None) => post.bal(f, token) == pre.bal(f, token) - amount,
        (None, Some(t)) => post.bal(t, token) == pre.bal(t, token) + amount,
        (None, None) => true,
    })
    &&& forall|o: Seq<char>, tk: Seq<char>|
        (tk != token || (from != Some(o) && to != Some(o))) ==> post.bal(o, tk) == pre.bal(o, tk)
    &&& post.supply_of(token) == pre.supply_of(token) + (if from is None {
        amount as int
    } else {
        0
    }) - (if to is None {
        amount as int
    } else {
        0
    })
    &&& forall|tk: Seq<char>| tk != token ==> post.supply_of(tk) == pre.supply_of(tk)
}

/// The balance transition one ledger operation performs.
pub open spec fn ledger_step(pre: ContractState, op: LedgerOp, post: ContractState) -> bool {
    match op {
        LedgerOp::Mint { to, token, amount } => transfer_applied(
            pre,
            post,
            None,
            Some(to),
            token,
            amount,
        ),
        LedgerOp::Transfer { from, to, token, amount } => transfer_applied(
            pre,
            post,
            Some(from),
            Some(to),
            token,
            amount,
        ),
        LedgerOp::Burn { from, token, amount } => transfer_applied(
            pre,
            post,
            Some(from),
            None,
            token,
            amount,
        ),
    }
}

/// Moves `amount` of `token_id` out of `from` (when present) and into `to`
/// (when present): a transfer when both are present, a mint when `from` is
/// absent, a burn when `to` is absent. Fails with an arithmetic error on
/// underflow of the source or overflow of the destination, and then changes
/// nothing. Authorization must be checked by the caller.
pub fn execute_transfer_inner(
    state: &mut ContractState,
    from: Option<&String>,
    to: Option<&String>,
    token_id: &String,
    amount: u128,
) -> (r: Result<(), ContractError>)
    requires
        old(state).wf(),
    ensures
        final(state).wf(),
        final(state).approves == old(state).approves,
        final(state).tokens == old(state).tokens,
        final(state).auctions == old(state).auctions,
        final(state).state == old(state).state,
        final(state).minter == old(state).minter,
        r is Err ==> *final(state) == *old(state),
        (match from {
            Some(f) => old(state).bal(f@, token_id@) < amount,
            None => false,
        }) ==> r == Err::<(), ContractError>(ContractError::Std(StdError::Underflow)),
        r == Err::<(), ContractError>(ContractError::Std(StdError::Underflow)) ==> (match from {
            Some(f) => old(state).bal(f@, token_id@) < amount,
            None => false,
        }),
        (match (from, to) {
            (Some(f), Some(t)) => old(state).bal(f@, token_id@) >= amount && f@ != t@ && old(
                state,
            ).bal(t@, token_id@) + amount > u128::MAX,
            (None, Some(t)) => old(state).bal(t@, token_id@) + amount > u128::MAX,
            (_, None) => false,
        }) <==> r == Err::<(), ContractError>(ContractError::Std(StdError::Overflow)),
        r is Err ==> r == Err::<(), ContractError>(ContractError::Std(StdError::Underflow)) || r
            == Err::<(), ContractError>(ContractError::Std(StdError::Overflow)),
        r is Ok ==> transfer_applied(
            *old(state),
            *final(state),
            opt_view(from),
            opt_view(to),
            token_id@,
            amount,
        ),
{
    // Check the source balance before touching anything, so that a failure
    // leaves the state untouched.
    let new_from: Option<u128> = match from {
        Some(from_addr) => {
            let b = read_balance(&state.balances, from_addr, token_id);
            match b.checked_sub(amount) {
                Some(nb) => Some(nb),
                None => {
                    return Err(ContractError::Std(StdError::Underflow));
                },
            }
        },
        None => None,
    };
    // Check the destination balance likewise; when source and destination
    // coincide the tokens return to where they came from.
    let new_to: Option<u128> = match to {
        Some(to_addr) => {
            let base: u128 = match (from, &new_from) {
                (Some(from_addr), Some(nf)) => {
                    if *from_addr == *to_addr {
                        *nf
                    } else {
                        read_balance(&state.balances, to_addr, token_id)
                    }
                },
                _ => read_balance(&state.balances, to_addr, token_id),
            };
            match base.checked_add(amount) {
                Some(nb) => Some(nb),
                None => {
                    return Err(ContractError::Std(StdError::Overflow));
                },
            }
        },
        None => None,
    };
    let ghost pre = *state;
    if let (Some(from_addr), Some(nf)) = (from, &new_from) {
        set_balance(&mut state.balances, from_addr, token_id, *nf);
    }
    let ghost mid = *state;
    if let (Some(to_addr), Some(nt)) = (to, &new_to) {
        set_balance(&mut state.balances, to_addr, token_id, *nt);
    }
    proof {
        if to is Some && from is Some && opt_view(from) != opt_view(to) {
            assert(mid.bal(to.unwrap()@, token_id@) == pre.bal(to.unwrap()@, token_id@));
        }
    }
    Ok(())
}

// ---------------------------------------------------------------------------
// Mint and transfer.
// ---------------------------------------------------------------------------

/// The effect requests a mint emits: one receive notification to the new
/// owner when a payload is attached, none otherwise.
pub open spec fn mint_msgs(
    sender: Seq<char>,
    to: Seq<char>,
    token_id: Seq<char>,
    amount: u128,
    payload: Option<Seq<u8>>,
) -> Seq<CosmosMsgV> {
    match payload {
        Some(p) => seq![
            CosmosMsgV::Receive {
                contract_addr: to,
                msg: Cw1155ReceiveMsgV {
                    operator: sender,
                    from: None,
                    token_id: token_id,
                    amount: amount,
                    msg: p,
                },
            },
        ],
        None => Seq::empty(),
    }
}

/// What `execute_mint` guarantees: only the configured minter may mint;
/// on success `to`'s balance and the token's supply grow by `amount`, the
/// token is registered, and nothing else changes.
pub open spec fn mint_post(
    pre: ContractState,
    post: ContractState,
    sender: Seq<char>,
    to: Seq<char>,
    token_id: Seq<char>,
    amount: u128,
    payload: Option<Seq<u8>>,
    r: Result<Response, ContractError>,
) -> bool {
    if sender != pre.minter@ {
        r == Err::<Response, ContractError>(ContractError::Unauthorized) && post == pre
    } else if pre.bal(to, token_id) + amount > u128::MAX {
        r == Err::<Response, ContractError>(ContractError::Std(StdError::Overflow)) && post == pre
    } else {
        &&& ledger_step(pre, LedgerOp::Mint { to, token: token_id, amount }, post)
        &&& post.has_token(token_id)
        &&& forall|t: Seq<char>| post.has_token(t) <==> pre.has_token(t) || t == token_id
        &&& post.approves == pre.approves
        &&& post.auctions == pre.auctions
        &&& post.state == pre.state
        &&& post.minter == pre.minter
        &&& (r matches Ok(resp) && resp.msgs() == mint_msgs(sender, to, token_id, amount, payload))
    }
}

/// Creates `amount` new units of `token_id` in `to`'s balance. Only the
/// single configured minter may call this; a token-registry entry is created
/// on first mint. With a payload attached, emits one receive notification
/// addressed to `to`.
pub fn execute_mint(
    state: &mut ContractState,
    env: &Env,
    info: &MessageInfo,
    to: String,
    token_id: TokenId,
    amount: u128,
    msg: Option<Vec<u8>>,
) -> (r: Result<Response, ContractError>)
    requires
        old(state).wf(),
    ensures
        final(state).wf(),
        mint_post(*old(state), *final(state), info.sender@, to@, token_id@, amount, opt_bytes(msg), r),
        old(state).registry_ok() ==> final(state).registry_ok(),
{
    if !(info.sender == state.minter) {
        return Err(ContractError::Unauthorized);
    }

    let ghost pre = *state;
    match execute_transfer_inner(state, None, Some(&to), &token_id, amount) {
        Ok(()) => {},
        Err(e) => {
            return Err(e);
        },
    }

    let messages: Vec<CosmosMsg> = match msg {
        Some(payload) => {
            let receive = Cw1155ReceiveMsg {
                operator: info.sender.clone(),
                from: None,
                token_id: token_id.clone(),
                amount,
                msg: payload,
            };
            let mut v: Vec<CosmosMsg> = Vec::new();
            v.push(CosmosMsg::Receive { contract_addr: to.clone(), msg: receive });
            v
        },
        None => Vec::new(),
    };
    let rsp = Response { messages };

    // insert if not exist
    register_token(&mut state.tokens, &token_id);

    proof {
        assert(rsp.msgs() =~= mint_msgs(info.sender@, to@, token_id@, amount, opt_bytes(msg)));
        assert forall|o: Seq<char>, t: Seq<char>| final(state).bal(o, t) > 0 implies (
        pre.registry_ok() ==> final(state).has_token(t)) by {
            if pre.registry_ok() {
                if !(t == token_id@) {
                    assert(final(state).bal(o, t) == pre.bal(o, t));
                }
            }
        }
    }
    Ok(rsp)
}

/// The effect requests a transfer emits: one receive notification to the
/// recipient when a payload is attached, none otherwise.
pub open spec fn send_msgs(
    sender: Seq<char>,
    from: Seq<char>,
    to: Seq<char>,
    token_id: Seq<char>,
    amount: u128,
    payload: Option<Seq<u8>>,
) -> Seq<CosmosMsgV> {
    match payload {
        Some(p) => seq![
            CosmosMsgV::Receive {
                contract_addr: to,
                msg: Cw1155ReceiveMsgV {
                    operator: sender,
                    from: Some(from),
                    token_id: token_id,
                    amount: amount,
                    msg: p,
                },
            },
        ],
        None => Seq::empty(),
    }
}

/// What `execute_send_from` guarantees: the caller must be the owner or an
/// unexpired operator of `from`; the source must cover `amount` and the
/// destination must not overflow; on success the tokens move, the supply is
/// conserved, and nothing else changes.
pub open spec fn send_post(
    pre: ContractState,
    post: ContractState,
    block: BlockInfo,
    sender: Seq<char>,
    from: Seq<char>,
    to: Seq<char>,
    token_id: Seq<char>,
    amount: u128,
    payload: Option<Seq<u8>>,
    r: Result<Response, ContractError>,
) -> bool {
    if !can_approve_spec(pre, from, sender, block) {
        r == Err::<Response, ContractError>(ContractError::Unauthorized) && post == pre
    } else if pre.bal(from, token_id) < amount {
        r == Err::<Response, ContractError>(ContractError::Std(StdError::Underflow)) && post == pre
    } else if from != to && pre.bal(to, token_id) + amount > u128::MAX {
        r == Err::<Response, ContractError>(ContractError::Std(StdError::Overflow)) && post == pre
    } else {
        &&& ledger_step(pre, LedgerOp::Transfer { from, to, token: token_id, amount }, post)
        &&& post.approves == pre.approves
        &&& post.tokens == pre.tokens
        &&& post.auctions == pre.auctions
        &&& post.state == pre.state
        &&& post.minter == pre.minter
        &&& (r matches Ok(resp) && resp.msgs() == send_msgs(
            sender,
            from,
            to,
            token_id,
            amount,
            payload,
        ))
    }
}

/// Moves `amount` of `token_id` from `from` to `to`. The caller must be
/// `from` itself or hold an unexpired approval from `from`. With a payload
/// attached, emits one receive notification addressed to `to`.
pub fn execute_send_from(
    state: &mut ContractState,
    env: &Env,
    info: &MessageInfo,
    from: String,
    to: String,
    token_id: TokenId,
    amount: u128,
    msg: Option<Vec<u8>>,
) -> (r: Result<Response, ContractError>)
    requires
        old(state).wf(),
    ensures
        final(state).wf(),
        send_post(
            *old(state),
            *final(state),
            env.block,
            info.sender@,
            from@,
            to@,
            token_id@,
            amount,
            opt_bytes(msg),
            r,
        ),
        old(state).registry_ok() ==> final(state).registry_ok(),
{
    match guard_can_approve(state, env, &from, &info.sender) {
        Ok(()) => {},
        Err(e) => {
            return Err(e);
        },
    }

    let ghost pre = *state;
    match execute_transfer_inner(state, Some(&from), Some(&to), &token_id, amount) {
        Ok(()) => {},
        Err(e) => {
            return Err(e);
        },
    }

    let messages: Vec<CosmosMsg> = match msg {
        Some(payload) => {
            let receive = Cw1155ReceiveMsg {
                operator: info.sender.clone(),
                from: Some(from.clone()),
                token_id: token_id.clone(),
                amount,
                msg: payload,
            };
            let mut v: Vec<CosmosMsg> = Vec::new();
            v.push(CosmosMsg::Receive { contract_addr: to.clone(), msg: receive });
            v
        },
        None => Vec::new(),
    };
    let rsp = Response { messages };

    proof {
        assert(rsp.msgs() =~= send_msgs(
            info.sender@,
            from@,
            to@,
            token_id@,
            amount,
            opt_bytes(msg),
        ));
        assert forall|o: Seq<char>, t: Seq<char>| final(state).bal(o, t) > 0 implies (
        pre.registry_ok() ==> final(state).has_token(t)) by {
            if pre.registry_ok() {
                if t == token_id@ && o == to@ && from@ != to@ {
                    if amount > 0 {
                        assert(pre.bal(from@, token_id@) > 0);
                    } else {
                        assert(final(state).bal(o, t) == pre.bal(o, t));
                    }
                } else if t != token_id@ || (o != from@ && o != to@) {
                    assert(final(state).bal(o, t) == pre.bal(o, t));
                }
            }
        }
    }
    Ok(rsp)
}

/// An operation that leaves balances and token registry alone preserves the
/// registry invariant.
proof fn lemma_registry_ok_same(pre: ContractState, post: ContractState)
    requires
        post.balances == pre.balances,
        post.tokens == pre.tokens,
        pre.registry_ok(),
    ensures
        post.registry_ok(),
{
    assert forall|o: Seq<char>, t: Seq<char>| post.bal(o, t) > 0 implies post.has_token(t) by {
        assert(post.bal(o, t) == pre.bal(o, t));
        assert(pre.has_token(t));
    }
}

// ---------------------------------------------------------------------------
// Approvals.
// ---------------------------------------------------------------------------

/// What `execute_approve_all` guarantees: a grant whose expiration has
/// already elapsed is rejected as `Expired`; otherwise the record for
/// `(sender, operator)` is overwritten with the new expiration and nothing
/// else changes.
pub open spec fn approve_post(
    pre: ContractState,
    post: ContractState,
    block: BlockInfo,
    sender: Seq<char>,
    operator: Seq<char>,
    expires: Option<Expiration>,
    r: Result<Response, ContractError>,
) -> bool {
    let ex = match expires {
        Some(e) => e,
        None => Expiration::Never,
    };
    if ex.spec_is_expired(&block) {
        r == Err::<Response, ContractError>(ContractError::Expired) && post == pre
    } else {
        &&& post.approval(sender, operator) == Some(ex)
        &&& forall|o: Seq<char>, p: Seq<char>|
            !(o == sender && p == operator) ==> post.approval(o, p) == pre.approval(o, p)
        &&& post.balances == pre.balances
        &&& post.tokens == pre.tokens
        &&& post.auctions == pre.auctions
        &&& post.state == pre.state
        &&& post.minter == pre.minter
        &&& (r matches Ok(resp) && resp.msgs() == Seq::<CosmosMsgV>::empty())
    }
}

/// Grants `operator` transfer rights over every token the caller owns,
/// until `expires` elapses; an absent expiration means "never expires".
/// A grant that is already expired at the current block is rejected.
pub fn execute_approve_all(
    state: &mut ContractState,
    env: &Env,
    info: &MessageInfo,
    operator: String,
    expires: Option<Expiration>,
) -> (r: Result<Response, ContractError>)
    requires
        old(state).wf(),
    ensures
        final(state).wf(),
        approve_post(*old(state), *final(state), env.block, info.sender@, operator@, expires, r),
        old(state).registry_ok() ==> final(state).registry_ok(),
{
    // reject expired data as invalid
    let ex = match expires {
        Some(e) => e,
        None => Expiration::Never,
    };
    if ex.is_expired(&env.block) {
        return Err(ContractError::Expired);
    }

    set_approval(&mut state.approves, &info.sender, &operator, ex);
    proof {
        if old(state).registry_ok() {
            lemma_registry_ok_same(*old(state), *state);
        }
    }
    Ok(Response::new())
}

/// What `execute_revoke_all` guarantees: the record for `(sender,
/// operator)` is gone afterwards — removing an absent record succeeds too —
/// and nothing else changes.
pub open spec fn revoke_post(
    pre: ContractState,
    post: ContractState,
    sender: Seq<char>,
    operator: Seq<char>,
    r: Result<Response, ContractError>,
) -> bool {
    &&& post.approval(sender, operator) is None
    &&& forall|o: Seq<char>, p: Seq<char>|
        !(o == sender && p == operator) ==> post.approval(o, p) == pre.approval(o, p)
    &&& post.balances == pre.balances
    &&& post.tokens == pre.tokens
    &&& post.auctions == pre.auctions
    &&& post.state == pre.state
    &&& post.minter == pre.minter
    &&& (r matches Ok(resp) && resp.msgs() == Seq::<CosmosMsgV>::empty())
}

/// Withdraws any transfer rights the caller granted to `operator`;
/// revoking an absent grant is not an error.
pub fn execute_revoke_all(
    state: &mut ContractState,
    env: &Env,
    info: &MessageInfo,
    operator: String,
) -> (r: Result<Response, ContractError>)
    requires
        old(state).wf(),
    ensures
        final(state).wf(),
        revoke_post(*old(state), *final(state), info.sender@, operator@, r),
        old(state).registry_ok() ==> final(state).registry_ok(),
{
    remove_approval(&mut state.approves, &info.sender, &operator);
    proof {
        if old(state).registry_ok() {
            lemma_registry_ok_same(*old(state), *state);
        }
    }
    Ok(Response::new())
}

// ---------------------------------------------------------------------------
// The demo counter.
// ---------------------------------------------------------------------------

/// What `try_increment` guarantees: the count grows by one, or overflow is
/// reported and nothing changes.
pub open spec fn increment_post(
    pre: ContractState,
    post: ContractState,
    r: Result<Response, ContractError>,
) -> bool {
    if pre.state.count == i32::MAX {
        r == Err::<Response, ContractError>(ContractError::Std(StdError::Overflow)) && post == pre
    } else {
        &&& post.state.count == pre.state.count + 1
        &&& post.state.owner == pre.state.owner
        &&& post.balances == pre.balances
        &&& post.approves == pre.approves
        &&& post.tokens == pre.tokens
        &&& post.auctions == pre.auctions
        &&& post.minter == pre.minter
        &&& (r matches Ok(resp) && resp.msgs() == Seq::<CosmosMsgV>::empty())
    }
}

/// Adds one to the demo count; overflow is an arithmetic error, and then
/// nothing changes.
pub fn try_increment(state: &mut ContractState) -> (r: Result<Response, ContractError>)
    requires
        old(state).wf(),
    ensures
        final(state).wf(),
        increment_post(*old(state), *final(state), r),
        old(state).registry_ok() ==> final(state).registry_ok(),
{
    if state.state.count == i32::MAX {
        return Err(ContractError::Std(StdError::Overflow));
    }
    state.state.count = state.state.count + 1;
    proof {
        if old(state).registry_ok() {
            lemma_registry_ok_same(*old(state), *state);
        }
    }
    Ok(Response::new())
}

/// What `try_reset` guarantees: only the counter's owner may set the count;
/// anyone else is refused and nothing changes.
pub open spec fn reset_post(
    pre: ContractState,
    post: ContractState,
    sender: Seq<char>,
    count: i32,
    r: Result<Response, ContractError>,
) -> bool {
    if sender != pre.state.owner@ {
        r == Err::<Response, ContractError>(ContractError::Unauthorized) && post == pre
    } else {
        &&& post.state.count == count
        &&& post.state.owner == pre.state.owner
        &&& post.balances == pre.balances
        &&& post.approves == pre.approves
        &&& post.tokens == pre.tokens
        &&& post.auctions == pre.auctions
        &&& post.minter == pre.minter
        &&& (r matches Ok(resp) && resp.msgs() == Seq::<CosmosMsgV>::empty())
    }
}

/// Sets the demo count to `count`; only the account that instantiated the
/// contract may do so.
pub fn try_reset(state: &mut ContractState, info: &MessageInfo, count: i32) -> (r: Result<
    Response,
    ContractError,
>)
    requires
        old(state).wf(),
    ensures
        final(state).wf(),
        reset_post(*old(state), *final(state), info.sender@, count, r),
        old(state).registry_ok() ==> final(state).registry_ok(),
{
    if !(info.sender == state.state.owner) {
        return Err(ContractError::Unauthorized);
    }
    state.state.count = count;
    proof {
        if old(state).registry_ok() {
            lemma_registry_ok_same(*old(state), *state);
        }
    }
    Ok(Response::new())
}

// ---------------------------------------------------------------------------
// Instantiation.
// ---------------------------------------------------------------------------

/// The initial contract state: the caller owns the demo counter, the named
/// account is the single minter, and every key-value space starts empty.
pub fn instantiate(env: &Env, info: &MessageInfo, msg: InstantiateMsg) -> (r: ContractState)
    ensures
        r.wf(),
        r.registry_ok(),
        r.state.count == msg.count,
        r.state.owner@ == info.sender@,
        r.minter@ == msg.minter@,
        forall|o: Seq<char>, t: Seq<char>| r.bal(o, t) == 0,
        forall|t: Seq<char>| r.supply_of(t) == 0,
        forall|o: Seq<char>, p: Seq<char>| r.approval(o, p) is None,
        forall|t: Seq<char>| !r.has_token(t),
        forall|s: Seq<char>, t: Seq<char>| r.auction(s, t) is None,
{
    ContractState {
        state: State { count: msg.count, owner: info.sender.clone() },
        minter: msg.minter,
        balances: Vec::new(),
        approves: Vec::new(),
        tokens: Vec::new(),
        auctions: Vec::new(),
    }
}

// ---------------------------------------------------------------------------
// Coin matching.
// ---------------------------------------------------------------------------

/// Whether an attached coin pays at least the required price in the required
/// denomination.
pub open spec fn coin_matches(c: CoinV, required: CoinV) -> bool {
    c.denom == required.denom && c.amount >= required.amount
}

/// The first attached coin that covers the required price, if any.
pub open spec fn find_matching(funds: Seq<Coin>, required: CoinV) -> Option<CoinV>
    decreases funds.len(),
{
    if funds.len() == 0 {
        None
    } else if coin_matches(funds[0]@, required) {
        Some(funds[0]@)
    } else {
        find_matching(funds.skip(1), required)
    }
}

proof fn lemma_find_matching_first(funds: Seq<Coin>, required: CoinV, i: int)
    requires
        0 <= i < funds.len(),
        coin_matches(funds[i]@, required),
        forall|j: int| 0 <= j < i ==> !coin_matches(funds[j]@, required),
    ensures
        find_matching(funds, required) == Some(funds[i]@),
    decreases i,
{
    if i > 0 {
        assert(funds.skip(1)[i - 1] == funds[i]);
        assert(forall|j: int| 0 <= j < i - 1 ==> funds.skip(1)[j] == funds[j + 1]);
        lemma_find_matching_first(funds.skip(1), required, i - 1);
    }
}

proof fn lemma_find_matching_absent(funds: Seq<Coin>, required: CoinV)
    requires
        forall|j: int| 0 <= j < funds.len() ==> !coin_matches(funds[j]@, required),
    ensures
        find_matching(funds, required) is None,
    decreases funds.len(),
{
    if funds.len() > 0 {
        assert(forall|j: int| 0 <= j < funds.len() - 1 ==> funds.skip(1)[j] == funds[j + 1]);
        lemma_find_matching_absent(funds.skip(1), required);
    }
}

/// The first attached coin whose denomination equals the required one and
/// whose amount meets or exceeds the required amount, if any.
pub fn assert_sent_sufficient_coin(funds: &Vec<Coin>, required: &Coin) -> (r: Option<Coin>)
    ensures
        match r {
            Some(c) => find_matching(funds@, required@) == Some(c@) && coin_matches(c@, required@),
            None => find_matching(funds@, required@) is None,
        },
{
    let n: usize = funds.len();
    let mut i: usize = 0;
    while i < n
        invariant
            i <= n,
            n == funds.len(),
            forall|j: int| 0 <= j < i ==> !coin_matches(funds@[j]@, required@),
        decreases n - i,
    {
        if funds[i].denom == required.denom && funds[i].amount >= required.amount {
            proof {
                lemma_find_matching_first(funds@, required@, i as int);
            }
            return Some(funds[i].clone());
        }
        i = i + 1;
    }
    proof {
        lemma_find_matching_absent(funds@, required@);
    }
    None
}

// ---------------------------------------------------------------------------
// Auctions.
// ---------------------------------------------------------------------------

/// What `execute_create_auction` guarantees: the caller's balance must cover
/// the reserved amount, and the auction key must be free — at most one
/// auction may ever exist per `(seller, token)` pair at a time; on success a
/// fresh record appears with the seller as its own first "bidder" and
/// nothing else changes.
pub open spec fn create_post(
    pre: ContractState,
    post: ContractState,
    sender: Seq<char>,
    token_id: Seq<char>,
    amount: u128,
    price: CoinV,
    seller: Seq<char>,
    bidding_close: Expiration,
    r: Result<Response, ContractError>,
) -> bool {
    if pre.bal(sender, token_id) < amount {
        r == Err::<Response, ContractError>(ContractError::InsufficientNftBalance) && post == pre
    } else if pre.auction(seller, token_id) is Some {
        r == Err::<Response, ContractError>(ContractError::InvalidAuction) && post == pre
    } else {
        &&& post.auction(seller, token_id) == Some(
            AuctionV { amount, price, highest_bidder: seller, bidding_close },
        )
        &&& forall|s2: Seq<char>, t2: Seq<char>|
            !(s2 == seller && t2 == token_id) ==> post.auction(s2, t2) == pre.auction(s2, t2)
        &&& post.balances == pre.balances
        &&& post.approves == pre.approves
        &&& post.tokens == pre.tokens
        &&& post.state == pre.state
        &&& post.minter == pre.minter
        &&& (r matches Ok(resp) && resp.msgs() == Seq::<CosmosMsgV>::empty())
    }
}

/// Opens an auction reserving `amount` of `token_id` under the key
/// `(seller, token_id)`, starting at `price`, with the seller standing in as
/// highest bidder until a real bid lands. The caller's balance must cover
/// the reserved amount at this moment only: the tokens are not escrowed, so
/// a seller who later transfers them away leaves an auction that cannot be
/// settled until the balance is restored.
pub fn execute_create_auction(
    state: &mut ContractState,
    env: &Env,
    info: &MessageInfo,
    token_id: TokenId,
    amount: u128,
    price: Coin,
    seller: String,
    bidding_close: Expiration,
) -> (r: Result<Response, ContractError>)
    requires
        old(state).wf(),
    ensures
        final(state).wf(),
        create_post(
            *old(state),
            *final(state),
            info.sender@,
            token_id@,
            amount,
            price@,
            seller@,
            bidding_close,
            r,
        ),
        old(state).registry_ok() ==> final(state).registry_ok(),
{
    // sufficient nft balance (a missing record reads as zero)
    let balance = read_balance(&state.balances, &info.sender, &token_id);
    if balance < amount {
        return Err(ContractError::InsufficientNftBalance);
    }
    let existing = read_auction(&state.auctions, &seller, &token_id);
    match existing {
        Some(_) => Err(ContractError::InvalidAuction),
        None => {
            // Create New Auction
            let new_auction = Auction {
                amount,
                price,
                highest_bidder: seller.clone(),
                bidding_close,
            };
            set_auction(&mut state.auctions, &seller, &token_id, new_auction);
            proof {
                if old(state).registry_ok() {
                    lemma_registry_ok_same(*old(state), *state);
                }
            }
            Ok(Response::new())
        },
    }
}

/// What `execute_bid` guarantees: the auction must exist and its window must
/// still be open; the attached payment must cover the standing price in its
/// denomination. On success the price never decreases — it becomes the
/// payment actually sent — the caller becomes highest bidder, exactly one
/// refund of the displaced price to the displaced bidder is scheduled, and
/// nothing else changes.
pub open spec fn bid_post(
    pre: ContractState,
    post: ContractState,
    block: BlockInfo,
    sender: Seq<char>,
    funds: Seq<Coin>,
    token_id: Seq<char>,
    seller: Seq<char>,
    r: Result<Response, ContractError>,
) -> bool {
    match pre.auction(seller, token_id) {
        None => r == Err::<Response, ContractError>(ContractError::InvalidAuction) && post == pre,
        Some(a) => if a.bidding_close.spec_is_expired(&block) {
            r == Err::<Response, ContractError>(ContractError::AuctionEnded) && post == pre
        } else {
            match find_matching(funds, a.price) {
                None => r == Err::<Response, ContractError>(ContractError::InsufficientFundsSend)
                    && post == pre,
                Some(sent) => {
                    &&& post.auction(seller, token_id) == Some(
                        AuctionV {
                            amount: a.amount,
                            price: sent,
                            highest_bidder: sender,
                            bidding_close: a.bidding_close,
                        },
                    )
                    &&& sent.denom == a.price.denom
                    &&& sent.amount >= a.price.amount
                    &&& forall|s2: Seq<char>, t2: Seq<char>|
                        !(s2 == seller && t2 == token_id) ==> post.auction(s2, t2) == pre.auction(
                            s2,
                            t2,
                        )
                    &&& post.balances == pre.balances
                    &&& post.approves == pre.approves
                    &&& post.tokens == pre.tokens
                    &&& post.state == pre.state
                    &&& post.minter == pre.minter
                    &&& (r matches Ok(resp) && resp.msgs() == seq![
                        CosmosMsgV::BankSend { to_address: a.highest_bidder, amount: a.price },
                    ])
                },
            }
        },
    }
}

/// Places a bid on the auction under `(seller, token_id)`. Bids are accepted
/// strictly before the bidding-close threshold. The payment actually sent
/// becomes the new price, the caller the new highest bidder, and the
/// displaced price is scheduled to be refunded to the displaced bidder —
/// there is no escrow account, so each accepted bid immediately repays the
/// bid it displaces.
pub fn execute_bid(
    state: &mut ContractState,
    env: &Env,
    info: &MessageInfo,
    token_id: TokenId,
    seller: String,
) -> (r: Result<Response, ContractError>)
    requires
        old(state).wf(),
    ensures
        final(state).wf(),
        bid_post(
            *old(state),
            *final(state),
            env.block,
            info.sender@,
            info.funds@,
            token_id@,
            seller@,
            r,
        ),
        old(state).registry_ok() ==> final(state).registry_ok(),
{
    let auction = read_auction(&state.auctions, &seller, &token_id);
    match auction {
        None => Err(ContractError::InvalidAuction),
        Some(auction_val) => {
            // Bidding Not Expired
            if auction_val.bidding_close.is_expired(&env.block) {
                return Err(ContractError::AuctionEnded);
            }
            // Sufficient coins
            let sent_coin = assert_sent_sufficient_coin(&info.funds, &auction_val.price);
            match sent_coin {
                None => Err(ContractError::InsufficientFundsSend),
                Some(sent_coin_val) => {
                    let refund_to = auction_val.highest_bidder.clone();
                    let refund_amount = auction_val.price.clone();
                    let new_auction = Auction {
                        amount: auction_val.amount,
                        bidding_close: auction_val.bidding_close,
                        price: sent_coin_val,
                        highest_bidder: info.sender.clone(),
                    };
                    set_auction(&mut state.auctions, &seller, &token_id, new_auction);
                    let mut messages: Vec<CosmosMsg> = Vec::new();
                    messages.push(
                        CosmosMsg::BankSend { to_address: refund_to, amount: refund_amount },
                    );
                    let rsp = Response { messages };
                    proof {
                        if old(state).registry_ok() {
                            lemma_registry_ok_same(*old(state), *state);
                        }
                        assert(rsp.msgs() =~= seq![
                            CosmosMsgV::BankSend {
                                to_address: auction_val.highest_bidder@,
                                amount: auction_val.price@,
                            },
                        ]);
                    }
                    Ok(rsp)
                },
            }
        },
    }
}

/// What `execute_auction_close` guarantees: the auction must exist; the
/// settlement transfer must go through (the reserved amount was never
/// escrowed, so the seller's balance may have become too small, and then the
/// close fails with an arithmetic error and changes nothing). On success the
/// reserved amount moves from the seller to the highest bidder, one payment
/// of the standing price to the seller is scheduled, and nothing else —
/// including the auction record itself, which remains — changes.
pub open spec fn close_post(
    pre: ContractState,
    post: ContractState,
    token_id: Seq<char>,
    seller: Seq<char>,
    r: Result<Response, ContractError>,
) -> bool {
    match pre.auction(seller, token_id) {
        None => r == Err::<Response, ContractError>(ContractError::InvalidAuction) && post == pre,
        Some(a) => if pre.bal(seller, token_id) < a.amount {
            r == Err::<Response, ContractError>(ContractError::Std(StdError::Underflow)) && post
                == pre
        } else if seller != a.highest_bidder && pre.bal(a.highest_bidder, token_id) + a.amount
            > u128::MAX {
            r == Err::<Response, ContractError>(ContractError::Std(StdError::Overflow)) && post
                == pre
        } else {
            &&& ledger_step(
                pre,
                LedgerOp::Transfer {
                    from: seller,
                    to: a.highest_bidder,
                    token: token_id,
                    amount: a.amount,
                },
                post,
            )
            &&& post.auctions == pre.auctions
            &&& post.approves == pre.approves
            &&& post.tokens == pre.tokens
            &&& post.state == pre.state
            &&& post.minter == pre.minter
            &&& (r matches Ok(resp) && resp.msgs() == seq![
                CosmosMsgV::BankSend { to_address: seller, amount: a.price },
            ])
        },
    }
}

/// Settles the auction under `(seller, token_id)`: the reserved amount moves
/// from the seller to the highest bidder under the seller's own
/// authorization context — settlement bypasses the caller's gate, so any
/// caller may close — and the standing price is scheduled to be paid to the
/// seller. Closing does not consult the bidding-close threshold: settling
/// early is allowed. The record stays behind after closing, which keeps the
/// same `(seller, token_id)` pair from being auctioned again.
pub fn execute_auction_close(
    state: &mut ContractState,
    env: &Env,
    info: &MessageInfo,
    token_id: String,
    seller: String,
) -> (r: Result<Response, ContractError>)
    requires
        old(state).wf(),
    ensures
        final(state).wf(),
        close_post(*old(state), *final(state), token_id@, seller@, r),
        old(state).registry_ok() ==> final(state).registry_ok(),
{
    let auction = read_auction(&state.auctions, &seller, &token_id);
    match auction {
        None => Err(ContractError::InvalidAuction),
        Some(auction_val) => {
            let ghost pre = *state;
            // Send NFT to Highest Bidder, with the seller's own authority.
            match execute_transfer_inner(
                state,
                Some(&seller),
                Some(&auction_val.highest_bidder),
                &token_id,
                auction_val.amount,
            ) {
                Ok(()) => {},
                Err(e) => {
                    return Err(e);
                },
            }
            // Send Money to Auction Seller
            let mut messages: Vec<CosmosMsg> = Vec::new();
            messages.push(
                CosmosMsg::BankSend { to_address: seller.clone(), amount: auction_val.price },
            );
            let rsp = Response { messages };
            proof {
                assert(rsp.msgs() =~= seq![
                    CosmosMsgV::BankSend { to_address: seller@, amount: auction_val.price@ },
                ]);
                assert forall|o: Seq<char>, t: Seq<char>| final(state).bal(o, t) > 0 implies (
                pre.registry_ok() ==> final(state).has_token(t)) by {
                    if pre.registry_ok() {
                        if t == token_id@ && o == auction_val.highest_bidder@ && seller@
                            != auction_val.highest_bidder@ {
                            if auction_val.amount > 0 {
                                assert(pre.bal(seller@, token_id@) > 0);
                            } else {
                                assert(final(state).bal(o, t) == pre.bal(o, t));
                            }
                        } else if t != token_id@ || (o != seller@ && o
                            != auction_val.highest_bidder@) {
                            assert(final(state).bal(o, t) == pre.bal(o, t));
                        }
                    }
                }
            }
            Ok(rsp)
        },
    }
}

// ---------------------------------------------------------------------------
// Dispatch and queries.
// ---------------------------------------------------------------------------

/// Routes one mutating request to its handler. Whatever the request, a
/// failure leaves the state exactly as it was, and well-formedness and the
/// registry invariant are preserved.
pub fn execute(
    state: &mut ContractState,
    env: &Env,
    info: &MessageInfo,
    msg: ExecuteMsg,
) -> (r: Result<Response, ContractError>)
    requires
        old(state).wf(),
    ensures
        final(state).wf(),
        old(state).registry_ok() ==> final(state).registry_ok(),
        r is Err ==> *final(state) == *old(state),
        (msg matches ExecuteMsg::Increment {  } ==> increment_post(
            *old(state),
            *final(state),
            r,
        )),
        (msg matches ExecuteMsg::Reset { count } ==> reset_post(
            *old(state),
            *final(state),
            info.sender@,
            count,
            r,
        )),
        (msg matches ExecuteMsg::Mint { to, token_id, value, msg: m } ==> mint_post(
            *old(state),
            *final(state),
            info.sender@,
            to@,
            token_id@,
            value,
            opt_bytes(m),
            r,
        )),
        (msg matches ExecuteMsg::SendFrom { from, to, token_id, value, msg: m } ==> send_post(
            *old(state),
            *final(state),
            env.block,
            info.sender@,
            from@,
            to@,
            token_id@,
            value,
            opt_bytes(m),
            r,
        )),
        (msg matches ExecuteMsg::ApproveAll { operator, expires } ==> approve_post(
            *old(state),
            *final(state),
            env.block,
            info.sender@,
            operator@,
            expires,
            r,
        )),
        (msg matches ExecuteMsg::RevokeAll { operator } ==> revoke_post(
            *old(state),
            *final(state),
            info.sender@,
            operator@,
            r,
        )),
        (msg matches ExecuteMsg::CreateAuction {
            token_id,
            amount,
            price,
            seller,
            bidding_close,
        } ==> create_post(
            *old(state),
            *final(state),
            info.sender@,
            token_id@,
            amount,
            price@,
            seller@,
            bidding_close,
            r,
        )),
        (msg matches ExecuteMsg::Bid { token_id, seller } ==> bid_post(
            *old(state),
            *final(state),
            env.block,
            info.sender@,
            info.funds@,
            token_id@,
            seller@,
            r,
        )),
        (msg matches ExecuteMsg::CloseAuction { token_id, seller } ==> close_post(
            *old(state),
            *final(state),
            token_id@,
            seller@,
            r,
        )),
{
    match msg {
        ExecuteMsg::Increment {  } => try_increment(state),
        ExecuteMsg::Reset { count } => try_reset(state, info, count),
        ExecuteMsg::Mint { to, token_id, value, msg } => execute_mint(
            state,
            env,
            info,
            to,
            token_id,
            value,
            msg,
        ),
        ExecuteMsg::SendFrom { from, to, token_id, value, msg } => execute_send_from(
            state,
            env,
            info,
            from,
            to,
            token_id,
            value,
            msg,
        ),
        ExecuteMsg::ApproveAll { operator, expires } => execute_approve_all(
            state,
            env,
            info,
            operator,
            expires,
        ),
        ExecuteMsg::RevokeAll { operator } => execute_revoke_all(state, env, info, operator),
        ExecuteMsg::CreateAuction { token_id, amount, price, seller, bidding_close } => {
            execute_create_auction(
                state,
                env,
                info,
                token_id,
                amount,
                price,
                seller,
                bidding_close,
            )
        },
        ExecuteMsg::Bid { token_id, seller } => execute_bid(state, env, info, token_id, seller),
        ExecuteMsg::CloseAuction { token_id, seller } => execute_auction_close(
            state,
            env,
            info,
            token_id,
            seller,
        ),
    }
}

/// The current demo count.
pub fn query_count(state: &ContractState) -> (r: CountResponse)
    ensures
        r.count == state.state.count,
{
    CountResponse { count: state.state.count }
}

/// Answers one read-only query; no state changes, no effects. A balance
/// query reads zero for a missing record; an auction query on a missing
/// record is the one query that fails, with `NotFound`.
pub fn query(state: &ContractState, env: &Env, msg: QueryMsg) -> (r: Result<QueryAnswer, StdError>)
    ensures
        (match msg {
            QueryMsg::GetCount {  } => r == Ok::<QueryAnswer, StdError>(
                QueryAnswer::Count(CountResponse { count: state.state.count }),
            ),
            QueryMsg::Balance { owner, token_id } => r matches Ok(QueryAnswer::Balance(b))
                && b.balance == state.bal(owner@, token_id@),
            QueryMsg::IsApprovedForAll { owner, operator } => r matches Ok(
                QueryAnswer::IsApprovedForAll(x),
            ) && x.approved == can_approve_spec(*state, owner@, operator@, env.block),
            QueryMsg::Auction { seller, token_id } => match state.auction(seller@, token_id@) {
                Some(av) => r matches Ok(QueryAnswer::Auction(ar)) && ar.auction@ == av,
                None => r == Err::<QueryAnswer, StdError>(StdError::NotFound),
            },
        }),
{
    match msg {
        QueryMsg::GetCount {  } => Ok(QueryAnswer::Count(query_count(state))),
        QueryMsg::Balance { owner, token_id } => {
            let balance = read_balance(&state.balances, &owner, &token_id);
            Ok(QueryAnswer::Balance(BalanceResponse { balance }))
        },
        QueryMsg::IsApprovedForAll { owner, operator } => {
            let approved = check_can_approve(state, env, &owner, &operator);
            Ok(QueryAnswer::IsApprovedForAll(IsApprovedForAllResponse { approved }))
        },
        QueryMsg::Auction { seller, token_id } => {
            let auction = read_auction(&state.auctions, &seller, &token_id);
            match auction {
                None => Err(StdError::NotFound),
                Some(auction_val) => Ok(QueryAnswer::Auction(AuctionResponse { auction: auction_val })),
            }
        },
    }
}

// ---------------------------------------------------------------------------
// Laws.
// ---------------------------------------------------------------------------

/// How much one ledger operation adds to (or removes from) the supply of
/// `token`: what it mints minus what it burns.
pub open spec fn op_delta(op: LedgerOp, token: Seq<char>) -> int {
    match op {
        LedgerOp::Mint { token: t, amount, .. } => if t == token {
            amount as int
        } else {
            0
        },
        LedgerOp::Transfer { .. } => 0,
        LedgerOp::Burn { token: t, amount, .. } => if t == token {
            -(amount as int)
        } else {
            0
        },
    }
}

/// The net amount a sequence of ledger operations mints minus burns of
/// `token`.
pub open spec fn total_delta(ops: Seq<LedgerOp>, token: Seq<char>) -> int
    decreases ops.len(),
{
    if ops.len() == 0 {
        0
    } else {
        op_delta(ops[0], token) + total_delta(ops.skip(1), token)
    }
}

/// Conservation of supply: across any sequence of applied mint, transfer and
/// burn operations, the total balance of a token across all owners equals
/// what it started as plus everything minted minus everything burned of that
/// token — in particular, pure transfers never change it.
pub proof fn lemma_conservation(states: Seq<ContractState>, ops: Seq<LedgerOp>, token: Seq<char>)
    requires
        states.len() == ops.len() + 1,
        forall|i: int| 0 <= i < ops.len() ==> ledger_step(states[i], ops[i], states[i + 1]),
    ensures
        states.last().supply_of(token) == states[0].supply_of(token) + total_delta(ops, token),
    decreases ops.len(),
{
    if ops.len() > 0 {
        assert(ledger_step(states[0], ops[0], states[1]));
        assert(states[1].supply_of(token) == states[0].supply_of(token) + op_delta(ops[0], token));
        assert forall|i: int| 0 <= i < ops.len() - 1 implies ledger_step(
            states.skip(1)[i],
            ops.skip(1)[i],
            states.skip(1)[i + 1],
        ) by {
            assert(states.skip(1)[i] == states[i + 1]);
            assert(ops.skip(1)[i] == ops[i + 1]);
            assert(states.skip(1)[i + 1] == states[i + 2]);
            assert(ledger_step(states[i + 1], ops[i + 1], states[i + 2]));
        }
        lemma_conservation(states.skip(1), ops.skip(1), token);
        assert(states.skip(1).last() == states.last());
        assert(states.skip(1)[0] == states[1]);
    }
}

/// Approval expiry: an operator is authorized for an owner if and only if
/// the operator is the owner themself, or an approval record for the pair
/// exists whose expiration has not elapsed at the given block.
pub proof fn lemma_approval_expiry(
    s: ContractState,
    owner: Seq<char>,
    operator: Seq<char>,
    block: BlockInfo,
)
    ensures
        can_approve_spec(s, owner, operator, block) <==> (owner == operator || (s.approval(
            owner,
            operator,
        ) matches Some(ex) && !ex.spec_is_expired(&block))),
{
}

} // verus!
