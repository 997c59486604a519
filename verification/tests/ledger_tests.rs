use nft_auction::contract::{
    check_can_approve, execute, execute_transfer_inner, instantiate, query,
};
use nft_auction::error::{ContractError, StdError};
use nft_auction::msg::{ExecuteMsg, InstantiateMsg, QueryAnswer, QueryMsg};
use nft_auction::msg::{CosmosMsg, Cw1155ReceiveMsg};
use nft_auction::state::{read_balance, BlockInfo, Coin, ContractState, Env, Expiration, MessageInfo};

const MINTER: &str = "minter";

fn env_at_height(height: u64) -> Env {
    Env { block: BlockInfo { height, time: 1000 } }
}

fn info(sender: &str, funds: Vec<Coin>) -> MessageInfo {
    MessageInfo { sender: sender.to_string(), funds }
}

fn coin(amount: u128, denom: &str) -> Coin {
    Coin { denom: denom.to_string(), amount }
}

fn fresh_state() -> ContractState {
    let msg = InstantiateMsg { count: 0, minter: MINTER.to_string() };
    instantiate(&env_at_height(100), &info("creator", vec![]), msg)
}

fn balance(state: &ContractState, owner: &str, token_id: &str) -> u128 {
    read_balance(&state.balances, &owner.to_string(), &token_id.to_string())
}

fn mint(state: &mut ContractState, to: &str, token_id: &str, value: u128) {
    let msg = ExecuteMsg::Mint {
        to: to.to_string(),
        token_id: token_id.to_string(),
        value,
        msg: None,
    };
    execute(state, &env_at_height(100), &info(MINTER, vec![]), msg).unwrap();
}

fn send(
    state: &mut ContractState,
    sender: &str,
    from: &str,
    to: &str,
    token_id: &str,
    value: u128,
) -> Result<nft_auction::msg::Response, ContractError> {
    let msg = ExecuteMsg::SendFrom {
        from: from.to_string(),
        to: to.to_string(),
        token_id: token_id.to_string(),
        value,
        msg: None,
    };
    execute(state, &env_at_height(100), &info(sender, vec![]), msg)
}

#[test]
fn conservation_across_mint_transfer_burn() {
    let mut state = fresh_state();
    mint(&mut state, "alice", "tok", 10);
    assert_eq!(10, balance(&state, "alice", "tok"));

    // a pure transfer leaves the total untouched
    send(&mut state, "alice", "alice", "bob", "tok", 4).unwrap();
    assert_eq!(6, balance(&state, "alice", "tok"));
    assert_eq!(4, balance(&state, "bob", "tok"));
    assert_eq!(10, balance(&state, "alice", "tok") + balance(&state, "bob", "tok"));

    // a burn removes exactly what it says from the total
    let r = execute_transfer_inner(
        &mut state,
        Some(&"bob".to_string()),
        None,
        &"tok".to_string(),
        3,
    );
    assert!(r.is_ok());
    assert_eq!(6, balance(&state, "alice", "tok"));
    assert_eq!(1, balance(&state, "bob", "tok"));
    // total minted (10) minus total burned (3)
    assert_eq!(7, balance(&state, "alice", "tok") + balance(&state, "bob", "tok"));
}

#[test]
fn transfer_with_insufficient_balance_fails_unchanged() {
    let mut state = fresh_state();
    mint(&mut state, "alice", "tok", 5);

    let r = send(&mut state, "alice", "alice", "bob", "tok", 6);
    assert_eq!(Err(ContractError::Std(StdError::Underflow)), r.map(|_| ()));
    assert_eq!(5, balance(&state, "alice", "tok"));
    assert_eq!(0, balance(&state, "bob", "tok"));
}

#[test]
fn transfer_to_self_changes_nothing() {
    let mut state = fresh_state();
    mint(&mut state, "alice", "tok", 5);
    send(&mut state, "alice", "alice", "alice", "tok", 3).unwrap();
    assert_eq!(5, balance(&state, "alice", "tok"));
}

#[test]
fn unauthorized_sender_cannot_move_tokens() {
    let mut state = fresh_state();
    mint(&mut state, "alice", "tok", 5);
    let r = send(&mut state, "mallory", "alice", "mallory", "tok", 1);
    assert_eq!(Err(ContractError::Unauthorized), r.map(|_| ()));
    assert_eq!(5, balance(&state, "alice", "tok"));
}

#[test]
fn only_minter_can_mint() {
    let mut state = fresh_state();
    let msg = ExecuteMsg::Mint {
        to: "alice".to_string(),
        token_id: "tok".to_string(),
        value: 1,
        msg: None,
    };
    let r = execute(&mut state, &env_at_height(100), &info("alice", vec![]), msg);
    assert_eq!(Err(ContractError::Unauthorized), r.map(|_| ()));
}

#[test]
fn mint_overflow_is_an_error() {
    let mut state = fresh_state();
    mint(&mut state, "alice", "tok", u128::MAX);
    let msg = ExecuteMsg::Mint {
        to: "alice".to_string(),
        token_id: "tok".to_string(),
        value: 1,
        msg: None,
    };
    let r = execute(&mut state, &env_at_height(100), &info(MINTER, vec![]), msg);
    assert_eq!(Err(ContractError::Std(StdError::Overflow)), r.map(|_| ()));
    assert_eq!(u128::MAX, balance(&state, "alice", "tok"));
}

#[test]
fn mint_registers_the_token_once() {
    let mut state = fresh_state();
    mint(&mut state, "alice", "tok", 1);
    mint(&mut state, "bob", "tok", 2);
    assert_eq!(1, state.tokens.len());
    mint(&mut state, "bob", "other", 2);
    assert_eq!(2, state.tokens.len());
}

#[test]
fn mint_with_payload_emits_receive_notification() {
    let mut state = fresh_state();
    let msg = ExecuteMsg::Mint {
        to: "alice".to_string(),
        token_id: "tok".to_string(),
        value: 7,
        msg: Some(vec![1u8, 2u8]),
    };
    let res = execute(&mut state, &env_at_height(100), &info(MINTER, vec![]), msg).unwrap();
    assert_eq!(
        vec![CosmosMsg::Receive {
            contract_addr: "alice".to_string(),
            msg: Cw1155ReceiveMsg {
                operator: MINTER.to_string(),
                from: None,
                token_id: "tok".to_string(),
                amount: 7,
                msg: vec![1u8, 2u8],
            },
        }],
        res.messages
    );
}

#[test]
fn send_with_payload_emits_receive_notification() {
    let mut state = fresh_state();
    mint(&mut state, "alice", "tok", 7);
    let msg = ExecuteMsg::SendFrom {
        from: "alice".to_string(),
        to: "bob".to_string(),
        token_id: "tok".to_string(),
        value: 3,
        msg: Some(vec![9u8]),
    };
    let res = execute(&mut state, &env_at_height(100), &info("alice", vec![]), msg).unwrap();
    assert_eq!(
        vec![CosmosMsg::Receive {
            contract_addr: "bob".to_string(),
            msg: Cw1155ReceiveMsg {
                operator: "alice".to_string(),
                from: Some("alice".to_string()),
                token_id: "tok".to_string(),
                amount: 3,
                msg: vec![9u8],
            },
        }],
        res.messages
    );
}

fn approve(
    state: &mut ContractState,
    height: u64,
    owner: &str,
    operator: &str,
    expires: Option<Expiration>,
) -> Result<nft_auction::msg::Response, ContractError> {
    let msg = ExecuteMsg::ApproveAll { operator: operator.to_string(), expires };
    execute(state, &env_at_height(height), &info(owner, vec![]), msg)
}

fn is_approved(state: &ContractState, height: u64, owner: &str, operator: &str) -> bool {
    check_can_approve(
        state,
        &env_at_height(height),
        &owner.to_string(),
        &operator.to_string(),
    )
}

#[test]
fn owner_is_always_approved_for_self() {
    let state = fresh_state();
    assert!(is_approved(&state, 100, "alice", "alice"));
}

#[test]
fn approval_holds_until_expiration_elapses() {
    let mut state = fresh_state();
    assert!(!is_approved(&state, 100, "alice", "bob"));

    approve(&mut state, 100, "alice", "bob", Some(Expiration::AtHeight(200))).unwrap();
    assert!(is_approved(&state, 100, "alice", "bob"));
    assert!(is_approved(&state, 199, "alice", "bob"));
    // the threshold itself is already expired
    assert!(!is_approved(&state, 200, "alice", "bob"));

    // the query sees the same answer
    let q = QueryMsg::IsApprovedForAll { owner: "alice".to_string(), operator: "bob".to_string() };
    match query(&state, &env_at_height(150), q).unwrap() {
        QueryAnswer::IsApprovedForAll(x) => assert!(x.approved),
        _ => panic!("expected an approval answer"),
    }
}

#[test]
fn approving_with_past_expiration_fails() {
    let mut state = fresh_state();
    let r = approve(&mut state, 300, "alice", "bob", Some(Expiration::AtHeight(300)));
    assert_eq!(Err(ContractError::Expired), r.map(|_| ()));
    assert!(!is_approved(&state, 300, "alice", "bob"));
}

#[test]
fn absent_expiration_means_never() {
    let mut state = fresh_state();
    approve(&mut state, 100, "alice", "bob", None).unwrap();
    assert!(is_approved(&state, u64::MAX, "alice", "bob"));
}

#[test]
fn revoking_removes_the_grant() {
    let mut state = fresh_state();
    approve(&mut state, 100, "alice", "bob", Some(Expiration::AtHeight(200))).unwrap();
    assert!(is_approved(&state, 100, "alice", "bob"));

    let msg = ExecuteMsg::RevokeAll { operator: "bob".to_string() };
    execute(&mut state, &env_at_height(100), &info("alice", vec![]), msg).unwrap();
    assert!(!is_approved(&state, 100, "alice", "bob"));

    // revoking an absent grant is not an error
    let msg = ExecuteMsg::RevokeAll { operator: "bob".to_string() };
    execute(&mut state, &env_at_height(100), &info("alice", vec![]), msg).unwrap();
}

#[test]
fn approved_operator_can_move_tokens_until_expiry() {
    let mut state = fresh_state();
    mint(&mut state, "alice", "tok", 10);
    approve(&mut state, 100, "alice", "op", Some(Expiration::AtHeight(200))).unwrap();

    // within the window the operator may transfer
    let msg = ExecuteMsg::SendFrom {
        from: "alice".to_string(),
        to: "carol".to_string(),
        token_id: "tok".to_string(),
        value: 4,
        msg: None,
    };
    execute(&mut state, &env_at_height(150), &info("op", vec![]), msg).unwrap();
    assert_eq!(6, balance(&state, "alice", "tok"));
    assert_eq!(4, balance(&state, "carol", "tok"));

    // past the window the grant no longer holds
    let msg = ExecuteMsg::SendFrom {
        from: "alice".to_string(),
        to: "carol".to_string(),
        token_id: "tok".to_string(),
        value: 1,
        msg: None,
    };
    let r = execute(&mut state, &env_at_height(200), &info("op", vec![]), msg);
    assert_eq!(Err(ContractError::Unauthorized), r.map(|_| ()));
    assert_eq!(6, balance(&state, "alice", "tok"));
}

#[test]
fn increment_overflow_is_an_error() {
    let msg = InstantiateMsg { count: i32::MAX, minter: MINTER.to_string() };
    let mut state = instantiate(&env_at_height(100), &info("creator", vec![]), msg);
    let r = execute(&mut state, &env_at_height(100), &info("anyone", vec![]), ExecuteMsg::Increment {});
    assert_eq!(Err(ContractError::Std(StdError::Overflow)), r.map(|_| ()));
    match query(&state, &env_at_height(100), QueryMsg::GetCount {}).unwrap() {
        QueryAnswer::Count(c) => assert_eq!(i32::MAX, c.count),
        _ => panic!("expected a count answer"),
    }
}

#[test]
fn balance_query_reads_zero_for_missing_record() {
    let state = fresh_state();
    let q = QueryMsg::Balance { owner: "nobody".to_string(), token_id: "tok".to_string() };
    match query(&state, &env_at_height(100), q).unwrap() {
        QueryAnswer::Balance(b) => assert_eq!(0, b.balance),
        _ => panic!("expected a balance answer"),
    }
}

#[test]
fn auction_query_on_missing_record_is_not_found() {
    let state = fresh_state();
    let q = QueryMsg::Auction { seller: "alice".to_string(), token_id: "tok".to_string() };
    assert_eq!(Err(StdError::NotFound), query(&state, &env_at_height(100), q));
}

#[test]
fn coin_helpers_require_exact_denomination() {
    let mut state = fresh_state();
    mint(&mut state, "alice", "tok", 1);
    let msg = ExecuteMsg::CreateAuction {
        token_id: "tok".to_string(),
        amount: 1,
        price: coin(1000, "uusd"),
        seller: "alice".to_string(),
        bidding_close: Expiration::AtHeight(500),
    };
    execute(&mut state, &env_at_height(100), &info("alice", vec![]), msg).unwrap();

    // same amount, wrong denomination
    let msg = ExecuteMsg::Bid { token_id: "tok".to_string(), seller: "alice".to_string() };
    let r = execute(
        &mut state,
        &env_at_height(100),
        &info("bob", vec![coin(1000, "uatom")]),
        msg,
    );
    assert_eq!(Err(ContractError::InsufficientFundsSend), r.map(|_| ()));
}

#[test]
fn time_based_expirations_compare_against_block_time() {
    let mut state = fresh_state();
    let env = Env { block: BlockInfo { height: 1, time: 5000 } };
    let msg = ExecuteMsg::ApproveAll {
        operator: "bob".to_string(),
        expires: Some(Expiration::AtTime(6000)),
    };
    execute(&mut state, &env, &info("alice", vec![]), msg).unwrap();

    let before = Env { block: BlockInfo { height: 1, time: 5999 } };
    assert!(check_can_approve(&state, &before, &"alice".to_string(), &"bob".to_string()));
    let at = Env { block: BlockInfo { height: 1, time: 6000 } };
    assert!(!check_can_approve(&state, &at, &"alice".to_string(), &"bob".to_string()));

    // granting a threshold that block time already reached fails
    let msg = ExecuteMsg::ApproveAll {
        operator: "carol".to_string(),
        expires: Some(Expiration::AtTime(5000)),
    };
    let r = execute(&mut state, &env, &info("alice", vec![]), msg);
    assert_eq!(Err(ContractError::Expired), r.map(|_| ()));
}

#[test]
fn transfer_into_a_full_balance_overflows() {
    let mut state = fresh_state();
    mint(&mut state, "alice", "tok", u128::MAX);
    mint(&mut state, "bob", "other", 1);
    // the destination key is independent of the token: same owner, other token
    let r = send(&mut state, "bob", "bob", "alice", "other", 1);
    assert!(r.is_ok());
    // but topping up a full balance of the same token must fail cleanly
    mint(&mut state, "carol", "tok", 1);
    let r = send(&mut state, "carol", "carol", "alice", "tok", 1);
    assert_eq!(Err(ContractError::Std(StdError::Overflow)), r.map(|_| ()));
    assert_eq!(u128::MAX, balance(&state, "alice", "tok"));
    assert_eq!(1, balance(&state, "carol", "tok"));
}

#[test]
fn supplies_of_different_tokens_are_independent() {
    let mut state = fresh_state();
    mint(&mut state, "alice", "gold", 10);
    mint(&mut state, "alice", "silver", 20);
    send(&mut state, "alice", "alice", "bob", "gold", 10).unwrap();
    assert_eq!(0, balance(&state, "alice", "gold"));
    assert_eq!(10, balance(&state, "bob", "gold"));
    assert_eq!(20, balance(&state, "alice", "silver"));
    assert_eq!(0, balance(&state, "bob", "silver"));
}
