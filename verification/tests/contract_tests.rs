use nft_auction::contract::{execute, instantiate, query};
use nft_auction::error::ContractError;
use nft_auction::msg::{ExecuteMsg, InstantiateMsg, QueryAnswer, QueryMsg};
use nft_auction::state::{BlockInfo, Coin, Env, Expiration, MessageInfo};

fn mock_env() -> Env {
    Env { block: BlockInfo { height: 12345, time: 1571797419 } }
}

fn mock_info(sender: &str, funds: Vec<Coin>) -> MessageInfo {
    MessageInfo { sender: sender.to_string(), funds }
}

fn coin(amount: u128, denom: &str) -> Coin {
    Coin { denom: denom.to_string(), amount }
}

fn coins(amount: u128, denom: &str) -> Vec<Coin> {
    vec![coin(amount, denom)]
}

fn query_count_value(state: &nft_auction::state::ContractState) -> i32 {
    match query(state, &mock_env(), QueryMsg::GetCount {}).unwrap() {
        QueryAnswer::Count(c) => c.count,
        _ => panic!("expected a count answer"),
    }
}

fn query_balance_value(state: &nft_auction::state::ContractState, owner: &str, token_id: &str) -> u128 {
    let msg = QueryMsg::Balance { owner: owner.to_string(), token_id: token_id.to_string() };
    match query(state, &mock_env(), msg).unwrap() {
        QueryAnswer::Balance(b) => b.balance,
        _ => panic!("expected a balance answer"),
    }
}

#[test]
fn proper_initialization() {
    let msg = InstantiateMsg {
        count: 17,
        minter: "terra1dcegyrekltswvyy0xy69ydgxn9x8x32zdtapd8".to_string(),
    };
    let info = mock_info("creator", coins(1000, "ust"));

    let state = instantiate(&mock_env(), &info, msg);

    // it worked, let's query the state
    assert_eq!(17, query_count_value(&state));
}

/// Instantiate
/// Mint Token
/// Create Auction
/// Bid Auction
/// Close Auction
#[test]
fn auction() {
    let msg = InstantiateMsg {
        count: 17,
        minter: "terra1dcegyrekltswvyy0xy69ydgxn9x8x32zdtapd8".to_string(),
    };
    let info = mock_info("creator", coins(1000, "uusd"));
    let mut state = instantiate(&mock_env(), &info, msg);

    // mint token
    // ===================
    let info = mock_info("terra1dcegyrekltswvyy0xy69ydgxn9x8x32zdtapd8", coins(1000, "uusd"));
    let msg = ExecuteMsg::Mint {
        to: "terra1dcegyrekltswvyy0xy69ydgxn9x8x32zdtapd8".to_string(),
        token_id: "ID1".to_string(),
        value: 10001u128,
        msg: None,
    };
    let _res = execute(&mut state, &mock_env(), &info, msg).unwrap();

    // query nft token
    assert_eq!(
        10001u128,
        query_balance_value(&state, "terra1dcegyrekltswvyy0xy69ydgxn9x8x32zdtapd8", "ID1")
    );

    // create auction
    // ===================
    let info = mock_info("terra1dcegyrekltswvyy0xy69ydgxn9x8x32zdtapd8", coins(1000, "uusd"));
    let msg = ExecuteMsg::CreateAuction {
        token_id: "ID1".to_string(),
        amount: 1u128,
        price: coin(1000, "uusd"),
        seller: "terra1dcegyrekltswvyy0xy69ydgxn9x8x32zdtapd8".to_string(),
        bidding_close: Expiration::AtHeight(23123),
    };
    let _res = execute(&mut state, &mock_env(), &info, msg).unwrap();

    // query auction
    let msg = QueryMsg::Auction {
        seller: "terra1dcegyrekltswvyy0xy69ydgxn9x8x32zdtapd8".to_string(),
        token_id: "ID1".to_string(),
    };
    match query(&state, &mock_env(), msg).unwrap() {
        QueryAnswer::Auction(value) => {
            assert_eq!(1u128, value.auction.amount);
            assert_eq!(coin(1000, "uusd"), value.auction.price);
            assert_eq!(Expiration::AtHeight(23123), value.auction.bidding_close);
        },
        _ => panic!("expected an auction answer"),
    }

    // place bid
    // ===================
    let info = mock_info("terra1dcegyrekltswvyy0xy69ydgxn9x8x32zdtapd9", coins(10000, "uusd"));
    let msg = ExecuteMsg::Bid {
        token_id: "ID1".to_string(),
        seller: "terra1dcegyrekltswvyy0xy69ydgxn9x8x32zdtapd8".to_string(),
    };
    let _res = execute(&mut state, &mock_env(), &info, msg).unwrap();

    // query auction
    let msg = QueryMsg::Auction {
        seller: "terra1dcegyrekltswvyy0xy69ydgxn9x8x32zdtapd8".to_string(),
        token_id: "ID1".to_string(),
    };
    match query(&state, &mock_env(), msg).unwrap() {
        QueryAnswer::Auction(value) => {
            assert_eq!(coin(10000, "uusd"), value.auction.price);
        },
        _ => panic!("expected an auction answer"),
    }

    // close auction
    // ===================
    let info = mock_info("terra1dcegyrekltswvyy0xy69ydgxn9x8x32zdtapd8", coins(10000, "uusd"));
    let msg = ExecuteMsg::CloseAuction {
        token_id: "ID1".to_string(),
        seller: "terra1dcegyrekltswvyy0xy69ydgxn9x8x32zdtapd8".to_string(),
    };
    let _res = execute(&mut state, &mock_env(), &info, msg).unwrap();

    // query nft token
    assert_eq!(
        1u128,
        query_balance_value(&state, "terra1dcegyrekltswvyy0xy69ydgxn9x8x32zdtapd9", "ID1")
    );
}

#[test]
fn increment() {
    let msg = InstantiateMsg {
        count: 17,
        minter: "terra1dcegyrekltswvyy0xy69ydgxn9x8x32zdtapd8".to_string(),
    };
    let info = mock_info("creator", coins(2, "uusd"));
    let mut state = instantiate(&mock_env(), &info, msg);

    // beneficiary can release it
    let info = mock_info("anyone", coins(2, "uusd"));
    let msg = ExecuteMsg::Increment {};
    let _res = execute(&mut state, &mock_env(), &info, msg).unwrap();

    // should increase counter by 1
    assert_eq!(18, query_count_value(&state));
}

#[test]
fn reset() {
    let msg = InstantiateMsg {
        count: 17,
        minter: "terra1dcegyrekltswvyy0xy69ydgxn9x8x32zdtapd8".to_string(),
    };
    let info = mock_info("creator", coins(2, "uusd"));
    let mut state = instantiate(&mock_env(), &info, msg);

    // beneficiary can release it
    let unauth_info = mock_info("anyone", coins(2, "uusd"));
    let msg = ExecuteMsg::Reset { count: 5 };
    let res = execute(&mut state, &mock_env(), &unauth_info, msg);
    match res {
        Err(ContractError::Unauthorized) => {},
        _ => panic!("Must return unauthorized error"),
    }

    // only the original creator can reset the counter
    let auth_info = mock_info("creator", coins(2, "uusd"));
    let msg = ExecuteMsg::Reset { count: 5 };
    let _res = execute(&mut state, &mock_env(), &auth_info, msg).unwrap();

    // should now be 5
    assert_eq!(5, query_count_value(&state));
}
