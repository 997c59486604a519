//! The contract's data model: plain-value stand-ins for the host environment
//! (block info, coins, expirations) and the four key-value spaces the ledger
//! owns (balances, approvals, token registry, auctions), held as association
//! lists with unique keys and specified through lookup and summation
//! functions.

use vstd::prelude::*;

verus! {

/// The ambient block height and timestamp a call executes under; expirations
/// are judged against these, never against a live timer.
#[derive(Clone, Copy, Debug, PartialEq, Eq, Structural)]
pub struct BlockInfo {
    pub height: u64,
    pub time: u64,
}

/// The environment the host hands to every call.
#[derive(Clone, Copy, Debug, PartialEq, Eq, Structural)]
pub struct Env {
    pub block: BlockInfo,
}

/// A threshold after which a grant or bidding window is no longer valid:
/// a block height, a timestamp, or never.
#[derive(Clone, Copy, Debug, PartialEq, Eq, Structural)]
pub enum Expiration {
    AtHeight(u64),
    AtTime(u64),
    Never,
}

impl Expiration {
    /// Whether the threshold has elapsed at the given block: a height
    /// threshold elapses once the block height reaches it, a time threshold
    /// once the block time reaches it, and `Never` never elapses.
    pub open spec fn spec_is_expired(&self, block: &BlockInfo) -> bool {
        match *self {
            Expiration::AtHeight(height) => block.height >= height,
            Expiration::AtTime(time) => block.time >= time,
            Expiration::Never => false,
        }
    }

    #[verifier::when_used_as_spec(spec_is_expired)]
    pub fn is_expired(&self, block: &BlockInfo) -> (r: bool)
        ensures
            r == self.spec_is_expired(block),
    {
        match *self {
            Expiration::AtHeight(height) => block.height >= height,
            Expiration::AtTime(time) => block.time >= time,
            Expiration::Never => false,
        }
    }
}

/// An amount of one denomination of the host chain's funds.
#[derive(Debug, PartialEq, Eq)]
pub struct Coin {
    pub denom: String,
    pub amount: u128,
}

/// The mathematical value of a [`Coin`].
#[verifier::ext_equal]
pub struct CoinV {
    pub denom: Seq<char>,
    pub amount: u128,
}

impl View for Coin {
    type V = CoinV;

    open spec fn view(&self) -> CoinV {
        CoinV { denom: self.denom@, amount: self.amount }
    }
}

impl Clone for Coin {
    fn clone(&self) -> (res: Self)
        ensures
            res == *self,
    {
        Coin { denom: self.denom.clone(), amount: self.amount }
    }
}

/// The authenticated caller identity and the payment attached to the call.
pub struct MessageInfo {
    pub sender: String,
    pub funds: Vec<Coin>,
}

/// The demo counter's record: a count and the account allowed to reset it.
pub struct State {
    pub count: i32,
    pub owner: String,
}

/// One live auction: the reserved token amount, the current price, the
/// highest bidder so far (the seller itself until a first bid lands), and
/// the threshold after which bids are refused.
#[derive(Debug, PartialEq, Eq)]
pub struct Auction {
    pub amount: u128,
    pub price: Coin,
    pub highest_bidder: String,
    pub bidding_close: Expiration,
}

/// The mathematical value of an [`Auction`].
#[verifier::ext_equal]
pub struct AuctionV {
    pub amount: u128,
    pub price: CoinV,
    pub highest_bidder: Seq<char>,
    pub bidding_close: Expiration,
}

impl View for Auction {
    type V = AuctionV;

    open spec fn view(&self) -> AuctionV {
        AuctionV {
            amount: self.amount,
            price: self.price@,
            highest_bidder: self.highest_bidder@,
            bidding_close: self.bidding_close,
        }
    }
}

impl Clone for Auction {
    fn clone(&self) -> (res: Self)
        ensures
            res == *self,
    {
        Auction {
            amount: self.amount,
            price: self.price.clone(),
            highest_bidder: self.highest_bidder.clone(),
            bidding_close: self.bidding_close,
        }
    }
}

/// One balance record: how much of one token identifier one owner holds.
/// A missing record reads as zero.
pub struct BalanceEntry {
    pub owner: String,
    pub token_id: String,
    pub amount: u128,
}

/// One approval record: `operator` may move any of `owner`'s tokens until
/// `expires` elapses.
pub struct ApprovalEntry {
    pub owner: String,
    pub operator: String,
    pub expires: Expiration,
}

/// One auction record, keyed by the seller and the token identifier.
pub struct AuctionEntry {
    pub seller: String,
    pub token_id: String,
    pub auction: Auction,
}

// ---------------------------------------------------------------------------
// Balances: lookup, total supply per token, and unique-key well-formedness.
// ---------------------------------------------------------------------------

pub open spec fn bal_key_is(e: BalanceEntry, owner: Seq<char>, token: Seq<char>) -> bool {
    e.owner@ == owner && e.token_id@ == token
}

/// The balance the list records for `(owner, token)`, zero when absent.
pub open spec fn bal_of(s: Seq<BalanceEntry>, owner: Seq<char>, token: Seq<char>) -> u128
    decreases s.len(),
{
    if s.len() == 0 {
        0u128
    } else if bal_key_is(s[0], owner, token) {
        s[0].amount
    } else {
        bal_of(s.skip(1), owner, token)
    }
}

/// The sum of all recorded balances of one token identifier, across owners.
pub open spec fn supply(s: Seq<BalanceEntry>, token: Seq<char>) -> int
    decreases s.len(),
{
    if s.len() == 0 {
        0
    } else {
        (if s[0].token_id@ == token {
            s[0].amount as int
        } else {
            0
        }) + supply(s.skip(1), token)
    }
}

pub open spec fn bal_keys_unique(s: Seq<BalanceEntry>) -> bool {
    forall|i: int, j: int|
        0 <= i < j < s.len() ==> !(s[i].owner@ == s[j].owner@ && s[i].token_id@ == s[j].token_id@)
}

proof fn lemma_bal_of_first(s: Seq<BalanceEntry>, owner: Seq<char>, token: Seq<char>, i: int)
    requires
        0 <= i < s.len(),
        bal_key_is(s[i], owner, token),
        forall|j: int| 0 <= j < i ==> !bal_key_is(s[j], owner, token),
    ensures
        bal_of(s, owner, token) == s[i].amount,
    decreases i,
{
    if i > 0 {
        assert(s.skip(1)[i - 1] == s[i]);
        assert(forall|j: int| 0 <= j < i - 1 ==> s.skip(1)[j] == s[j + 1]);
        lemma_bal_of_first(s.skip(1), owner, token, i - 1);
    }
}

proof fn lemma_bal_of_absent(s: Seq<BalanceEntry>, owner: Seq<char>, token: Seq<char>)
    requires
        forall|j: int| 0 <= j < s.len() ==> !bal_key_is(s[j], owner, token),
    ensures
        bal_of(s, owner, token) == 0,
    decreases s.len(),
{
    if s.len() > 0 {
        assert(forall|j: int| 0 <= j < s.len() - 1 ==> s.skip(1)[j] == s[j + 1]);
        lemma_bal_of_absent(s.skip(1), owner, token);
    }
}

proof fn lemma_bal_of_update(
    s: Seq<BalanceEntry>,
    i: int,
    e: BalanceEntry,
    owner: Seq<char>,
    token: Seq<char>,
)
    requires
        0 <= i < s.len(),
        e.owner@ == s[i].owner@,
        e.token_id@ == s[i].token_id@,
        forall|j: int| 0 <= j < i ==> !bal_key_is(s[j], s[i].owner@, s[i].token_id@),
    ensures
        bal_of(s.update(i, e), owner, token) == if bal_key_is(e, owner, token) {
            e.amount
        } else {
            bal_of(s, owner, token)
        },
    decreases i,
{
    if i == 0 {
        if !bal_key_is(e, owner, token) {
            assert(s.update(0, e).skip(1) =~= s.skip(1));
        }
    } else {
        assert(s.update(i, e).skip(1) =~= s.skip(1).update(i - 1, e));
        assert(s.skip(1)[i - 1] == s[i]);
        assert(forall|j: int| 0 <= j < i - 1 ==> s.skip(1)[j] == s[j + 1]);
        lemma_bal_of_update(s.skip(1), i - 1, e, owner, token);
    }
}

proof fn lemma_supply_update(s: Seq<BalanceEntry>, i: int, e: BalanceEntry, token: Seq<char>)
    requires
        0 <= i < s.len(),
        e.token_id@ == s[i].token_id@,
    ensures
        supply(s.update(i, e), token) == supply(s, token) + (if s[i].token_id@ == token {
            e.amount - s[i].amount
        } else {
            0
        }),
    decreases i,
{
    if i == 0 {
        assert(s.update(0, e).skip(1) =~= s.skip(1));
    } else {
        assert(s.update(i, e).skip(1) =~= s.skip(1).update(i - 1, e));
        assert(s.skip(1)[i - 1] == s[i]);
        lemma_supply_update(s.skip(1), i - 1, e, token);
    }
}

proof fn lemma_supply_push(s: Seq<BalanceEntry>, e: BalanceEntry, token: Seq<char>)
    ensures
        supply(s.push(e), token) == supply(s, token) + (if e.token_id@ == token {
            e.amount as int
        } else {
            0
        }),
    decreases s.len(),
{
    if s.len() == 0 {
        assert(s.push(e)[0] == e);
        assert(s.push(e).skip(1) =~= s);
    } else {
        assert(s.push(e)[0] == s[0]);
        assert(s.push(e).skip(1) =~= s.skip(1).push(e));
        lemma_supply_push(s.skip(1), e, token);
    }
}

proof fn lemma_bal_of_push_absent(s: Seq<BalanceEntry>, e: BalanceEntry)
    requires
        forall|j: int| 0 <= j < s.len() ==> !bal_key_is(s[j], e.owner@, e.token_id@),
    ensures
        bal_of(s.push(e), e.owner@, e.token_id@) == e.amount,
    decreases s.len(),
{
    if s.len() == 0 {
        assert(s.push(e)[0] == e);
    } else {
        assert(s.push(e)[0] == s[0]);
        assert(s.push(e).skip(1) =~= s.skip(1).push(e));
        assert(forall|j: int| 0 <= j < s.len() - 1 ==> s.skip(1)[j] == s[j + 1]);
        lemma_bal_of_push_absent(s.skip(1), e);
    }
}

proof fn lemma_bal_of_push_other(
    s: Seq<BalanceEntry>,
    e: BalanceEntry,
    owner: Seq<char>,
    token: Seq<char>,
)
    requires
        !(owner == e.owner@ && token == e.token_id@),
    ensures
        bal_of(s.push(e), owner, token) == bal_of(s, owner, token),
    decreases s.len(),
{
    if s.len() == 0 {
        assert(s.push(e)[0] == e);
        assert(s.push(e).skip(1) =~= s);
    } else {
        assert(s.push(e)[0] == s[0]);
        assert(s.push(e).skip(1) =~= s.skip(1).push(e));
        lemma_bal_of_push_other(s.skip(1), e, owner, token);
    }
}

/// The index of the record for `(owner, token_id)`, if one exists.
fn find_balance(v: &Vec<BalanceEntry>, owner: &String, token_id: &String) -> (r: Option<usize>)
    ensures
        match r {
            Some(i) => i < v.len() && bal_key_is(v@[i as int], owner@, token_id@) && (forall|
                j: int,
            |
                0 <= j < i ==> !bal_key_is(v@[j], owner@, token_id@)),
            None => forall|j: int| 0 <= j < v@.len() ==> !bal_key_is(v@[j], owner@, token_id@),
        },
{
    let n: usize = v.len();
    let mut i: usize = 0;
    while i < n
        invariant
            i <= n,
            n == v.len(),
            forall|j: int| 0 <= j < i ==> !bal_key_is(v@[j], owner@, token_id@),
        decreases n - i,
    {
        if v[i].owner == *owner && v[i].token_id == *token_id {
            return Some(i);
        }
        i = i + 1;
    }
    None
}

/// The balance recorded for `(owner, token_id)`, zero when absent.
pub fn read_balance(v: &Vec<BalanceEntry>, owner: &String, token_id: &String) -> (r: u128)
    ensures
        r == bal_of(v@, owner@, token_id@),
{
    let idx = find_balance(v, owner, token_id);
    match idx {
        Some(i) => {
            proof {
                lemma_bal_of_first(v@, owner@, token_id@, i as int);
            }
            v[i].amount
        },
        None => {
            proof {
                lemma_bal_of_absent(v@, owner@, token_id@);
            }
            0
        },
    }
}

/// Overwrites (or creates) the record for `(owner, token_id)` with `amount`.
/// Every other balance is untouched; the token's supply moves by exactly the
/// difference, and every other token's supply is untouched.
pub fn set_balance(v: &mut Vec<BalanceEntry>, owner: &String, token_id: &String, amount: u128)
    requires
        bal_keys_unique(old(v)@),
    ensures
        bal_keys_unique(final(v)@),
        bal_of(final(v)@, owner@, token_id@) == amount,
        forall|o: Seq<char>, t: Seq<char>|
            !(o == owner@ && t == token_id@) ==> bal_of(final(v)@, o, t) == bal_of(old(v)@, o, t),
        supply(final(v)@, token_id@) == supply(old(v)@, token_id@) - bal_of(
            old(v)@,
            owner@,
            token_id@,
        ) + amount,
        forall|t: Seq<char>| t != token_id@ ==> supply(final(v)@, t) == supply(old(v)@, t),
{
    let idx = find_balance(v, owner, token_id);
    let e = BalanceEntry { owner: owner.clone(), token_id: token_id.clone(), amount };
    let ghost s = v@;
    match idx {
        Some(i) => {
            v.set(i, e);
            proof {
                lemma_bal_of_first(s, owner@, token_id@, i as int);
                lemma_bal_of_update(s, i as int, e, owner@, token_id@);
                assert forall|o: Seq<char>, t: Seq<char>| !(o == owner@ && t == token_id@) implies
                    bal_of(v@, o, t) == bal_of(s, o, t) by {
                    lemma_bal_of_update(s, i as int, e, o, t);
                }
                lemma_supply_update(s, i as int, e, token_id@);
                assert forall|t: Seq<char>| t != token_id@ implies supply(v@, t) == supply(
                    s,
                    t,
                ) by {
                    lemma_supply_update(s, i as int, e, t);
                }
                assert(forall|j: int|
                    0 <= j < v@.len() ==> v@[j].owner@ == s[j].owner@ && v@[j].token_id@
                        == s[j].token_id@);
            }
        },
        None => {
            v.push(e);
            proof {
                lemma_bal_of_absent(s, owner@, token_id@);
                lemma_bal_of_push_absent(s, e);
                assert forall|o: Seq<char>, t: Seq<char>| !(o == owner@ && t == token_id@) implies
                    bal_of(v@, o, t) == bal_of(s, o, t) by {
                    lemma_bal_of_push_other(s, e, o, t);
                }
                lemma_supply_push(s, e, token_id@);
                assert forall|t: Seq<char>| t != token_id@ implies supply(v@, t) == supply(
                    s,
                    t,
                ) by {
                    lemma_supply_push(s, e, t);
                }
                assert(forall|j: int| 0 <= j < s.len() ==> v@[j] == s[j]);
            }
        },
    }
}

// ---------------------------------------------------------------------------
// Approvals: lookup, overwrite, removal, and unique-key well-formedness.
// ---------------------------------------------------------------------------

pub open spec fn appr_key_is(e: ApprovalEntry, owner: Seq<char>, operator: Seq<char>) -> bool {
    e.owner@ == owner && e.operator@ == operator
}

/// The expiration the list records for `(owner, operator)`, if any.
pub open spec fn approval_of(
    s: Seq<ApprovalEntry>,
    owner: Seq<char>,
    operator: Seq<char>,
) -> Option<Expiration>
    decreases s.len(),
{
    if s.len() == 0 {
        None
    } else if appr_key_is(s[0], owner, operator) {
        Some(s[0].expires)
    } else {
        approval_of(s.skip(1), owner, operator)
    }
}

pub open spec fn appr_keys_unique(s: Seq<ApprovalEntry>) -> bool {
    forall|i: int, j: int|
        0 <= i < j < s.len() ==> !(s[i].owner@ == s[j].owner@ && s[i].operator@ == s[j].operator@)
}

proof fn lemma_approval_of_first(s: Seq<ApprovalEntry>, owner: Seq<char>, operator: Seq<char>, i: int)
    requires
        0 <= i < s.len(),
        appr_key_is(s[i], owner, operator),
        forall|j: int| 0 <= j < i ==> !appr_key_is(s[j], owner, operator),
    ensures
        approval_of(s, owner, operator) == Some(s[i].expires),
    decreases i,
{
    if i > 0 {
        assert(s.skip(1)[i - 1] == s[i]);
        assert(forall|j: int| 0 <= j < i - 1 ==> s.skip(1)[j] == s[j + 1]);
        lemma_approval_of_first(s.skip(1), owner, operator, i - 1);
    }
}

proof fn lemma_approval_of_absent(s: Seq<ApprovalEntry>, owner: Seq<char>, operator: Seq<char>)
    requires
        forall|j: int| 0 <= j < s.len() ==> !appr_key_is(s[j], owner, operator),
    ensures
        approval_of(s, owner, operator) is None,
    decreases s.len(),
{
    if s.len() > 0 {
        assert(forall|j: int| 0 <= j < s.len() - 1 ==> s.skip(1)[j] == s[j + 1]);
        lemma_approval_of_absent(s.skip(1), owner, operator);
    }
}

proof fn lemma_approval_of_update(
    s: Seq<ApprovalEntry>,
    i: int,
    e: ApprovalEntry,
    owner: Seq<char>,
    operator: Seq<char>,
)
    requires
        0 <= i < s.len(),
        e.owner@ == s[i].owner@,
        e.operator@ == s[i].operator@,
        forall|j: int| 0 <= j < i ==> !appr_key_is(s[j], s[i].owner@, s[i].operator@),
    ensures
        approval_of(s.update(i, e), owner, operator) == if appr_key_is(e, owner, operator) {
            Some(e.expires)
        } else {
            approval_of(s, owner, operator)
        },
    decreases i,
{
    if i == 0 {
        if !appr_key_is(e, owner, operator) {
            assert(s.update(0, e).skip(1) =~= s.skip(1));
        }
    } else {
        assert(s.update(i, e).skip(1) =~= s.skip(1).update(i - 1, e));
        assert(s.skip(1)[i - 1] == s[i]);
        assert(forall|j: int| 0 <= j < i - 1 ==> s.skip(1)[j] == s[j + 1]);
        lemma_approval_of_update(s.skip(1), i - 1, e, owner, operator);
    }
}

proof fn lemma_approval_of_push_absent(s: Seq<ApprovalEntry>, e: ApprovalEntry)
    requires
        forall|j: int| 0 <= j < s.len() ==> !appr_key_is(s[j], e.owner@, e.operator@),
    ensures
        approval_of(s.push(e), e.owner@, e.operator@) == Some(e.expires),
    decreases s.len(),
{
    if s.len() == 0 {
        assert(s.push(e)[0] == e);
    } else {
        assert(s.push(e)[0] == s[0]);
        assert(s.push(e).skip(1) =~= s.skip(1).push(e));
        assert(forall|j: int| 0 <= j < s.len() - 1 ==> s.skip(1)[j] == s[j + 1]);
        lemma_approval_of_push_absent(s.skip(1), e);
    }
}

proof fn lemma_approval_of_push_other(
    s: Seq<ApprovalEntry>,
    e: ApprovalEntry,
    owner: Seq<char>,
    operator: Seq<char>,
)
    requires
        !(owner == e.owner@ && operator == e.operator@),
    ensures
        approval_of(s.push(e), owner, operator) == approval_of(s, owner, operator),
    decreases s.len(),
{
    if s.len() == 0 {
        assert(s.push(e)[0] == e);
        assert(s.push(e).skip(1) =~= s);
    } else {
        assert(s.push(e)[0] == s[0]);
        assert(s.push(e).skip(1) =~= s.skip(1).push(e));
        lemma_approval_of_push_other(s.skip(1), e, owner, operator);
    }
}

proof fn lemma_approval_of_remove(s: Seq<ApprovalEntry>, i: int, owner: Seq<char>, operator: Seq<char>)
    requires
        0 <= i < s.len(),
        !(owner == s[i].owner@ && operator == s[i].operator@),
    ensures
        approval_of(s.remove(i), owner, operator) == approval_of(s, owner, operator),
    decreases i,
{
    if i == 0 {
        assert(s.remove(0) =~= s.skip(1));
    } else {
        assert(s.remove(i)[0] == s[0]);
        assert(s.remove(i).skip(1) =~= s.skip(1).remove(i - 1));
        assert(s.skip(1)[i - 1] == s[i]);
        lemma_approval_of_remove(s.skip(1), i - 1, owner, operator);
    }
}

fn find_approval(v: &Vec<ApprovalEntry>, owner: &String, operator: &String) -> (r: Option<usize>)
    ensures
        match r {
            Some(i) => i < v.len() && appr_key_is(v@[i as int], owner@, operator@) && (forall|
                j: int,
            |
                0 <= j < i ==> !appr_key_is(v@[j], owner@, operator@)),
            None => forall|j: int| 0 <= j < v@.len() ==> !appr_key_is(v@[j], owner@, operator@),
        },
{
    let n: usize = v.len();
    let mut i: usize = 0;
    while i < n
        invariant
            i <= n,
            n == v.len(),
            forall|j: int| 0 <= j < i ==> !appr_key_is(v@[j], owner@, operator@),
        decreases n - i,
    {
        if v[i].owner == *owner && v[i].operator == *operator {
            return Some(i);
        }
        i = i + 1;
    }
    None
}

/// The expiration recorded for `(owner, operator)`, if any.
pub fn read_approval(v: &Vec<ApprovalEntry>, owner: &String, operator: &String) -> (r: Option<
    Expiration,
>)
    ensures
        r == approval_of(v@, owner@, operator@),
{
    let idx = find_approval(v, owner, operator);
    match idx {
        Some(i) => {
            proof {
                lemma_approval_of_first(v@, owner@, operator@, i as int);
            }
            Some(v[i].expires)
        },
        None => {
            proof {
                lemma_approval_of_absent(v@, owner@, operator@);
            }
            None
        },
    }
}

/// Overwrites (or creates) the record for `(owner, operator)`; every other
/// approval is untouched.
pub fn set_approval(v: &mut Vec<ApprovalEntry>, owner: &String, operator: &String, expires: Expiration)
    requires
        appr_keys_unique(old(v)@),
    ensures
        appr_keys_unique(final(v)@),
        approval_of(final(v)@, owner@, operator@) == Some(expires),
        forall|o: Seq<char>, p: Seq<char>|
            !(o == owner@ && p == operator@) ==> approval_of(final(v)@, o, p) == approval_of(
                old(v)@,
                o,
                p,
            ),
{
    let idx = find_approval(v, owner, operator);
    let e = ApprovalEntry { owner: owner.clone(), operator: operator.clone(), expires };
    let ghost s = v@;
    match idx {
        Some(i) => {
            v.set(i, e);
            proof {
                lemma_approval_of_update(s, i as int, e, owner@, operator@);
                assert forall|o: Seq<char>, p: Seq<char>| !(o == owner@ && p == operator@) implies
                    approval_of(v@, o, p) == approval_of(s, o, p) by {
                    lemma_approval_of_update(s, i as int, e, o, p);
                }
                assert(forall|j: int|
                    0 <= j < v@.len() ==> v@[j].owner@ == s[j].owner@ && v@[j].operator@
                        == s[j].operator@);
            }
        },
        None => {
            v.push(e);
            proof {
                lemma_approval_of_push_absent(s, e);
                assert forall|o: Seq<char>, p: Seq<char>| !(o == owner@ && p == operator@) implies
                    approval_of(v@, o, p) == approval_of(s, o, p) by {
                    lemma_approval_of_push_other(s, e, o, p);
                }
                assert(forall|j: int| 0 <= j < s.len() ==> v@[j] == s[j]);
            }
        },
    }
}

/// Removes the record for `(owner, operator)` if present; removing an absent
/// key changes nothing. Every other approval is untouched.
pub fn remove_approval(v: &mut Vec<ApprovalEntry>, owner: &String, operator: &String)
    requires
        appr_keys_unique(old(v)@),
    ensures
        appr_keys_unique(final(v)@),
        approval_of(final(v)@, owner@, operator@) is None,
        forall|o: Seq<char>, p: Seq<char>|
            !(o == owner@ && p == operator@) ==> approval_of(final(v)@, o, p) == approval_of(
                old(v)@,
                o,
                p,
            ),
{
    let idx = find_approval(v, owner, operator);
    let ghost s = v@;
    match idx {
        Some(i) => {
            v.remove(i);
            proof {
                assert(forall|j: int| 0 <= j < i ==> v@[j] == s[j]);
                assert(forall|j: int| i <= j < v@.len() ==> v@[j] == s[j + 1]);
                assert forall|j: int| 0 <= j < v@.len() implies !appr_key_is(
                    v@[j],
                    owner@,
                    operator@,
                ) by {
                    if j < i {
                    } else {
                        assert(v@[j] == s[j + 1]);
                    }
                }
                lemma_approval_of_absent(v@, owner@, operator@);
                assert forall|o: Seq<char>, p: Seq<char>| !(o == owner@ && p == operator@) implies
                    approval_of(v@, o, p) == approval_of(s, o, p) by {
                    lemma_approval_of_remove(s, i as int, o, p);
                }
            }
        },
        None => {
            proof {
                lemma_approval_of_absent(s, owner@, operator@);
            }
        },
    }
}

// ---------------------------------------------------------------------------
// Token registry: membership and registration.
// ---------------------------------------------------------------------------

/// Whether the registry holds an entry for the token identifier.
pub open spec fn has_token_in(s: Seq<String>, token: Seq<char>) -> bool {
    exists|i: int| 0 <= i < s.len() && s[i]@ == token
}

pub open spec fn tokens_unique(s: Seq<String>) -> bool {
    forall|i: int, j: int| 0 <= i < j < s.len() ==> s[i]@ != s[j]@
}

/// Ensures the registry holds an entry for `token_id`, creating one if
/// absent; entries are never removed.
pub fn register_token(v: &mut Vec<String>, token_id: &String)
    requires
        tokens_unique(old(v)@),
    ensures
        tokens_unique(final(v)@),
        has_token_in(final(v)@, token_id@),
        forall|t: Seq<char>| has_token_in(old(v)@, t) ==> has_token_in(final(v)@, t),
        forall|t: Seq<char>|
            has_token_in(final(v)@, t) ==> has_token_in(old(v)@, t) || t == token_id@,
{
    let n: usize = v.len();
    let mut i: usize = 0;
    while i < n
        invariant
            i <= n,
            n == v.len(),
            v@ == old(v)@,
            tokens_unique(v@),
            forall|j: int| 0 <= j < i ==> v@[j]@ != token_id@,
        decreases n - i,
    {
        if v[i] == *token_id {
            return ;
        }
        i = i + 1;
    }
    let ghost s = v@;
    v.push(token_id.clone());
    proof {
        assert(v@[s.len() as int]@ == token_id@);
        assert(forall|j: int| 0 <= j < s.len() ==> v@[j] == s[j]);
        assert forall|t: Seq<char>| has_token_in(v@, t) implies has_token_in(s, t) || t
            == token_id@ by {
            let i0 = choose|i0: int| 0 <= i0 < v@.len() && v@[i0]@ == t;
            if i0 < s.len() {
                assert(s[i0]@ == t);
            }
        }
    }
}

// ---------------------------------------------------------------------------
// Auctions: lookup and overwrite, with unique-key well-formedness.
// ---------------------------------------------------------------------------

pub open spec fn auction_key_is(e: AuctionEntry, seller: Seq<char>, token: Seq<char>) -> bool {
    e.seller@ == seller && e.token_id@ == token
}

/// The auction record stored for `(seller, token)`, if any.
pub open spec fn auction_of(
    s: Seq<AuctionEntry>,
    seller: Seq<char>,
    token: Seq<char>,
) -> Option<AuctionV>
    decreases s.len(),
{
    if s.len() == 0 {
        None
    } else if auction_key_is(s[0], seller, token) {
        Some(s[0].auction@)
    } else {
        auction_of(s.skip(1), seller, token)
    }
}

pub open spec fn auction_keys_unique(s: Seq<AuctionEntry>) -> bool {
    forall|i: int, j: int|
        0 <= i < j < s.len() ==> !(s[i].seller@ == s[j].seller@ && s[i].token_id@ == s[j].token_id@)
}

proof fn lemma_auction_of_first(s: Seq<AuctionEntry>, seller: Seq<char>, token: Seq<char>, i: int)
    requires
        0 <= i < s.len(),
        auction_key_is(s[i], seller, token),
        forall|j: int| 0 <= j < i ==> !auction_key_is(s[j], seller, token),
    ensures
        auction_of(s, seller, token) == Some(s[i].auction@),
    decreases i,
{
    if i > 0 {
        assert(s.skip(1)[i - 1] == s[i]);
        assert(forall|j: int| 0 <= j < i - 1 ==> s.skip(1)[j] == s[j + 1]);
        lemma_auction_of_first(s.skip(1), seller, token, i - 1);
    }
}

proof fn lemma_auction_of_absent(s: Seq<AuctionEntry>, seller: Seq<char>, token: Seq<char>)
    requires
        forall|j: int| 0 <= j < s.len() ==> !auction_key_is(s[j], seller, token),
    ensures
        auction_of(s, seller, token) is None,
    decreases s.len(),
{
    if s.len() > 0 {
        assert(forall|j: int| 0 <= j < s.len() - 1 ==> s.skip(1)[j] == s[j + 1]);
        lemma_auction_of_absent(s.skip(1), seller, token);
    }
}

proof fn lemma_auction_of_update(
    s: Seq<AuctionEntry>,
    i: int,
    e: AuctionEntry,
    seller: Seq<char>,
    token: Seq<char>,
)
    requires
        0 <= i < s.len(),
        e.seller@ == s[i].seller@,
        e.token_id@ == s[i].token_id@,
        forall|j: int| 0 <= j < i ==> !auction_key_is(s[j], s[i].seller@, s[i].token_id@),
    ensures
        auction_of(s.update(i, e), seller, token) == if auction_key_is(e, seller, token) {
            Some(e.auction@)
        } else {
            auction_of(s, seller, token)
        },
    decreases i,
{
    if i == 0 {
        if !auction_key_is(e, seller, token) {
            assert(s.update(0, e).skip(1) =~= s.skip(1));
        }
    } else {
        assert(s.update(i, e).skip(1) =~= s.skip(1).update(i - 1, e));
        assert(s.skip(1)[i - 1] == s[i]);
        assert(forall|j: int| 0 <= j < i - 1 ==> s.skip(1)[j] == s[j + 1]);
        lemma_auction_of_update(s.skip(1), i - 1, e, seller, token);
    }
}

proof fn lemma_auction_of_push_absent(s: Seq<AuctionEntry>, e: AuctionEntry)
    requires
        forall|j: int| 0 <= j < s.len() ==> !auction_key_is(s[j], e.seller@, e.token_id@),
    ensures
        auction_of(s.push(e), e.seller@, e.token_id@) == Some(e.auction@),
    decreases s.len(),
{
    if s.len() == 0 {
        assert(s.push(e)[0] == e);
    } else {
        assert(s.push(e)[0] == s[0]);
        assert(s.push(e).skip(1) =~= s.skip(1).push(e));
        assert(forall|j: int| 0 <= j < s.len() - 1 ==> s.skip(1)[j] == s[j + 1]);
        lemma_auction_of_push_absent(s.skip(1), e);
    }
}

proof fn lemma_auction_of_push_other(
    s: Seq<AuctionEntry>,
    e: AuctionEntry,
    seller: Seq<char>,
    token: Seq<char>,
)
    requires
        !(seller == e.seller@ && token == e.token_id@),
    ensures
        auction_of(s.push(e), seller, token) == auction_of(s, seller, token),
    decreases s.len(),
{
    if s.len() == 0 {
        assert(s.push(e)[0] == e);
        assert(s.push(e).skip(1) =~= s);
    } else {
        assert(s.push(e)[0] == s[0]);
        assert(s.push(e).skip(1) =~= s.skip(1).push(e));
        lemma_auction_of_push_other(s.skip(1), e, seller, token);
    }
}

fn find_auction(v: &Vec<AuctionEntry>, seller: &String, token_id: &String) -> (r: Option<usize>)
    ensures
        match r {
            Some(i) => i < v.len() && auction_key_is(v@[i as int], seller@, token_id@) && (forall|
                j: int,
            |
                0 <= j < i ==> !auction_key_is(v@[j], seller@, token_id@)),
            None => forall|j: int| 0 <= j < v@.len() ==> !auction_key_is(v@[j], seller@, token_id@),
        },
{
    let n: usize = v.len();
    let mut i: usize = 0;
    while i < n
        invariant
            i <= n,
            n == v.len(),
            forall|j: int| 0 <= j < i ==> !auction_key_is(v@[j], seller@, token_id@),
        decreases n - i,
    {
        if v[i].seller == *seller && v[i].token_id == *token_id {
            return Some(i);
        }
        i = i + 1;
    }
    None
}

/// A copy of the auction record stored for `(seller, token_id)`, if any.
pub fn read_auction(v: &Vec<AuctionEntry>, seller: &String, token_id: &String) -> (r: Option<
    Auction,
>)
    ensures
        match r {
            Some(a) => auction_of(v@, seller@, token_id@) == Some(a@),
            None => auction_of(v@, seller@, token_id@) is None,
        },
{
    let idx = find_auction(v, seller, token_id);
    match idx {
        Some(i) => {
            proof {
                lemma_auction_of_first(v@, seller@, token_id@, i as int);
            }
            Some(v[i].auction.clone())
        },
        None => {
            proof {
                lemma_auction_of_absent(v@, seller@, token_id@);
            }
            None
        },
    }
}

/// Overwrites (or creates) the record for `(seller, token_id)`; every other
/// auction is untouched.
pub fn set_auction(v: &mut Vec<AuctionEntry>, seller: &String, token_id: &String, auction: Auction)
    requires
        auction_keys_unique(old(v)@),
    ensures
        auction_keys_unique(final(v)@),
        auction_of(final(v)@, seller@, token_id@) == Some(auction@),
        forall|o: Seq<char>, t: Seq<char>|
            !(o == seller@ && t == token_id@) ==> auction_of(final(v)@, o, t) == auction_of(
                old(v)@,
                o,
                t,
            ),
{
    let idx = find_auction(v, seller, token_id);
    let ghost av = auction@;
    let e = AuctionEntry { seller: seller.clone(), token_id: token_id.clone(), auction };
    let ghost s = v@;
    match idx {
        Some(i) => {
            v.set(i, e);
            proof {
                lemma_auction_of_update(s, i as int, e, seller@, token_id@);
                assert forall|o: Seq<char>, t: Seq<char>| !(o == seller@ && t == token_id@) implies
                    auction_of(v@, o, t) == auction_of(s, o, t) by {
                    lemma_auction_of_update(s, i as int, e, o, t);
                }
                assert(forall|j: int|
                    0 <= j < v@.len() ==> v@[j].seller@ == s[j].seller@ && v@[j].token_id@
                        == s[j].token_id@);
            }
        },
        None => {
            v.push(e);
            proof {
                lemma_auction_of_push_absent(s, e);
                assert forall|o: Seq<char>, t: Seq<char>| !(o == seller@ && t == token_id@) implies
                    auction_of(v@, o, t) == auction_of(s, o, t) by {
                    lemma_auction_of_push_other(s, e, o, t);
                }
                assert(forall|j: int| 0 <= j < s.len() ==> v@[j] == s[j]);
            }
        },
    }
}

// ---------------------------------------------------------------------------
// The whole contract state.
// ---------------------------------------------------------------------------

/// The entire state the contract owns: the demo counter record, the single
/// account allowed to mint, and the four key-value spaces of the ledger.
/// One call works on one in-memory copy; the host persists it only when the
/// call succeeds as a whole.
pub struct ContractState {
    pub state: State,
    pub minter: String,
    pub balances: Vec<BalanceEntry>,
    pub approves: Vec<ApprovalEntry>,
    pub tokens: Vec<String>,
    pub auctions: Vec<AuctionEntry>,
}

impl ContractState {
    /// Each key-value space keys its records uniquely.
    pub open spec fn wf(&self) -> bool {
        &&& bal_keys_unique(self.balances@)
        &&& appr_keys_unique(self.approves@)
        &&& tokens_unique(self.tokens@)
        &&& auction_keys_unique(self.auctions@)
    }

    /// The balance of `owner` in `token`, zero when no record exists.
    pub open spec fn bal(&self, owner: Seq<char>, token: Seq<char>) -> u128 {
        bal_of(self.balances@, owner, token)
    }

    /// The total of all balances of `token` across owners.
    pub open spec fn supply_of(&self, token: Seq<char>) -> int {
        supply(self.balances@, token)
    }

    /// The approval record of `(owner, operator)`, if any.
    pub open spec fn approval(&self, owner: Seq<char>, operator: Seq<char>) -> Option<Expiration> {
        approval_of(self.approves@, owner, operator)
    }

    /// Whether the registry holds an entry for `token`.
    pub open spec fn has_token(&self, token: Seq<char>) -> bool {
        has_token_in(self.tokens@, token)
    }

    /// The auction record of `(seller, token)`, if any.
    pub open spec fn auction(&self, seller: Seq<char>, token: Seq<char>) -> Option<AuctionV> {
        auction_of(self.auctions@, seller, token)
    }

    /// A registry entry exists for every token identifier with a nonzero
    /// balance anywhere.
    pub open spec fn registry_ok(&self) -> bool {
        forall|o: Seq<char>, t: Seq<char>| self.bal(o, t) > 0 ==> self.has_token(t)
    }
}

} // verus!
