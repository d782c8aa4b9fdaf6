use std::collections::HashMap;
use vstd::prelude::*;

use crate::trading::{SessionView, TradeSession};

verus! {

broadcast use vstd::std_specs::hash::group_hash_axioms;

/// How one offered item changes hands: the whole stack changes owner, or `quantity` is split off
/// into a new stack for the receiver.
#[derive(Debug, Clone, Copy, PartialEq, Eq, Structural)]
pub struct ItemTransfer {
    pub item_id: u128,
    pub quantity: i32,
    pub whole_stack: bool,
}

/// Everything an accepted trade writes: item transfers in both directions and the balances
/// before and after.
#[derive(Debug, Clone)]
pub struct TradePlan {
    pub trade_id: u128,
    pub player_a: u128,
    pub player_b: u128,
    pub a_to_b: Vec<ItemTransfer>,
    pub b_to_a: Vec<ItemTransfer>,
    pub strands_a: i64,
    pub strands_b: i64,
    pub balance_a_before: i64,
    pub balance_b_before: i64,
    pub balance_a_after: i64,
    pub balance_b_after: i64,
}

/// `x` is representable as an `i64`.
pub open spec fn fits_i64(x: int) -> bool {
    i64::MIN <= x <= i64::MAX
}

/// Every offered item is still held by its owner in at least the offered quantity
/// (`stock[i]` is what the owner holds of the `i`-th offered item, `None` if nothing).
pub open spec fn offer_in_stock(items: Seq<(u128, i32)>, stock: Seq<Option<i32>>) -> bool {
    forall|i: int| 0 <= i < items.len() ==> (#[trigger] stock[i] matches Some(q) && q >= items[i].1)
}

/// What a stock entry says its owner holds (nothing counts as zero).
pub open spec fn stock_quantity(held: Option<i32>) -> int {
    match held {
        Some(q) => q as int,
        None => 0,
    }
}

/// What the giver holds of `item` when `m` records the quantities of the items already handed
/// over: the recorded quantity, or else the stock entry.
pub open spec fn held_from(m: Map<u128, int>, item: (u128, i32), held: Option<i32>) -> int {
    if m.contains_key(item.0) {
        m[item.0]
    } else {
        stock_quantity(held)
    }
}

/// The quantities, by item id, that the giver's stacks hold after the first `n` items of an
/// offer are handed over: a stack handed over whole keeps its quantity, a split one keeps the
/// rest.
pub open spec fn held_after(items: Seq<(u128, i32)>, stock: Seq<Option<i32>>, n: nat) -> Map<
    u128,
    int,
>
    decreases n,
{
    if n == 0 {
        Map::empty()
    } else {
        let m = held_after(items, stock, (n - 1) as nat);
        let item = items[n - 1];
        let h = held_from(m, item, stock[n - 1]);
        m.insert(item.0, if h == item.1 { h } else { h - item.1 })
    }
}

/// What the giver holds of the `i`-th offered item just before it is handed over; an item
/// offered twice is read again after the earlier transfer.
pub open spec fn held_at(items: Seq<(u128, i32)>, stock: Seq<Option<i32>>, i: int) -> int {
    held_from(held_after(items, stock, i as nat), items[i], stock[i])
}

/// How the `i`-th offered item is handed over: whole when the giver's stack holds exactly the
/// offered quantity at that moment, split otherwise.
pub open spec fn transfer_at(items: Seq<(u128, i32)>, stock: Seq<Option<i32>>, i: int) -> ItemTransfer {
    ItemTransfer {
        item_id: items[i].0,
        quantity: items[i].1,
        whole_stack: held_at(items, stock, i) == items[i].1,
    }
}

/// The strands that flow from B to A: what B offers minus what A offers.
pub open spec fn net_to_a(s: SessionView) -> int {
    s.offer_b.strands - s.offer_a.strands
}

/// All checks of an accepted trade pass.
pub open spec fn trade_checks_pass(
    s: SessionView,
    stock_a: Seq<Option<i32>>,
    stock_b: Seq<Option<i32>>,
    balance_a: i64,
    balance_b: i64,
) -> bool {
    &&& offer_in_stock(s.offer_a.items, stock_a)
    &&& offer_in_stock(s.offer_b.items, stock_b)
    &&& balance_a >= s.offer_a.strands
    &&& balance_b >= s.offer_b.strands
}

/// The error an accepted trade fails with, checked in order: A's items, B's items, A's balance,
/// B's balance.
pub open spec fn trade_error(
    s: SessionView,
    stock_a: Seq<Option<i32>>,
    stock_b: Seq<Option<i32>>,
    balance_a: i64,
    balance_b: i64,
) -> Seq<char> {
    if !offer_in_stock(s.offer_a.items, stock_a) || !offer_in_stock(s.offer_b.items, stock_b) {
        "Item no longer available"@
    } else if balance_a < s.offer_a.strands {
        "Player A has insufficient strands"@
    } else {
        "Player B has insufficient strands"@
    }
}

/// Checks that every offered item is held in at least its offered quantity.
fn check_stock(items: &Vec<(u128, i32)>, stock: &Vec<Option<i32>>) -> (r: bool)
    requires
        stock@.len() == items@.len(),
    ensures
        r == offer_in_stock(items@, stock@),
{
    let mut n: usize = 0;
    while n < items.len()
        invariant
            stock@.len() == items@.len(),
            n <= items@.len(),
            forall|i: int|
                0 <= i < n ==> (#[trigger] stock@[i] matches Some(q) && q >= items@[i].1),
        decreases items.len() - n,
    {
        match stock[n] {
            Some(q) => {
                if q < items[n].1 {
                    return false;
                }
            },
            None => {
                return false;
            },
        }
        n = n + 1;
    }
    true
}

/// The transfers for one side's offer, in order.
fn transfers_for(items: &Vec<(u128, i32)>, stock: &Vec<Option<i32>>) -> (r: Vec<ItemTransfer>)
    requires
        stock@.len() == items@.len(),
    ensures
        r@.len() == items@.len(),
        forall|i: int| 0 <= i < items@.len() ==> #[trigger] r@[i] == transfer_at(items@, stock@, i),
{
    let mut held: HashMap<u128, i128> = HashMap::new();
    let mut out: Vec<ItemTransfer> = Vec::new();
    let mut n: usize = 0;
    while n < items.len()
        invariant
            stock@.len() == items@.len(),
            n <= items@.len(),
            out@.len() == n,
            forall|i: int| 0 <= i < n ==> #[trigger] out@[i] == transfer_at(items@, stock@, i),
            forall|k: u128|
                #[trigger] held@.contains_key(k) <==> held_after(items@, stock@, n as nat).contains_key(k),
            forall|k: u128|
                #[trigger] held@.contains_key(k) ==> {
                    &&& held@[k] == held_after(items@, stock@, n as nat)[k]
                    &&& -(n + 1) * 0x8000_0000 <= held@[k] <= (n + 1) * 0x8000_0000
                },
        decreases items.len() - n,
    {
        let (item_id, quantity) = items[n];
        let h: i128 = match held.get(&item_id) {
            Some(v) => *v,
            None => match stock[n] {
                Some(q) => q as i128,
                None => 0,
            },
        };
        let whole = h == quantity as i128;
        let rest: i128 = if whole { h } else { h - quantity as i128 };
        proof {
            let m = held_after(items@, stock@, n as nat);
            assert(h == held_from(m, items@[n as int], stock@[n as int]));
            assert(held_after(items@, stock@, (n + 1) as nat) == m.insert(item_id, rest as int));
        }
        held.insert(item_id, rest);
        out.push(ItemTransfer { item_id, quantity, whole_stack: whole });
        n = n + 1;
    }
    out
}

/// Decides how an accepted trade is carried out. `stock_a[i]` is what A still holds of A's
/// `i`-th offered item (`None` if A no longer owns it), likewise `stock_b` for B; the balances
/// are the traders' current strands. Every offered item must still be held in the offered
/// quantity and each trader must afford their offer; then each side's items are handed over in
/// order, each whole when its holder's stack holds exactly the offered quantity at that moment
/// (an item offered twice is read again after its earlier transfer) and split otherwise, and
/// the net strands move from B to A.
pub fn plan_trade_execution(
    session: &TradeSession,
    stock_a: &Vec<Option<i32>>,
    stock_b: &Vec<Option<i32>>,
    balance_a: i64,
    balance_b: i64,
) -> (r: Result<TradePlan, String>)
    requires
        stock_a@.len() == session.offer_a.items@.len(),
        stock_b@.len() == session.offer_b.items@.len(),
        trade_checks_pass(session@, stock_a@, stock_b@, balance_a, balance_b) ==> {
            &&& fits_i64(net_to_a(session@))
            &&& fits_i64(balance_a + net_to_a(session@))
            &&& fits_i64(balance_b - net_to_a(session@))
        },
    ensures
        match r {
            Ok(plan) => {
                &&& trade_checks_pass(session@, stock_a@, stock_b@, balance_a, balance_b)
                &&& plan.trade_id == session.id
                &&& plan.player_a == session.player_a
                &&& plan.player_b == session.player_b
                &&& plan.a_to_b@.len() == session.offer_a.items@.len()
                &&& plan.b_to_a@.len() == session.offer_b.items@.len()
                &&& forall|i: int|
                    0 <= i < plan.a_to_b@.len() ==> #[trigger] plan.a_to_b@[i] == transfer_at(
                        session.offer_a.items@,
                        stock_a@,
                        i,
                    )
                &&& forall|i: int|
                    0 <= i < plan.b_to_a@.len() ==> #[trigger] plan.b_to_a@[i] == transfer_at(
                        session.offer_b.items@,
                        stock_b@,
                        i,
                    )
                &&& plan.strands_a == session.offer_a.strands
                &&& plan.strands_b == session.offer_b.strands
                &&& plan.balance_a_before == balance_a
                &&& plan.balance_b_before == balance_b
                &&& plan.balance_a_after == balance_a + net_to_a(session@)
                &&& plan.balance_b_after == balance_b - net_to_a(session@)
            },
            Err(e) => {
                &&& !trade_checks_pass(session@, stock_a@, stock_b@, balance_a, balance_b)
                &&& e@ == trade_error(session@, stock_a@, stock_b@, balance_a, balance_b)
            },
        },
{
    if !check_stock(&session.offer_a.items, stock_a) {
        return Err("Item no longer available".to_owned());
    }
    if !check_stock(&session.offer_b.items, stock_b) {
        return Err("Item no longer available".to_owned());
    }
    if balance_a < session.offer_a.strands {
        return Err("Player A has insufficient strands".to_owned());
    }
    if balance_b < session.offer_b.strands {
        return Err("Player B has insufficient strands".to_owned());
    }
    let net_strands = session.offer_b.strands - session.offer_a.strands;
    Ok(
        TradePlan {
            trade_id: session.id,
            player_a: session.player_a,
            player_b: session.player_b,
            a_to_b: transfers_for(&session.offer_a.items, stock_a),
            b_to_a: transfers_for(&session.offer_b.items, stock_b),
            strands_a: session.offer_a.strands,
            strands_b: session.offer_b.strands,
            balance_a_before: balance_a,
            balance_b_before: balance_b,
            balance_a_after: balance_a + net_strands,
            balance_b_after: balance_b - net_strands,
        },
    )
}

/// A trade moves strands between the two traders without creating or destroying any.
pub proof fn lemma_trade_conserves_strands(s: SessionView, balance_a: int, balance_b: int)
    ensures
        (balance_a + net_to_a(s)) + (balance_b - net_to_a(s)) == balance_a + balance_b,
{
}

/// A trader who offers no strands and receives none keeps their balance; each side's balance
/// changes by what the other offers minus what it offers itself.
pub proof fn lemma_trade_balance_changes(s: SessionView, balance_a: int, balance_b: int)
    ensures
        (balance_a + net_to_a(s)) - balance_a == s.offer_b.strands - s.offer_a.strands,
        (balance_b - net_to_a(s)) - balance_b == s.offer_a.strands - s.offer_b.strands,
{
}

} // verus!
