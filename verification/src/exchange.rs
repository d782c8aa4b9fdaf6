use vstd::prelude::*;

use crate::inventory::{fits_i32, merge_defined, merge_quantities, MergedItem};
use crate::text::{join3, str_eq};

verus! {

/// Quality of fiber bought at the exchange.
pub const STANDARD_FIBER_QUALITY: i32 = 50;

/// Sum of the quantities of the first `n` items.
pub open spec fn quantity_sum(items: Seq<(u128, String, i32)>, n: int) -> int
    decreases n,
{
    if n <= 0 {
        0
    } else {
        quantity_sum(items, n - 1) + items[n - 1].2
    }
}

/// The message for an item of a type that the exchange does not take.
pub open spec fn not_fiber_error(item_type: Seq<char>) -> Seq<char> {
    "Item type '"@ + item_type + "' cannot be deposited, only fiber"@
}

/// Message for an item that the exchange does not take.
fn not_fiber_message(item_type: &str) -> (r: String)
    ensures
        r@ == not_fiber_error(item_type@),
{
    join3("Item type '", item_type, "' cannot be deposited, only fiber")
}

/// A deposit must name at least one item.
pub fn check_deposit_request(item_count: usize) -> (r: Result<(), String>)
    ensures
        r is Ok <==> item_count > 0,
        r matches Err(e) ==> e@ == "No items specified"@,
{
    if item_count == 0 {
        return Err("No items specified".to_owned());
    }
    Ok(())
}

/// The amount of fiber a deposit hands in. `items` are the (id, type, quantity) of the requested
/// items that the player owns, `requested` the number of items asked for. Every requested item
/// must have been found, all of them must be fiber and the total must be positive.
pub fn deposit_total(items: &Vec<(u128, String, i32)>, requested: usize) -> (r: Result<i32, String>)
    requires
        forall|n: int| 0 <= n <= items@.len() ==> fits_i32(#[trigger] quantity_sum(items@, n)),
    ensures
        items@.len() != requested ==> (r matches Err(e) && e@
            == "Some items not found or not owned by you"@),
        items@.len() == requested && (exists|i: int|
            0 <= i < items@.len() && items@[i].1@ != "fiber"@) ==> (r matches Err(e) && exists|i: int|
            0 <= i < items@.len() && items@[i].1@ != "fiber"@ && (forall|j: int|
                0 <= j < i ==> items@[j].1@ == "fiber"@) && e@ == not_fiber_error(items@[i].1@)),
        r matches Ok(t) ==> {
            &&& items@.len() == requested
            &&& forall|i: int| 0 <= i < items@.len() ==> items@[i].1@ == "fiber"@
            &&& t == quantity_sum(items@, items@.len() as int)
            &&& t > 0
        },
        (items@.len() == requested && (forall|i: int|
            0 <= i < items@.len() ==> items@[i].1@ == "fiber"@)) ==> (if quantity_sum(
            items@,
            items@.len() as int,
        ) > 0 {
            r is Ok
        } else {
            r matches Err(e) && e@ == "No fiber to deposit"@
        }),
{
    if items.len() != requested {
        return Err("Some items not found or not owned by you".to_owned());
    }
    let mut total: i32 = 0;
    let mut n: usize = 0;
    while n < items.len()
        invariant
            items@.len() == requested,
            n <= items@.len(),
            forall|k: int| 0 <= k <= items@.len() ==> fits_i32(#[trigger] quantity_sum(items@, k)),
            total == quantity_sum(items@, n as int),
            forall|i: int| 0 <= i < n ==> items@[i].1@ == "fiber"@,
        decreases items.len() - n,
    {
        if !str_eq(items[n].1.as_str(), "fiber") {
            return Err(not_fiber_message(items[n].1.as_str()));
        }
        assert(fits_i32(quantity_sum(items@, n + 1)));
        total = total + items[n].2;
        n = n + 1;
    }
    if total <= 0 {
        return Err("No fiber to deposit".to_owned());
    }
    Ok(total)
}

/// The exchange's fee on a deposit of `gross` strands' worth of fiber: 0.5% (one two-hundredth),
/// rounded down.
pub open spec fn deposit_fee_of(gross: int) -> int {
    gross / 200
}

/// The fee and the strands credited for a deposit of `gross` fiber (one strand per unit): the
/// fee is 0.5% rounded down, the rest is credited. Computed on integers; the rounding is that
/// of `gross * 0.005` rounded down.
pub fn deposit_fee(gross: i32) -> (r: (i64, i64))
    requires
        gross > 0,
    ensures
        r.0 == deposit_fee_of(gross as int),
        r.1 == gross - r.0,
        r.1 > 0,
{
    let g = gross as i64;
    let fee = g / 200;
    (fee, g - fee)
}

/// The strands a withdrawal of `quantity` fiber costs: the quantity over 99.5% (what is left
/// after the 0.5% fee), rounded up.
pub open spec fn withdrawal_cost_of(quantity: int) -> int {
    (200 * quantity + 198) / 199
}

/// The strands a withdrawal of `quantity` fiber costs (the fee is the difference). Computed on
/// integers; the rounding is that of `quantity / 0.995` rounded up.
pub fn withdrawal_cost(quantity: i32) -> (r: i64)
    requires
        quantity > 0,
    ensures
        r == withdrawal_cost_of(quantity as int),
        r >= quantity,
{
    (200 * (quantity as i64) + 198) / 199
}

/// The deposit fee is 0.5% of the deposit rounded down: at most that share, and less than one
/// strand below it.
pub proof fn lemma_deposit_fee_rounds_down(gross: int)
    requires
        gross > 0,
    ensures
        200 * deposit_fee_of(gross) <= gross < 200 * (deposit_fee_of(gross) + 1),
        0 <= deposit_fee_of(gross) < gross,
{
}

/// A withdrawal costs the least number of strands of which 99.5% covers the fiber.
pub proof fn lemma_withdrawal_cost_is_least_cover(quantity: int)
    requires
        quantity > 0,
    ensures
        199 * withdrawal_cost_of(quantity) >= 200 * quantity,
        199 * (withdrawal_cost_of(quantity) - 1) < 200 * quantity,
{
}

/// A withdrawal must ask for a positive quantity.
pub fn check_withdraw_quantity(quantity: i32) -> (r: Result<(), String>)
    ensures
        r is Ok <==> quantity > 0,
        r matches Err(e) ==> e@ == "Quantity must be positive"@,
{
    if quantity <= 0 {
        return Err("Quantity must be positive".to_owned());
    }
    Ok(())
}

/// The fiber stack after adding `quantity` withdrawn fiber (of standard quality) to an existing
/// stack.
pub fn add_withdrawn_fiber(existing_quality: i32, existing_quantity: i32, quantity: i32) -> (r:
    MergedItem)
    requires
        merge_defined(
            existing_quality as int,
            existing_quantity as int,
            STANDARD_FIBER_QUALITY as int,
            quantity as int,
        ),
    ensures
        r == merge_quantities_spec(existing_quality, existing_quantity, quantity),
{
    merge_quantities(existing_quality, existing_quantity, STANDARD_FIBER_QUALITY, quantity)
}

/// The merged stack of standard-quality fiber added to an existing stack.
pub open spec fn merge_quantities_spec(existing_quality: i32, existing_quantity: i32, quantity: i32) -> MergedItem {
    MergedItem {
        quantity: (existing_quantity + quantity) as i32,
        quality: crate::inventory::merged_quality(
            existing_quality as int,
            existing_quantity as int,
            STANDARD_FIBER_QUALITY as int,
            quantity as int,
        ) as i32,
    }
}

} // verus!
