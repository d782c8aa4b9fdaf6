use vstd::prelude::*;

use crate::arith::{div_toward_zero, trunc_div};
use crate::container::{first_empty, ContainerState, MoveResult, SlotItem};
use crate::item::grade_of;
use crate::text::{decimal, decimal_text, join5};

verus! {

broadcast use vstd::std_specs::hash::group_hash_axioms;

/// The combined stack that a merge produces.
#[derive(Debug, Clone, Copy, PartialEq, Eq)]
pub struct MergedItem {
    pub quantity: i32,
    pub quality: i32,
}

/// `x` is representable as an `i32`.
pub open spec fn fits_i32(x: int) -> bool {
    i32::MIN <= x <= i32::MAX
}

/// Merging a stack of `n1` items of quality `q1` with `n2` items of quality `q2`
/// stays within `i32` and does not divide by an empty total.
pub open spec fn merge_defined(q1: int, n1: int, q2: int, n2: int) -> bool {
    &&& fits_i32(n1 + n2)
    &&& n1 + n2 != 0
    &&& fits_i32(q1 * n1)
    &&& fits_i32(q2 * n2)
    &&& fits_i32(q1 * n1 + q2 * n2)
    &&& !(q1 * n1 + q2 * n2 == i32::MIN && n1 + n2 == -1)
}

/// Quality of the merged stack: the quantity-weighted average, rounded toward zero.
pub open spec fn merged_quality(q1: int, n1: int, q2: int, n2: int) -> int {
    trunc_div(q1 * n1 + q2 * n2, n1 + n2)
}

/// Merging two non-empty stacks gives a quality between the two stacks' qualities.
pub proof fn lemma_merged_quality_between(q1: int, n1: int, q2: int, n2: int)
    requires
        n1 > 0,
        n2 > 0,
    ensures
        crate::arith::min_of(q1, q2) <= merged_quality(q1, n1, q2, n2) <= crate::arith::max_of(q1, q2),
{
    let lo = crate::arith::min_of(q1, q2);
    let hi = crate::arith::max_of(q1, q2);
    let t = n1 + n2;
    let s = q1 * n1 + q2 * n2;
    assert(lo * t <= s <= hi * t) by (nonlinear_arith)
        requires
            lo <= q1 <= hi,
            lo <= q2 <= hi,
            n1 > 0,
            n2 > 0,
            t == n1 + n2,
            s == q1 * n1 + q2 * n2,
    ;
    crate::arith::lemma_trunc_div_between(s, t, lo, hi);
}

/// Whether merging a stack of `n1` items of quality `q1` with one of `n2` items of quality `q2`
/// stays within `i32` (see `merge_defined`).
pub fn merge_fits(q1: i32, n1: i32, q2: i32, n2: i32) -> (r: bool)
    ensures
        r == merge_defined(q1 as int, n1 as int, q2 as int, n2 as int),
{
    let (a1, b1, a2, b2) = (q1 as i64, n1 as i64, q2 as i64, n2 as i64);
    let total = b1 + b2;
    assert(-0x4000_0000_0000_0000 <= a1 * b1 <= 0x4000_0000_0000_0000) by (nonlinear_arith)
        requires
            -0x8000_0000 <= a1 <= 0x8000_0000,
            -0x8000_0000 <= b1 <= 0x8000_0000,
    ;
    assert(-0x4000_0000_0000_0000 <= a2 * b2 <= 0x4000_0000_0000_0000) by (nonlinear_arith)
        requires
            -0x8000_0000 <= a2 <= 0x8000_0000,
            -0x8000_0000 <= b2 <= 0x8000_0000,
    ;
    let w1 = a1 * b1;
    let w2 = a2 * b2;
    let lo = i32::MIN as i64;
    let hi = i32::MAX as i64;
    lo <= total && total <= hi && total != 0 && lo <= w1 && w1 <= hi && lo <= w2 && w2 <= hi
        && lo <= w1 + w2 && w1 + w2 <= hi && !(w1 + w2 == lo && total == -1)
}

/// Merges a stack of `quantity_a` items of quality `quality_a` with one of `quantity_b` items of
/// quality `quality_b`: quantities add up and quality is the weighted average.
pub fn merge_quantities(quality_a: i32, quantity_a: i32, quality_b: i32, quantity_b: i32) -> (r:
    MergedItem)
    requires
        merge_defined(quality_a as int, quantity_a as int, quality_b as int, quantity_b as int),
    ensures
        r.quantity == quantity_a + quantity_b,
        r.quality == merged_quality(
            quality_a as int,
            quantity_a as int,
            quality_b as int,
            quantity_b as int,
        ),
{
    let total_qty = quantity_a + quantity_b;
    let weighted = quality_a * quantity_a + quality_b * quantity_b;
    MergedItem { quantity: total_qty, quality: div_toward_zero(weighted, total_qty) }
}

/// Merges two stacks of the same type: combined quantity and weighted average quality.
pub fn merge_items(source: &SlotItem, target: &SlotItem) -> (r: MergedItem)
    requires
        merge_defined(
            source.quality as int,
            source.quantity as int,
            target.quality as int,
            target.quantity as int,
        ),
    ensures
        r.quantity == source.quantity + target.quantity,
        r.quality == merged_quality(
            source.quality as int,
            source.quantity as int,
            target.quality as int,
            target.quantity as int,
        ),
{
    merge_quantities(source.quality, source.quantity, target.quality, target.quantity)
}

/// A stack moved to `slot`.
pub open spec fn placed(item: SlotItem, slot: i32) -> SlotItem {
    SlotItem { slot_index: slot, ..item }
}

/// The move of `item_id` from `source_slot` of `source` to `target_slot` of `target` would merge
/// two stacks of the same type.
pub open spec fn move_merges(
    source: ContainerState,
    target: ContainerState,
    item_id: u128,
    source_slot: i32,
    target_slot: i32,
) -> bool {
    &&& 0 <= target_slot < target.slot_count
    &&& source.slots@.contains_key(source_slot)
    &&& source.slots@[source_slot].item_id == item_id
    &&& target.slots@.contains_key(target_slot)
    &&& target.slots@[target_slot].item_type@ == source.slots@[source_slot].item_type@
}

/// Everything but the slots of a container is unchanged.
pub open spec fn same_header(a: ContainerState, b: ContainerState) -> bool {
    &&& a.id == b.id
    &&& a.container_type == b.container_type
    &&& a.slot_count == b.slot_count
    &&& a.layout_columns == b.layout_columns
}

/// The message for a target slot outside a container whose last slot is `last`.
pub open spec fn target_slot_error(slot: int, last: int) -> Seq<char> {
    "Target slot "@ + decimal(slot) + " out of bounds (0-"@ + decimal(last) + ")"@
}

/// Message for a target slot outside the container.
fn slot_out_of_bounds_message(slot: i32, last: i64) -> (r: String)
    ensures
        r@ == target_slot_error(slot as int, last as int),
{
    join5(
        "Target slot ",
        decimal_text(slot as i64).as_str(),
        " out of bounds (0-",
        decimal_text(last).as_str(),
        ")",
    )
}

/// Moving stack `item_id` from `source_slot` of `s0` to `target_slot` of `t0` gives result `r`
/// and containers `s1` and `t1`: the containers' headers stay; an out-of-range target slot, an
/// empty source slot and another stack in it are refused with their messages and change
/// nothing; otherwise the stack moves into an empty slot, merges into a stack of its type, or
/// trades places with a stack of another type.
pub open spec fn stack_moved(
    s0: ContainerState,
    t0: ContainerState,
    item_id: u128,
    source_slot: i32,
    target_slot: i32,
    r: Result<MoveResult, String>,
    s1: ContainerState,
    t1: ContainerState,
) -> bool {
    &&& same_header(s1, s0)
    &&& same_header(t1, t0)
    &&& ({
        let src = s0.slots@;
        let tgt = t0.slots@;
        let si = src[source_slot];
        let ti = tgt[target_slot];
        if target_slot < 0 || target_slot >= t0.slot_count {
            &&& r matches Err(e) && e@ == target_slot_error(
                target_slot as int,
                t0.slot_count - 1,
            )
            &&& s1.slots@ == src
            &&& t1.slots@ == tgt
        } else if !src.contains_key(source_slot) {
            &&& r matches Err(e) && e@ == "Source slot is empty"@
            &&& s1.slots@ == src
            &&& t1.slots@ == tgt
        } else if si.item_id != item_id {
            &&& r matches Err(e) && e@ == "Item ID mismatch"@
            &&& s1.slots@ == src
            &&& t1.slots@ == tgt
        } else if !tgt.contains_key(target_slot) {
            &&& r == Ok::<MoveResult, String>(MoveResult::Moved { item_id, to_slot: target_slot })
            &&& s1.slots@ == src.remove(source_slot)
            &&& t1.slots@ == tgt.insert(target_slot, placed(si, target_slot))
        } else if ti.item_type@ == si.item_type@ {
            let nq = si.quantity + ti.quantity;
            let nql = merged_quality(
                si.quality as int,
                si.quantity as int,
                ti.quality as int,
                ti.quantity as int,
            );
            let merged = t1.slots@[target_slot];
            &&& r == Ok::<MoveResult, String>(
                MoveResult::Merged {
                    source_item_id: si.item_id,
                    target_item_id: ti.item_id,
                    new_quantity: nq as i32,
                    new_quality: nql as i32,
                },
            )
            &&& s1.slots@ == src.remove(source_slot)
            &&& t1.slots@ == tgt.insert(target_slot, merged)
            &&& merged.item_id == ti.item_id
            &&& merged.item_type == ti.item_type
            &&& merged.item_name == ti.item_name
            &&& merged.quality == nql
            &&& merged.quality_grade@ == grade_of(nql)
            &&& merged.quantity == nq
            &&& merged.slot_index == target_slot
        } else {
            &&& r == Ok::<MoveResult, String>(
                MoveResult::Swapped {
                    item1_id: si.item_id,
                    item1_to_slot: target_slot,
                    item2_id: ti.item_id,
                    item2_to_slot: source_slot,
                },
            )
            &&& if s0.id == t0.id {
                &&& s1.slots@ == src.insert(
                    source_slot,
                    placed(ti, source_slot),
                ).insert(target_slot, placed(si, target_slot))
                &&& t1.slots@ == tgt
            } else {
                &&& s1.slots@ == src.insert(
                    source_slot,
                    placed(ti, source_slot),
                )
                &&& t1.slots@ == tgt.insert(
                    target_slot,
                    placed(si, target_slot),
                )
            }
        }
    })
}

/// Moves the stack `item_id` from `source_slot` of `source` to `target_slot` of `target`.
/// An empty target slot receives the stack; a stack of the same type absorbs it (quantities add,
/// quality is the weighted average); a stack of another type trades places with it.
pub fn move_item(
    source_container: &mut ContainerState,
    target_container: &mut ContainerState,
    item_id: u128,
    source_slot: i32,
    target_slot: i32,
) -> (r: Result<MoveResult, String>)
    requires
        move_merges(*old(source_container), *old(target_container), item_id, source_slot, target_slot)
            ==> merge_defined(
            old(source_container).slots@[source_slot].quality as int,
            old(source_container).slots@[source_slot].quantity as int,
            old(target_container).slots@[target_slot].quality as int,
            old(target_container).slots@[target_slot].quantity as int,
        ),
    ensures
        stack_moved(
            *old(source_container),
            *old(target_container),
            item_id,
            source_slot,
            target_slot,
            r,
            *final(source_container),
            *final(target_container),
        ),
{
    if target_slot < 0 || target_slot >= target_container.slot_count {
        let last: i64 = target_container.slot_count as i64 - 1;
        return Err(slot_out_of_bounds_message(target_slot, last));
    }
    let source_item = match source_container.get_slot(source_slot) {
        Some(item) => item.duplicate(),
        None => {
            return Err("Source slot is empty".to_owned());
        },
    };
    if source_item.item_id != item_id {
        return Err("Item ID mismatch".to_owned());
    }
    let target_item = match target_container.get_slot(target_slot) {
        Some(item) => Some(item.duplicate()),
        None => None,
    };
    match target_item {
        None => {
            source_container.slots.remove(&source_slot);
            let mut moved_item = source_item;
            moved_item.slot_index = target_slot;
            target_container.set_slot(target_slot, moved_item);
            Ok(MoveResult::Moved { item_id, to_slot: target_slot })
        },
        Some(target) => {
            if target.item_type == source_item.item_type {
                let merged = merge_items(&source_item, &target);
                source_container.slots.remove(&source_slot);
                let merged_slot_item = SlotItem::new(
                    target.item_id,
                    target.item_type.clone(),
                    target.item_name.clone(),
                    merged.quality,
                    merged.quantity,
                    target_slot,
                );
                target_container.set_slot(target_slot, merged_slot_item);
                Ok(
                    MoveResult::Merged {
                        source_item_id: source_item.item_id,
                        target_item_id: target.item_id,
                        new_quantity: merged.quantity,
                        new_quality: merged.quality,
                    },
                )
            } else {
                let same_container = source_container.id == target_container.id;
                let mut moved_source = source_item.duplicate();
                moved_source.slot_index = target_slot;
                let mut moved_target = target.duplicate();
                moved_target.slot_index = source_slot;
                if same_container {
                    source_container.set_slot(source_slot, moved_target);
                    source_container.set_slot(target_slot, moved_source);
                } else {
                    source_container.set_slot(source_slot, moved_target);
                    target_container.set_slot(target_slot, moved_source);
                }
                Ok(
                    MoveResult::Swapped {
                        item1_id: source_item.item_id,
                        item1_to_slot: target_slot,
                        item2_id: target.item_id,
                        item2_to_slot: source_slot,
                    },
                )
            }
        },
    }
}

/// How a stack moves into a slot of a stored container.
#[derive(Debug, Clone, Copy, PartialEq, Eq)]
pub enum StackMove {
    /// The slot was empty: the stack moves there.
    Moved,
    /// The slot held a stack of the same type, which absorbs the moved stack and then holds
    /// `quantity` items of `quality`; the moved stack is gone.
    Merged { target_item_id: u128, quantity: i32, quality: i32 },
    /// The slot held a stack of another type: the two stacks trade places.
    Swapped { target_item_id: u128 },
}

/// Decides how a stack of `source_type` (`source_quantity` items of `source_quality`) moves into
/// a slot holding `target` (its id, type, quality and quantity), or into an empty slot: an empty
/// slot receives it, a stack of the same type absorbs it (quantities add up, quality is the
/// weighted average), a stack of another type trades places with it.
pub fn plan_stack_move(
    source_type: &String,
    source_quality: i32,
    source_quantity: i32,
    target: &Option<(u128, String, i32, i32)>,
) -> (r: StackMove)
    requires
        match target {
            Some((_, ty, q, n)) => ty@ == source_type@ ==> merge_defined(
                source_quality as int,
                source_quantity as int,
                *q as int,
                *n as int,
            ),
            None => true,
        },
    ensures
        match target {
            None => r == StackMove::Moved,
            Some((id, ty, q, n)) => if ty@ == source_type@ {
                r == StackMove::Merged {
                    target_item_id: *id,
                    quantity: (source_quantity + *n) as i32,
                    quality: merged_quality(
                        source_quality as int,
                        source_quantity as int,
                        *q as int,
                        *n as int,
                    ) as i32,
                }
            } else {
                r == StackMove::Swapped { target_item_id: *id }
            },
        },
{
    match target {
        None => StackMove::Moved,
        Some((id, ty, q, n)) => {
            if *ty == *source_type {
                let merged = merge_quantities(source_quality, source_quantity, *q, *n);
                StackMove::Merged { target_item_id: *id, quantity: merged.quantity, quality: merged.quality }
            } else {
                StackMove::Swapped { target_item_id: *id }
            }
        },
    }
}

/// The message for a slot outside a stored container whose last slot is `last`.
pub open spec fn slot_range_error(slot: int, last: int) -> Seq<char> {
    "Slot "@ + decimal(slot) + " out of bounds (0-"@ + decimal(last) + ")"@
}

/// Message for a slot outside a stored container.
fn slot_range_message(slot: i32, last: i64) -> (r: String)
    ensures
        r@ == slot_range_error(slot as int, last as int),
{
    join5("Slot ", decimal_text(slot as i64).as_str(), " out of bounds (0-", decimal_text(last).as_str(), ")")
}

/// Checks that `slot` is one of the `slot_count` slots of a container.
pub fn check_slot_in_bounds(slot: i32, slot_count: i32) -> (r: Result<(), String>)
    ensures
        r is Ok <==> 0 <= slot < slot_count,
        r matches Err(e) ==> e@ == slot_range_error(slot as int, slot_count - 1),
{
    if slot < 0 || slot >= slot_count {
        return Err(slot_range_message(slot, slot_count as i64 - 1));
    }
    Ok(())
}

/// The quantity of items of type `ty` in slot `k` of `m` (none for an empty slot or another
/// type).
pub open spec fn slot_quantity(m: Map<i32, SlotItem>, ty: Seq<char>, k: i32) -> int {
    if m.contains_key(k) && m[k].item_type@ == ty {
        m[k].quantity as int
    } else {
        0
    }
}

/// The quantity of items of type `ty` in the slots `keys` of `m`.
pub open spec fn quantity_in(m: Map<i32, SlotItem>, ty: Seq<char>, keys: Set<i32>) -> int
    decreases keys.len(),
    when keys.finite()
{
    if keys.len() == 0 {
        0
    } else {
        let k = keys.choose();
        slot_quantity(m, ty, k) + quantity_in(m, ty, keys.remove(k))
    }
}

/// The total quantity of items of type `ty` in a container's slots.
pub open spec fn type_total(m: Map<i32, SlotItem>, ty: Seq<char>) -> int {
    quantity_in(m, ty, m.dom())
}

/// Every stack records the slot it is stored under.
pub open spec fn slots_indexed(m: Map<i32, SlotItem>) -> bool {
    forall|k: i32| #[trigger] m.contains_key(k) ==> m[k].slot_index == k
}

/// Any slot of `keys` can be counted first.
proof fn lemma_quantity_remove(m: Map<i32, SlotItem>, ty: Seq<char>, keys: Set<i32>, k: i32)
    requires
        keys.finite(),
        keys.contains(k),
    ensures
        quantity_in(m, ty, keys) == slot_quantity(m, ty, k) + quantity_in(m, ty, keys.remove(k)),
    decreases keys.len(),
{
    let c = keys.choose();
    if c != k {
        lemma_quantity_remove(m, ty, keys.remove(c), k);
        lemma_quantity_remove(m, ty, keys.remove(k), c);
        assert(keys.remove(c).remove(k) =~= keys.remove(k).remove(c));
    }
}

/// Two containers that agree on the slots `keys` hold the same quantities there.
proof fn lemma_quantity_agree(
    m1: Map<i32, SlotItem>,
    m2: Map<i32, SlotItem>,
    ty: Seq<char>,
    keys: Set<i32>,
)
    requires
        keys.finite(),
        forall|k: i32| keys.contains(k) ==> slot_quantity(m1, ty, k) == slot_quantity(m2, ty, k),
    ensures
        quantity_in(m1, ty, keys) == quantity_in(m2, ty, keys),
    decreases keys.len(),
{
    if keys.len() != 0 {
        let c = keys.choose();
        lemma_quantity_agree(m1, m2, ty, keys.remove(c));
    }
}

/// Putting a stack into slot `k` changes the total by what leaves and what enters slot `k`.
proof fn lemma_total_insert(m: Map<i32, SlotItem>, ty: Seq<char>, k: i32, v: SlotItem)
    requires
        m.dom().finite(),
    ensures
        type_total(m.insert(k, v), ty) == type_total(m, ty) - slot_quantity(m, ty, k)
            + slot_quantity(m.insert(k, v), ty, k),
{
    let m2 = m.insert(k, v);
    let rest = m.dom().remove(k);
    assert(m2.dom().remove(k) =~= rest);
    lemma_quantity_remove(m2, ty, m2.dom(), k);
    lemma_quantity_agree(m2, m, ty, rest);
    if m.dom().contains(k) {
        lemma_quantity_remove(m, ty, m.dom(), k);
    } else {
        assert(rest =~= m.dom());
    }
}

/// Emptying slot `k` takes what it held from the total.
proof fn lemma_total_remove(m: Map<i32, SlotItem>, ty: Seq<char>, k: i32)
    requires
        m.dom().finite(),
    ensures
        type_total(m.remove(k), ty) == type_total(m, ty) - slot_quantity(m, ty, k),
{
    if m.dom().contains(k) {
        let m2 = m.remove(k);
        assert(m2.dom() =~= m.dom().remove(k));
        lemma_quantity_remove(m, ty, m.dom(), k);
        lemma_quantity_agree(m2, m, ty, m2.dom());
    } else {
        assert(m.remove(k) =~= m);
    }
}

/// A successful move between two different containers neither creates nor destroys items:
/// for every item type, the two containers together hold as many items as before. Every stack
/// still records the slot it is stored under.
pub proof fn lemma_move_item_conserves_items(
    s0: ContainerState,
    t0: ContainerState,
    item_id: u128,
    source_slot: i32,
    target_slot: i32,
    r: Result<MoveResult, String>,
    s1: ContainerState,
    t1: ContainerState,
)
    requires
        stack_moved(s0, t0, item_id, source_slot, target_slot, r, s1, t1),
        r is Ok,
        s0.id != t0.id,
        slots_indexed(s0.slots@),
        slots_indexed(t0.slots@),
    ensures
        forall|ty: Seq<char>|
            #![trigger type_total(s1.slots@, ty)]
            type_total(s1.slots@, ty) + type_total(t1.slots@, ty) == type_total(s0.slots@, ty)
                + type_total(t0.slots@, ty),
        slots_indexed(s1.slots@),
        slots_indexed(t1.slots@),
{
    let src = s0.slots@;
    let tgt = t0.slots@;
    assert(src.dom().finite() && tgt.dom().finite()) by {
        vstd::std_specs::hash::axiom_hashmap_view_finite_dom(s0.slots);
        vstd::std_specs::hash::axiom_hashmap_view_finite_dom(t0.slots);
    }
    let si = src[source_slot];
    let ti = tgt[target_slot];
    assert forall|ty: Seq<char>|
        #![trigger type_total(s1.slots@, ty)]
        type_total(s1.slots@, ty) + type_total(t1.slots@, ty) == type_total(src, ty) + type_total(
            tgt,
            ty,
        ) by {
        if !tgt.contains_key(target_slot) {
            lemma_total_remove(src, ty, source_slot);
            lemma_total_insert(tgt, ty, target_slot, placed(si, target_slot));
        } else if ti.item_type@ == si.item_type@ {
            lemma_total_remove(src, ty, source_slot);
            lemma_total_insert(tgt, ty, target_slot, t1.slots@[target_slot]);
            assert(tgt.insert(target_slot, t1.slots@[target_slot]) == t1.slots@);
        } else {
            lemma_total_insert(src, ty, source_slot, placed(ti, source_slot));
            lemma_total_insert(tgt, ty, target_slot, placed(si, target_slot));
        }
    }
}

/// Where an item of `item_type` would go: a slot with a stack of that type to merge into
/// (`true`), otherwise the lowest free slot (`false`), otherwise nowhere.
pub fn find_slot_for_item(container: &ContainerState, item_type: &str) -> (r: Option<(i32, bool)>)
    ensures
        match r {
            Some((slot, true)) => container.slots@.contains_key(slot)
                && container.slots@[slot].item_type@ == item_type@,
            Some((slot, false)) => (forall|k: i32| #[trigger]
                container.slots@.contains_key(k) ==> container.slots@[k].item_type@
                    != item_type@) && first_empty(
                container.slots@,
                container.slot_count as int,
                slot as int,
            ),
            None => (forall|k: i32| #[trigger]
                container.slots@.contains_key(k) ==> container.slots@[k].item_type@
                    != item_type@) && (forall|j: i32|
                0 <= j < container.slot_count ==> #[trigger] container.slots@.contains_key(j)),
        },
{
    if let Some(slot) = container.find_slot_with_type(item_type) {
        return Some((slot, true));
    }
    if let Some(slot) = container.find_empty_slot() {
        return Some((slot, false));
    }
    None
}

/// The lowest slot index in `0..slot_count` that does not occur in `used`.
pub fn first_free_slot(used: &Vec<i32>, slot_count: i32) -> (r: Option<i32>)
    ensures
        match r {
            Some(s) => 0 <= s < slot_count && !used@.contains(s) && forall|j: i32|
                0 <= j < s ==> #[trigger] used@.contains(j),
            None => forall|j: i32| 0 <= j < slot_count ==> #[trigger] used@.contains(j),
        },
{
    let mut slot: i32 = 0;
    while slot < slot_count
        invariant
            0 <= slot,
            slot_count >= 0 ==> slot <= slot_count,
            forall|j: i32| 0 <= j < slot ==> #[trigger] used@.contains(j),
        decreases slot_count - slot,
    {
        let mut found = false;
        let mut n: usize = 0;
        while n < used.len()
            invariant
                n <= used@.len(),
                found <==> exists|m: int| 0 <= m < n && used@[m] == slot,
            decreases used.len() - n,
        {
            if used[n] == slot {
                found = true;
            }
            n = n + 1;
        }
        if !found {
            return Some(slot);
        }
        slot = slot + 1;
    }
    None
}

/// Where an item produced by the engine goes in its container.
#[derive(Debug, Clone, Copy, PartialEq, Eq)]
pub enum StoragePlan {
    /// Merge into the existing stack `item_id`, which then holds `quantity` of `quality`.
    Merge { item_id: u128, quantity: i32, quality: i32 },
    /// Create a new stack in this empty slot.
    NewStack { slot_index: i32 },
    /// The container has no room: the item is lost.
    Full,
}

/// Decides where to store `quantity` items of quality `quality`: with a stack of the same type
/// already in the container (`existing`: its id, quantity and quality) they merge into it
/// (quantities add up, quality is the weighted average); otherwise they go to the lowest slot
/// in `0..slot_count` that is not in use, if any.
pub fn plan_item_storage(
    existing: Option<(u128, i32, i32)>,
    used_slots: &Vec<i32>,
    slot_count: i32,
    quantity: i32,
    quality: i32,
) -> (r: StoragePlan)
    requires
        existing matches Some((_, n, q)) ==> merge_defined(
            q as int,
            n as int,
            quality as int,
            quantity as int,
        ),
    ensures
        match existing {
            Some((id, n, q)) => r == StoragePlan::Merge {
                item_id: id,
                quantity: (n + quantity) as i32,
                quality: merged_quality(q as int, n as int, quality as int, quantity as int) as i32,
            },
            None => match r {
                StoragePlan::NewStack { slot_index } => 0 <= slot_index < slot_count
                    && !used_slots@.contains(slot_index) && forall|j: i32|
                    0 <= j < slot_index ==> #[trigger] used_slots@.contains(j),
                StoragePlan::Full => forall|j: i32|
                    0 <= j < slot_count ==> #[trigger] used_slots@.contains(j),
                StoragePlan::Merge { .. } => false,
            },
        },
{
    match existing {
        Some((id, n, q)) => {
            let merged = merge_quantities(q, n, quality, quantity);
            StoragePlan::Merge { item_id: id, quantity: merged.quantity, quality: merged.quality }
        },
        None => match first_free_slot(used_slots, slot_count) {
            Some(slot) => StoragePlan::NewStack { slot_index: slot },
            None => StoragePlan::Full,
        },
    }
}

/// What is left of a stack of `current` items after `used` of them are used up: `None` when
/// nothing is left (the stack is deleted).
pub fn quantity_after_use(current: i32, used: i32) -> (r: Option<i32>)
    requires
        fits_i32(current - used),
    ensures
        r == (if current - used <= 0 {
            None
        } else {
            Some((current - used) as i32)
        }),
{
    let left = current - used;
    if left <= 0 {
        None
    } else {
        Some(left)
    }
}

} // verus!
