use std::collections::HashMap;
use vstd::prelude::*;
use vstd::string::StringExecFns;

use crate::arith::{is_multiple_of_five, trunc_div};
use crate::extraction::{ActionState, PendingItem};
use crate::item::{item_type_name, lookup_item_name, Item, ItemType};
use crate::keys::{keys_u128, lemma_prefix_grows, lemma_push_contains};
use crate::random::{new_random_id, random_in_range};
use crate::text::{decimal, decimal_text, join3};

verus! {

broadcast use vstd::std_specs::hash::group_hash_axioms;

/// An ingredient of a recipe: an item type and how many of it are needed.
#[derive(Debug, Clone)]
pub struct RecipeInput {
    pub item_type: String,
    pub quantity: i32,
}

/// A product of a recipe: an item type and the range of how many are made.
#[derive(Debug, Clone)]
pub struct RecipeOutput {
    pub item_type: String,
    pub quantity_min: i32,
    pub quantity_max: i32,
}

/// The range of the random adjustment of a crafted item's quality.
#[derive(Debug, Clone, Copy, PartialEq, Eq)]
pub struct QualityWeights {
    pub variance_min: i32,
    pub variance_max: i32,
}

impl Default for QualityWeights {
    /// The default adjustment: from -3 to +3.
    fn default() -> (r: QualityWeights)
        ensures
            r.variance_min == -3,
            r.variance_max == 3,
    {
        QualityWeights { variance_min: -3, variance_max: 3 }
    }
}

/// A recipe as the game engine uses it.
#[derive(Debug, Clone)]
pub struct Recipe {
    pub id: String,
    pub name: String,
    pub description: Option<String>,
    pub category: String,
    pub inputs: Vec<RecipeInput>,
    pub outputs: Vec<RecipeOutput>,
    pub base_duration_ticks: i32,
    pub quality_weights: QualityWeights,
    pub required_station_type: Option<String>,
}

/// An ingredient as shown to players.
#[derive(Debug, Clone)]
pub struct RecipeInputInfo {
    pub item_type: String,
    pub item_name: String,
    pub quantity: i32,
}

/// A product as shown to players.
#[derive(Debug, Clone)]
pub struct RecipeOutputInfo {
    pub item_type: String,
    pub item_name: String,
    pub quantity_min: i32,
    pub quantity_max: i32,
}

/// A recipe as shown to players, with item names resolved.
#[derive(Debug, Clone)]
pub struct RecipeInfo {
    pub id: String,
    pub name: String,
    pub description: Option<String>,
    pub category: String,
    pub inputs: Vec<RecipeInputInfo>,
    pub outputs: Vec<RecipeOutputInfo>,
    pub duration_ticks: i32,
    pub required_station_type: Option<String>,
}

/// A copy of an optional text.
fn copy_text(t: &Option<String>) -> (r: Option<String>)
    ensures
        r == *t,
{
    match t {
        Some(s) => Some(s.clone()),
        None => None,
    }
}

impl Recipe {
    /// The recipe as shown to players: its fields, with each ingredient and product named by its
    /// item type's display name (see `item_type_name`).
    pub fn to_info(&self, item_types: &Vec<ItemType>) -> (r: RecipeInfo)
        ensures
            r.id == self.id,
            r.name == self.name,
            r.description == self.description,
            r.category == self.category,
            r.duration_ticks == self.base_duration_ticks,
            r.required_station_type == self.required_station_type,
            r.inputs@.len() == self.inputs@.len(),
            forall|i: int|
                0 <= i < self.inputs@.len() ==> {
                    &&& (#[trigger] r.inputs@[i]).item_type == self.inputs@[i].item_type
                    &&& r.inputs@[i].item_name@ == item_type_name(
                        item_types@,
                        self.inputs@[i].item_type@,
                    )
                    &&& r.inputs@[i].quantity == self.inputs@[i].quantity
                },
            r.outputs@.len() == self.outputs@.len(),
            forall|i: int|
                0 <= i < self.outputs@.len() ==> {
                    &&& (#[trigger] r.outputs@[i]).item_type == self.outputs@[i].item_type
                    &&& r.outputs@[i].item_name@ == item_type_name(
                        item_types@,
                        self.outputs@[i].item_type@,
                    )
                    &&& r.outputs@[i].quantity_min == self.outputs@[i].quantity_min
                    &&& r.outputs@[i].quantity_max == self.outputs@[i].quantity_max
                },
    {
        let mut inputs: Vec<RecipeInputInfo> = Vec::new();
        let mut i: usize = 0;
        while i < self.inputs.len()
            invariant
                i <= self.inputs@.len(),
                inputs@.len() == i,
                forall|j: int|
                    0 <= j < i ==> {
                        &&& (#[trigger] inputs@[j]).item_type == self.inputs@[j].item_type
                        &&& inputs@[j].item_name@ == item_type_name(
                            item_types@,
                            self.inputs@[j].item_type@,
                        )
                        &&& inputs@[j].quantity == self.inputs@[j].quantity
                    },
            decreases self.inputs.len() - i,
        {
            let input = &self.inputs[i];
            inputs.push(
                RecipeInputInfo {
                    item_type: input.item_type.clone(),
                    item_name: lookup_item_name(item_types, &input.item_type),
                    quantity: input.quantity,
                },
            );
            i = i + 1;
        }
        let mut outputs: Vec<RecipeOutputInfo> = Vec::new();
        let mut k: usize = 0;
        while k < self.outputs.len()
            invariant
                k <= self.outputs@.len(),
                outputs@.len() == k,
                forall|j: int|
                    0 <= j < k ==> {
                        &&& (#[trigger] outputs@[j]).item_type == self.outputs@[j].item_type
                        &&& outputs@[j].item_name@ == item_type_name(
                            item_types@,
                            self.outputs@[j].item_type@,
                        )
                        &&& outputs@[j].quantity_min == self.outputs@[j].quantity_min
                        &&& outputs@[j].quantity_max == self.outputs@[j].quantity_max
                    },
            decreases self.outputs.len() - k,
        {
            let output = &self.outputs[k];
            outputs.push(
                RecipeOutputInfo {
                    item_type: output.item_type.clone(),
                    item_name: lookup_item_name(item_types, &output.item_type),
                    quantity_min: output.quantity_min,
                    quantity_max: output.quantity_max,
                },
            );
            k = k + 1;
        }
        RecipeInfo {
            id: self.id.clone(),
            name: self.name.clone(),
            description: copy_text(&self.description),
            category: self.category.clone(),
            inputs,
            outputs,
            duration_ticks: self.base_duration_ticks,
            required_station_type: copy_text(&self.required_station_type),
        }
    }
}

/// A crafting job in progress: the items it will use up and the qualities that went in.
#[derive(Debug, Clone)]
pub struct CraftingOperation {
    pub operation_id: u128,
    pub player_id: u128,
    pub recipe_id: String,
    /// Items to consume: (item id, quantity to consume).
    pub input_items_to_consume: Vec<(u128, i32)>,
    pub input_qualities: Vec<i32>,
}

/// Sum of a sequence of qualities.
pub open spec fn quality_sum(q: Seq<i32>) -> int
    decreases q.len(),
{
    if q.len() == 0 {
        0
    } else {
        quality_sum(q.drop_last()) + q.last()
    }
}

/// Clamps to the quality scale 0-100.
pub open spec fn clamp_quality(x: int) -> int {
    if x < 0 {
        0
    } else if x > 100 {
        100
    } else {
        x
    }
}

/// The quality of a crafted item before its random adjustment: 50 without inputs, otherwise the
/// average input quality rounded toward zero.
pub open spec fn base_output_quality(q: Seq<i32>) -> int {
    if q.len() == 0 {
        50
    } else {
        trunc_div(quality_sum(q), q.len() as int)
    }
}

/// The output quality for a given random adjustment `v`, clamped to 0-100.
pub open spec fn adjusted_quality(q: Seq<i32>, v: int) -> int {
    clamp_quality(base_output_quality(q) + v)
}

/// Quality sums and counts stay below 2^24, where the average is computed exactly.
pub open spec fn qualities_in_exact_range(q: Seq<i32>) -> bool {
    &&& q.len() < 0x100_0000
    &&& forall|n: int|
        0 <= n <= q.len() ==> -0x100_0000 < #[trigger] quality_sum(q.subrange(0, n)) < 0x100_0000
}

/// The average of the input qualities (50 without inputs), rounded toward zero.
pub fn average_quality(input_qualities: &Vec<i32>) -> (r: i32)
    requires
        qualities_in_exact_range(input_qualities@),
    ensures
        r == base_output_quality(input_qualities@),
{
    if input_qualities.len() == 0 {
        return 50;
    }
    let mut sum: i32 = 0;
    let mut n: usize = 0;
    while n < input_qualities.len()
        invariant
            n <= input_qualities@.len(),
            qualities_in_exact_range(input_qualities@),
            sum == quality_sum(input_qualities@.subrange(0, n as int)),
        decreases input_qualities.len() - n,
    {
        assert(input_qualities@.subrange(0, n + 1).drop_last() =~= input_qualities@.subrange(
            0,
            n as int,
        ));
        assert(-0x100_0000 < quality_sum(input_qualities@.subrange(0, n + 1)) < 0x100_0000);
        sum = sum + input_qualities[n];
        n = n + 1;
    }
    assert(input_qualities@.subrange(0, n as int) =~= input_qualities@);
    crate::arith::div_toward_zero(sum, input_qualities.len() as i32)
}

/// The quality of a crafted item: the average input quality (50 without inputs) plus a random
/// adjustment within the recipe's range, clamped to 0-100.
pub fn calculate_output_quality(input_qualities: &Vec<i32>, recipe: &Recipe) -> (r: i32)
    requires
        qualities_in_exact_range(input_qualities@),
        recipe.quality_weights.variance_min <= recipe.quality_weights.variance_max,
        input_qualities@.len() > 0 ==> {
            let b = base_output_quality(input_qualities@);
            &&& b + recipe.quality_weights.variance_min >= i32::MIN
            &&& b + recipe.quality_weights.variance_max <= i32::MAX
        },
    ensures
        input_qualities@.len() == 0 ==> r == 50,
        input_qualities@.len() > 0 ==> exists|v: int|
            recipe.quality_weights.variance_min <= v <= recipe.quality_weights.variance_max && r
                == #[trigger] adjusted_quality(input_qualities@, v),
{
    if input_qualities.len() == 0 {
        return 50;
    }
    let avg = average_quality(input_qualities);
    let variance = random_in_range(
        recipe.quality_weights.variance_min,
        recipe.quality_weights.variance_max,
    );
    let raw = avg + variance;
    assert(adjusted_quality(input_qualities@, variance as int) == clamp_quality(raw as int));
    if raw < 0 {
        0
    } else if raw > 100 {
        100
    } else {
        raw
    }
}

/// Stops a player's crafting, if any: its job is dropped and no items are used up. The player is
/// idle afterwards in any case; the result names the dropped job.
pub fn cancel_crafting(
    action: &mut ActionState,
    crafting_operations: &mut HashMap<u128, CraftingOperation>,
) -> (r: Option<u128>)
    ensures
        *final(action) == ActionState::Idle,
        match *old(action) {
            ActionState::Crafting { operation_id, .. } => {
                &&& r == Some(operation_id)
                &&& final(crafting_operations)@ == old(crafting_operations)@.remove(operation_id)
            },
            _ => r is None && final(crafting_operations)@ == old(crafting_operations)@,
        },
{
    let mut cancelled: Option<u128> = None;
    if let ActionState::Crafting { operation_id, .. } = action {
        let op_id = *operation_id;
        crafting_operations.remove(&op_id);
        cancelled = Some(op_id);
    }
    *action = ActionState::Idle;
    cancelled
}

/// What a recipe asks for, by item type; a type listed twice counts with its last quantity.
pub open spec fn requirements(inputs: Seq<RecipeInput>) -> Map<Seq<char>, int>
    decreases inputs.len(),
{
    if inputs.len() == 0 {
        Map::empty()
    } else {
        requirements(inputs.drop_last()).insert(
            inputs.last().item_type@,
            inputs.last().quantity as int,
        )
    }
}

/// The running account of matching items against requirements: what is still missing, which
/// items are used up (and how many of each) and the qualities that go in, one per unit used.
pub struct CraftTally {
    pub remaining: Map<Seq<char>, int>,
    pub consume: Seq<(u128, i32)>,
    pub qualities: Seq<i32>,
}

/// The smaller of two integers.
pub open spec fn min_int(a: int, b: int) -> int {
    if a < b {
        a
    } else {
        b
    }
}

/// Matches the offered items, in order, against the requirements: an item of a type that is
/// still needed contributes as many units as are needed, at most its quantity.
pub open spec fn tally(reqs: Map<Seq<char>, int>, items: Seq<Item>) -> CraftTally
    decreases items.len(),
{
    if items.len() == 0 {
        CraftTally { remaining: reqs, consume: Seq::empty(), qualities: Seq::empty() }
    } else {
        let t = tally(reqs, items.drop_last());
        let it = items.last();
        let k = it.item_type@;
        if t.remaining.contains_key(k) && t.remaining[k] > 0 {
            let u = min_int(t.remaining[k], it.quantity as int);
            CraftTally {
                remaining: t.remaining.insert(k, t.remaining[k] - u),
                consume: t.consume.push((it.id, u as i32)),
                qualities: t.qualities + Seq::new(
                    if u > 0 {
                        u as nat
                    } else {
                        0
                    },
                    |j: int| it.quality,
                ),
            }
        } else {
            t
        }
    }
}

/// Nothing is missing any more.
pub open spec fn requirements_met(remaining: Map<Seq<char>, int>) -> bool {
    forall|k: Seq<char>| #[trigger] remaining.contains_key(k) ==> remaining[k] <= 0
}

/// The outstanding requirements `v` (distinct types, in order) stand for the map `m`.
pub open spec fn tracks(v: Seq<(String, i64)>, m: Map<Seq<char>, int>) -> bool {
    &&& forall|i: int, j: int| 0 <= i < j < v.len() ==> v[i].0@ != v[j].0@
    &&& forall|i: int| 0 <= i < v.len() ==> m.contains_key(#[trigger] v[i].0@) && m[v[i].0@] == v[i].1
    &&& forall|k: Seq<char>| #[trigger] m.contains_key(k) ==> exists|i: int| 0 <= i < v.len() && v[i].0@ == k
}

/// The position of an item type among the outstanding requirements.
fn find_requirement(v: &Vec<(String, i64)>, item_type: &String) -> (r: Option<usize>)
    ensures
        match r {
            Some(i) => i < v@.len() && v@[i as int].0@ == item_type@,
            None => forall|i: int| 0 <= i < v@.len() ==> v@[i].0@ != item_type@,
        },
{
    let mut i: usize = 0;
    while i < v.len()
        invariant
            i <= v@.len(),
            forall|j: int| 0 <= j < i ==> v@[j].0@ != item_type@,
        decreases v.len() - i,
    {
        if v[i].0 == *item_type {
            return Some(i);
        }
        i = i + 1;
    }
    None
}

/// The message for `count` more items of type `item_type` still needed.
pub open spec fn missing_error(count: int, item_type: Seq<char>) -> Seq<char> {
    "Missing "@ + decimal(count) + " more "@ + item_type
}

/// `e` names one requirement that is still missing, with how many are still needed.
pub open spec fn missing_reason(remaining: Map<Seq<char>, int>, e: Seq<char>) -> bool {
    exists|k: Seq<char>|
        remaining.contains_key(k) && remaining[k] > 0 && e == #[trigger] missing_error(
            remaining[k],
            k,
        )
}

/// Message for an ingredient still missing.
fn missing_message(count: i64, item_type: &str) -> (r: String)
    ensures
        r@ == missing_error(count as int, item_type@),
{
    let mut out = join3("Missing ", decimal_text(count).as_str(), " more ");
    out.append(item_type);
    out
}

/// The requirements of a recipe, one entry per item type.
fn collect_requirements(recipe: &Recipe) -> (r: Vec<(String, i64)>)
    ensures
        tracks(r@, requirements(recipe.inputs@)),
{
    let mut rem: Vec<(String, i64)> = Vec::new();
    let mut n: usize = 0;
    while n < recipe.inputs.len()
        invariant
            n <= recipe.inputs@.len(),
            tracks(rem@, requirements(recipe.inputs@.subrange(0, n as int))),
        decreases recipe.inputs.len() - n,
    {
        let ghost before = rem@;
        let ghost m = requirements(recipe.inputs@.subrange(0, n as int));
        assert(recipe.inputs@.subrange(0, n + 1).drop_last() =~= recipe.inputs@.subrange(
            0,
            n as int,
        ));
        let input = &recipe.inputs[n];
        let ghost m2 = m.insert(input.item_type@, input.quantity as int);
        assert(requirements(recipe.inputs@.subrange(0, n + 1)) == m2);
        match find_requirement(&rem, &input.item_type) {
            Some(i) => {
                rem.set(i, (input.item_type.clone(), input.quantity as i64));
                assert(rem@[i as int].0@ == input.item_type@);
                assert forall|a: int| 0 <= a < rem@.len() implies m2.contains_key(
                    #[trigger] rem@[a].0@,
                ) && m2[rem@[a].0@] == rem@[a].1 by {
                    if a != i {
                        assert(rem@[a] == before[a]);
                        assert(before[a].0@ != before[i as int].0@);
                    }
                }
                assert forall|a: int, b: int| 0 <= a < b < rem@.len() implies rem@[a].0@
                    != rem@[b].0@ by {
                    assert(rem@[a].0@ == before[a].0@);
                    assert(rem@[b].0@ == before[b].0@);
                }
                assert forall|k: Seq<char>| #[trigger] m2.contains_key(k) implies exists|j: int|
                    0 <= j < rem@.len() && rem@[j].0@ == k by {
                    if k != input.item_type@ {
                        let j = choose|j: int| 0 <= j < before.len() && before[j].0@ == k;
                        assert(rem@[j].0@ == k);
                    } else {
                        assert(rem@[i as int].0@ == k);
                    }
                }
            },
            None => {
                rem.push((input.item_type.clone(), input.quantity as i64));
                assert forall|a: int| 0 <= a < rem@.len() implies m2.contains_key(
                    #[trigger] rem@[a].0@,
                ) && m2[rem@[a].0@] == rem@[a].1 by {
                    if a < before.len() {
                        assert(rem@[a] == before[a]);
                    }
                }
                assert forall|a: int, b: int| 0 <= a < b < rem@.len() implies rem@[a].0@
                    != rem@[b].0@ by {
                    if b < before.len() {
                        assert(rem@[a].0@ == before[a].0@);
                        assert(rem@[b].0@ == before[b].0@);
                    } else {
                        assert(rem@[a].0@ == before[a].0@);
                    }
                }
                assert forall|k: Seq<char>| #[trigger] m2.contains_key(k) implies exists|j: int|
                    0 <= j < rem@.len() && rem@[j].0@ == k by {
                    if k != input.item_type@ {
                        let j = choose|j: int| 0 <= j < before.len() && before[j].0@ == k;
                        assert(rem@[j].0@ == k);
                    } else {
                        assert(rem@[before.len() as int].0@ == k);
                    }
                }
            },
        }
        assert(tracks(rem@, m2));
        n = n + 1;
    }
    assert(recipe.inputs@.subrange(0, n as int) =~= recipe.inputs@);
    rem
}

/// Matches the offered items against the outstanding requirements `rem`, updating it; the
/// result is the items used up and the input qualities.
fn match_items(rem: &mut Vec<(String, i64)>, input_items: &Vec<Item>, Ghost(reqs): Ghost<
    Map<Seq<char>, int>,
>) -> (r: (Vec<(u128, i32)>, Vec<i32>))
    requires
        tracks(old(rem)@, reqs),
        forall|k: Seq<char>| #[trigger] reqs.contains_key(k) ==> i32::MIN <= reqs[k] <= i32::MAX,
        input_items@.len() < 0x8000_0000,
    ensures
        tracks(final(rem)@, tally(reqs, input_items@).remaining),
        r.0@ == tally(reqs, input_items@).consume,
        r.1@ == tally(reqs, input_items@).qualities,
{
    let mut consume: Vec<(u128, i32)> = Vec::new();
    let mut qualities: Vec<i32> = Vec::new();
    let mut n: usize = 0;
    while n < input_items.len()
        invariant
            n <= input_items@.len(),
            input_items@.len() < 0x8000_0000,
            tracks(rem@, tally(reqs, input_items@.subrange(0, n as int)).remaining),
            forall|k: Seq<char>| #[trigger]
                tally(reqs, input_items@.subrange(0, n as int)).remaining.contains_key(k) ==> {
                    let v = tally(reqs, input_items@.subrange(0, n as int)).remaining[k];
                    -0x8000_0000 * (n + 2) <= v <= 0x8000_0000 * (n + 2)
                },
            consume@ == tally(reqs, input_items@.subrange(0, n as int)).consume,
            qualities@ == tally(reqs, input_items@.subrange(0, n as int)).qualities,
        decreases input_items.len() - n,
    {
        let ghost t = tally(reqs, input_items@.subrange(0, n as int));
        let ghost before = rem@;
        assert(input_items@.subrange(0, n + 1).drop_last() =~= input_items@.subrange(0, n as int));
        assert(input_items@.subrange(0, n + 1).last() == input_items@[n as int]);
        let item = &input_items[n];
        match find_requirement(rem, &item.item_type) {
            Some(i) => {
                let required = rem[i].1;
                if required > 0 {
                    let use_quantity: i64 = if required < item.quantity as i64 {
                        required
                    } else {
                        item.quantity as i64
                    };
                    let u32q: i32 = use_quantity as i32;
                    assert(u32q as int == use_quantity as int);
                    let name = rem[i].0.clone();
                    rem.set(i, (name, required - use_quantity));
                    consume.push((item.id, u32q));
                    let ghost q0 = qualities@;
                    let mut c: i32 = 0;
                    while c < u32q
                        invariant
                            0 <= c,
                            c <= (if u32q > 0 { u32q } else { 0 }),
                            qualities@ == q0 + Seq::new(c as nat, |j: int| item.quality),
                        decreases u32q - c,
                    {
                        qualities.push(item.quality);
                        c = c + 1;
                        assert(qualities@ =~= q0 + Seq::new(c as nat, |j: int| item.quality));
                    }
                    assert(c as int == (if use_quantity > 0 {
                        use_quantity as int
                    } else {
                        0
                    }));
                    assert(qualities@ =~= q0 + Seq::new(
                        if use_quantity > 0 {
                            use_quantity as nat
                        } else {
                            0
                        },
                        |j: int| item.quality,
                    ));
                    let ghost m2 = t.remaining.insert(
                        item.item_type@,
                        t.remaining[item.item_type@] - use_quantity,
                    );
                    assert forall|k: Seq<char>| #[trigger] m2.contains_key(k) implies exists|j: int|
                        0 <= j < rem@.len() && rem@[j].0@ == k by {
                        if k != item.item_type@ {
                            let j = choose|j: int| 0 <= j < before.len() && before[j].0@ == k;
                            assert(rem@[j].0@ == k);
                        } else {
                            assert(rem@[i as int].0@ == k);
                        }
                    }
                }
            },
            None => {},
        }
        n = n + 1;
    }
    assert(input_items@.subrange(0, n as int) =~= input_items@);
    (consume, qualities)
}

/// Every required quantity is an `i32`.
proof fn lemma_requirements_fit(inputs: Seq<RecipeInput>)
    ensures
        forall|k: Seq<char>| #[trigger]
            requirements(inputs).contains_key(k) ==> i32::MIN <= requirements(inputs)[k]
                <= i32::MAX,
    decreases inputs.len(),
{
    if inputs.len() > 0 {
        lemma_requirements_fit(inputs.drop_last());
        let prev = requirements(inputs.drop_last());
        assert forall|k: Seq<char>| #[trigger]
            requirements(inputs).contains_key(k) implies i32::MIN <= requirements(inputs)[k]
            <= i32::MAX by {
            if k != inputs.last().item_type@ {
                assert(prev.contains_key(k));
            }
        }
    }
}

/// The first outstanding requirement that is still positive, if any.
fn first_missing(rem: &Vec<(String, i64)>, Ghost(m): Ghost<Map<Seq<char>, int>>) -> (r: Option<
    usize,
>)
    requires
        tracks(rem@, m),
    ensures
        match r {
            Some(i) => i < rem@.len() && rem@[i as int].1 > 0,
            None => requirements_met(m),
        },
{
    let mut i: usize = 0;
    while i < rem.len()
        invariant
            tracks(rem@, m),
            i <= rem@.len(),
            forall|j: int| 0 <= j < i ==> rem@[j].1 <= 0,
        decreases rem.len() - i,
    {
        if rem[i].1 > 0 {
            return Some(i);
        }
        i = i + 1;
    }
    assert forall|k: Seq<char>| #[trigger] m.contains_key(k) implies m[k] <= 0 by {
        let j = choose|j: int| 0 <= j < rem@.len() && rem@[j].0@ == k;
    }
    None
}

/// Starts crafting `recipe` from `input_items` with job id `operation_id`. The player must be
/// idle and the items, matched in order, must cover every ingredient; then the job records the
/// items to use up and the input qualities, and the player is crafting with no progress yet.
pub fn start_crafting_with_id(
    player_id: u128,
    action: &mut ActionState,
    recipe: &Recipe,
    input_items: &Vec<Item>,
    crafting_operations: &mut HashMap<u128, CraftingOperation>,
    operation_id: u128,
) -> (r: Result<u128, String>)
    requires
        input_items@.len() < 0x8000_0000,
    ensures
        ({
            let t = tally(requirements(recipe.inputs@), input_items@);
            &&& r is Ok <==> (*old(action) == ActionState::Idle && requirements_met(t.remaining))
            &&& *old(action) != ActionState::Idle ==> (r matches Err(e) && e@
                == "Already performing an action"@)
            &&& *old(action) == ActionState::Idle && !requirements_met(t.remaining) ==> (r matches Err(
                e,
            ) && missing_reason(t.remaining, e@))
            &&& r is Err ==> *final(action) == *old(action) && final(crafting_operations)@ == old(
                crafting_operations,
            )@
            &&& r matches Ok(id) ==> {
                let op = final(crafting_operations)@[operation_id];
                &&& id == operation_id
                &&& *final(action) == ActionState::Crafting {
                    operation_id,
                    recipe_id: recipe.id,
                    progress: 0,
                    duration: recipe.base_duration_ticks,
                }
                &&& final(crafting_operations)@ == old(crafting_operations)@.insert(operation_id, op)
                &&& op.operation_id == operation_id
                &&& op.player_id == player_id
                &&& op.recipe_id == recipe.id
                &&& op.input_items_to_consume@ == t.consume
                &&& op.input_qualities@ == t.qualities
            }
        }),
{
    match action {
        ActionState::Idle => {},
        _ => {
            return Err("Already performing an action".to_owned());
        },
    }
    let mut rem = collect_requirements(recipe);
    proof {
        lemma_requirements_fit(recipe.inputs@);
    }
    let (consume, qualities) = match_items(
        &mut rem,
        input_items,
        Ghost(requirements(recipe.inputs@)),
    );
    if let Some(i) = first_missing(
        &rem,
        Ghost(tally(requirements(recipe.inputs@), input_items@).remaining),
    ) {
        let e = missing_message(rem[i].1, rem[i].0.as_str());
        assert(missing_error(rem@[i as int].1 as int, rem@[i as int].0@) == e@);
        return Err(e);
    }
    let duration = recipe.base_duration_ticks;
    *action = ActionState::Crafting {
        operation_id,
        recipe_id: recipe.id.clone(),
        progress: 0,
        duration,
    };
    let op = CraftingOperation {
        operation_id,
        player_id,
        recipe_id: recipe.id.clone(),
        input_items_to_consume: consume,
        input_qualities: qualities,
    };
    crafting_operations.insert(operation_id, op);
    Ok(operation_id)
}

/// Starts crafting `recipe` from `input_items` under a fresh random job id (see
/// `start_crafting_with_id`).
pub fn start_crafting(
    player_id: u128,
    action: &mut ActionState,
    recipe: &Recipe,
    input_items: &Vec<Item>,
    crafting_operations: &mut HashMap<u128, CraftingOperation>,
) -> (r: Result<u128, String>)
    requires
        input_items@.len() < 0x8000_0000,
    ensures
        ({
            let t = tally(requirements(recipe.inputs@), input_items@);
            &&& r is Ok <==> (*old(action) == ActionState::Idle && requirements_met(t.remaining))
            &&& *old(action) != ActionState::Idle ==> (r matches Err(e) && e@
                == "Already performing an action"@)
            &&& *old(action) == ActionState::Idle && !requirements_met(t.remaining) ==> (r matches Err(
                e,
            ) && missing_reason(t.remaining, e@))
            &&& r is Err ==> *final(action) == *old(action) && final(crafting_operations)@ == old(
                crafting_operations,
            )@
            &&& r matches Ok(id) ==> {
                let op = final(crafting_operations)@[id];
                &&& *final(action) == ActionState::Crafting {
                    operation_id: id,
                    recipe_id: recipe.id,
                    progress: 0,
                    duration: recipe.base_duration_ticks,
                }
                &&& final(crafting_operations)@ == old(crafting_operations)@.insert(id, op)
                &&& op.operation_id == id
                &&& op.player_id == player_id
                &&& op.recipe_id == recipe.id
                &&& op.input_items_to_consume@ == t.consume
                &&& op.input_qualities@ == t.qualities
            }
        }),
{
    let id = new_random_id();
    start_crafting_with_id(player_id, action, recipe, input_items, crafting_operations, id)
}

/// A crafting job after a tick: one more unit of progress.
pub open spec fn crafting_step(a: ActionState) -> ActionState {
    match a {
        ActionState::Crafting { operation_id, recipe_id, progress, duration } => {
            ActionState::Crafting { operation_id, recipe_id, progress: (progress + 1) as i32, duration }
        },
        _ => a,
    }
}

/// The crafting job finishes at this tick.
pub open spec fn finishes_crafting(a: ActionState) -> bool {
    a matches ActionState::Crafting { progress, duration, .. } && progress + 1 >= duration
}

/// The crafting job reports its progress at this tick (every fifth unit).
pub open spec fn reports_crafting_progress(a: ActionState) -> bool {
    a matches ActionState::Crafting { progress, .. } && (progress + 1) % 5 == 0
}

/// The job an action crafts.
pub open spec fn crafting_job(a: ActionState) -> u128 {
    match a {
        ActionState::Crafting { operation_id, .. } => operation_id,
        _ => 0,
    }
}

/// The progress report of player `p`: (player, job, progress after the tick, duration).
pub open spec fn crafting_report(p: u128, a: ActionState) -> (u128, u128, u32, u32) {
    match a {
        ActionState::Crafting { operation_id, progress, duration, .. } => (
            p,
            operation_id,
            (progress + 1) as u32,
            duration as u32,
        ),
        _ => (p, 0, 0, 0),
    }
}

/// Every crafting job's progress can grow by one.
pub open spec fn crafting_progress_in_range(actions: Map<u128, ActionState>) -> bool {
    forall|p: u128| #[trigger]
        actions.contains_key(p) ==> match actions[p] {
            ActionState::Crafting { progress, .. } => progress < i32::MAX,
            _ => true,
        }
}

/// Player `p` finishes crafting job `k` at this tick.
pub open spec fn crafting_finisher(actions: Map<u128, ActionState>, p: u128, k: u128) -> bool {
    actions.contains_key(p) && finishes_crafting(actions[p]) && crafting_job(actions[p]) == k
}

/// The jobs that finish at this tick.
pub open spec fn finished_jobs(actions: Map<u128, ActionState>) -> Set<u128> {
    Set::new(|k: u128| exists|p: u128| #[trigger] crafting_finisher(actions, p, k))
}

/// The player a job belongs to.
pub open spec fn job_owner(ops: Map<u128, CraftingOperation>, k: u128) -> u128 {
    ops[k].player_id
}

/// Player `p` owns one of the `jobs` that exist in `ops`.
pub open spec fn owns_job_among(ops: Map<u128, CraftingOperation>, jobs: Set<u128>, p: u128) -> bool {
    exists|k: u128| jobs.contains(k) && ops.contains_key(k) && #[trigger] job_owner(ops, k) == p
}

/// Every job is stored under its own id.
pub open spec fn jobs_keyed(ops: Map<u128, CraftingOperation>) -> bool {
    forall|k: u128| #[trigger] ops.contains_key(k) ==> ops[k].operation_id == k
}

/// The first recipe with the given id, if any.
pub open spec fn find_recipe(recipes: Seq<Recipe>, id: Seq<char>) -> Option<Recipe>
    decreases recipes.len(),
{
    if recipes.len() == 0 {
        None
    } else if recipes[0].id@ == id {
        Some(recipes[0])
    } else {
        find_recipe(recipes.drop_first(), id)
    }
}

/// Looks up a recipe by id (the first one listed with that id).
pub fn lookup_recipe(recipes: &Vec<Recipe>, id: &String) -> (r: Option<usize>)
    ensures
        match r {
            Some(i) => i < recipes@.len() && find_recipe(recipes@, id@) == Some(recipes@[i as int]),
            None => find_recipe(recipes@, id@) is None,
        },
{
    let mut n: usize = 0;
    assert(recipes@.subrange(0, recipes@.len() as int) =~= recipes@);
    while n < recipes.len()
        invariant
            n <= recipes@.len(),
            find_recipe(recipes@, id@) == find_recipe(
                recipes@.subrange(n as int, recipes@.len() as int),
                id@,
            ),
        decreases recipes.len() - n,
    {
        assert(recipes@.subrange(n as int, recipes@.len() as int).drop_first() =~= recipes@.subrange(
            n + 1,
            recipes@.len() as int,
        ));
        if recipes[n].id == *id {
            return Some(n);
        }
        n = n + 1;
    }
    None
}

/// `x` could be the quality of an item crafted from inputs of qualities `q`: 50 without inputs,
/// otherwise the adjusted average for some adjustment within the recipe's range.
pub open spec fn crafted_quality(q: Seq<i32>, w: QualityWeights, x: int) -> bool {
    if q.len() == 0 {
        x == 50
    } else {
        exists|v: int| w.variance_min <= v <= w.variance_max && x == #[trigger] adjusted_quality(q, v)
    }
}

/// A crafted item's quality always lies on the quality scale 0-100.
pub proof fn lemma_crafted_quality_in_range(q: Seq<i32>, w: QualityWeights, x: int)
    requires
        crafted_quality(q, w, x),
    ensures
        0 <= x <= 100,
{
    if q.len() > 0 {
        let v = choose|v: int| w.variance_min <= v <= w.variance_max && x == #[trigger] adjusted_quality(q, v);
    }
}

/// Finishing the job is computable: where its recipe is known, the quality average is exact,
/// the adjustment range and every output's quantity range are non-empty, and the adjusted
/// quality fits in an `i32`.
pub open spec fn crafting_computable(op: CraftingOperation, recipes: Seq<Recipe>) -> bool {
    match find_recipe(recipes, op.recipe_id@) {
        None => true,
        Some(recipe) => {
            let q = op.input_qualities@;
            &&& qualities_in_exact_range(q)
            &&& recipe.quality_weights.variance_min <= recipe.quality_weights.variance_max
            &&& q.len() > 0 ==> {
                let b = base_output_quality(q);
                &&& b + recipe.quality_weights.variance_min >= i32::MIN
                &&& b + recipe.quality_weights.variance_max <= i32::MAX
            }
            &&& forall|k: int|
                0 <= k < recipe.outputs@.len() ==> #[trigger] recipe.outputs@[k].quantity_min
                    <= recipe.outputs@[k].quantity_max
        },
    }
}

/// Whether the qualities' running sums all stay below 2^24 (see `qualities_in_exact_range`).
pub fn check_qualities_exact(q: &Vec<i32>) -> (r: bool)
    ensures
        r == qualities_in_exact_range(q@),
{
    if q.len() >= 0x100_0000 {
        return false;
    }
    let mut sum: i64 = 0;
    let mut n: usize = 0;
    assert(quality_sum(q@.subrange(0, 0)) == 0);
    while n < q.len()
        invariant
            n <= q@.len() < 0x100_0000,
            sum == quality_sum(q@.subrange(0, n as int)),
            forall|m: int|
                0 <= m <= n ==> -0x100_0000 < #[trigger] quality_sum(q@.subrange(0, m)) < 0x100_0000,
        decreases q.len() - n,
    {
        assert(q@.subrange(0, n + 1).drop_last() =~= q@.subrange(0, n as int));
        assert(q@.subrange(0, n + 1).last() == q@[n as int]);
        sum = sum + q[n] as i64;
        if sum <= -0x100_0000 || sum >= 0x100_0000 {
            assert(!(-0x100_0000 < quality_sum(q@.subrange(0, n + 1)) < 0x100_0000));
            return false;
        }
        n = n + 1;
    }
    true
}

/// Whether finishing job `op` is computable (see `crafting_computable`).
pub fn job_computable(op: &CraftingOperation, recipes: &Vec<Recipe>) -> (r: bool)
    ensures
        r == crafting_computable(*op, recipes@),
{
    let i = match lookup_recipe(recipes, &op.recipe_id) {
        None => {
            return true;
        },
        Some(i) => i,
    };
    let recipe = &recipes[i];
    if !check_qualities_exact(&op.input_qualities) {
        return false;
    }
    let w = recipe.quality_weights;
    if w.variance_min > w.variance_max {
        return false;
    }
    if op.input_qualities.len() > 0 {
        let b = average_quality(&op.input_qualities) as i64;
        if b + (w.variance_min as i64) < i32::MIN as i64 || b + (w.variance_max as i64) > i32::MAX
            as i64 {
            return false;
        }
    }
    let mut k: usize = 0;
    while k < recipe.outputs.len()
        invariant
            k <= recipe.outputs@.len(),
            find_recipe(recipes@, op.recipe_id@) == Some(*recipe),
            forall|j: int|
                0 <= j < k ==> #[trigger] recipe.outputs@[j].quantity_min
                    <= recipe.outputs@[j].quantity_max,
        decreases recipe.outputs.len() - k,
    {
        if recipe.outputs[k].quantity_min > recipe.outputs[k].quantity_max {
            return false;
        }
        k = k + 1;
    }
    true
}

/// An item made by a finished crafting job.
#[derive(Debug, Clone)]
pub struct CraftedItem {
    pub player_id: u128,
    pub operation_id: u128,
    pub item_type: String,
    pub item_name: String,
    pub quantity: i32,
    pub quality: i32,
}

/// What a finished crafting job produced: its items (in the recipe's output order), the items to
/// store, and the input items to use up. Without a known recipe nothing is made or used up.
#[derive(Debug, Clone)]
pub struct CraftingCompletion {
    pub operation_id: u128,
    pub player_id: u128,
    pub recipe_found: bool,
    /// The quality shared by all items made (meaningful when the recipe was found).
    pub quality: i32,
    pub outputs: Vec<CraftedItem>,
    pub pending_items: Vec<PendingItem>,
    pub items_to_consume: Vec<(u128, i32)>,
}

/// `c` is a possible outcome of finishing job `op`.
pub open spec fn valid_crafting_completion(
    c: CraftingCompletion,
    op: CraftingOperation,
    recipes: Seq<Recipe>,
    item_types: Seq<ItemType>,
) -> bool {
    &&& c.operation_id == op.operation_id
    &&& c.player_id == op.player_id
    &&& match find_recipe(recipes, op.recipe_id@) {
        None => {
            &&& !c.recipe_found
            &&& c.outputs@.len() == 0
            &&& c.pending_items@.len() == 0
            &&& c.items_to_consume@.len() == 0
        },
        Some(recipe) => {
            &&& c.recipe_found
            &&& crafted_quality(op.input_qualities@, recipe.quality_weights, c.quality as int)
            &&& c.items_to_consume@ == op.input_items_to_consume@
            &&& c.outputs@.len() == recipe.outputs@.len()
            &&& c.pending_items@.len() == recipe.outputs@.len()
            &&& forall|k: int|
                0 <= k < recipe.outputs@.len() ==> crafted_output(
                    #[trigger] c.outputs@[k],
                    c.pending_items@[k],
                    op,
                    recipe.outputs@[k],
                    c.quality,
                    item_types,
                )
        },
    }
}

/// `item` and `pending` are the product of output `out` of job `op`, made in quality `quality`.
pub open spec fn crafted_output(
    item: CraftedItem,
    pending: PendingItem,
    op: CraftingOperation,
    out: RecipeOutput,
    quality: i32,
    item_types: Seq<ItemType>,
) -> bool {
    &&& item.player_id == op.player_id
    &&& item.operation_id == op.operation_id
    &&& item.item_type == out.item_type
    &&& item.item_name@ == item_type_name(item_types, out.item_type@)
    &&& out.quantity_min <= item.quantity <= out.quantity_max
    &&& item.quality == quality
    &&& pending.player_id == op.player_id
    &&& pending.item_type == out.item_type
    &&& pending.quantity == item.quantity
    &&& pending.quality == quality
    &&& pending.target_container_type matches Some(t) && t@ == "crafting_output"@
}

/// Advances every crafting job by one unit. The result lists the progress reports (every fifth
/// unit) and the (player, job) pairs that finish at this tick, each once.
pub fn advance_crafting(actions: &mut HashMap<u128, ActionState>) -> (r: (
    Vec<(u128, u128, u32, u32)>,
    Vec<(u128, u128)>,
))
    requires
        crafting_progress_in_range(old(actions)@),
    ensures
        final(actions)@.dom() == old(actions)@.dom(),
        forall|p: u128| #[trigger]
            old(actions)@.contains_key(p) ==> final(actions)@[p] == crafting_step(old(actions)@[p]),
        r.0@.no_duplicates(),
        forall|e: (u128, u128, u32, u32)| #[trigger]
            r.0@.contains(e) <==> (old(actions)@.contains_key(e.0) && reports_crafting_progress(
                old(actions)@[e.0],
            ) && e == crafting_report(e.0, old(actions)@[e.0])),
        r.1@.no_duplicates(),
        forall|e: (u128, u128)| #[trigger]
            r.1@.contains(e) <==> crafting_finisher(old(actions)@, e.0, e.1),
{
    let keys = keys_u128(actions);
    let ghost m0 = actions@;
    let mut progress_updates: Vec<(u128, u128, u32, u32)> = Vec::new();
    let mut finished: Vec<(u128, u128)> = Vec::new();
    let mut i: usize = 0;
    while i < keys.len()
        invariant
            keys@.to_set() == m0.dom(),
            keys@.no_duplicates(),
            i <= keys@.len(),
            crafting_progress_in_range(m0),
            actions@.dom() == m0.dom(),
            forall|p: u128| #[trigger]
                m0.contains_key(p) ==> actions@[p] == if keys@.subrange(0, i as int).contains(p) {
                    crafting_step(m0[p])
                } else {
                    m0[p]
                },
            progress_updates@.no_duplicates(),
            forall|e: (u128, u128, u32, u32)| #[trigger]
                progress_updates@.contains(e) <==> (keys@.subrange(0, i as int).contains(e.0)
                    && m0.contains_key(e.0) && reports_crafting_progress(m0[e.0]) && e
                    == crafting_report(e.0, m0[e.0])),
            finished@.no_duplicates(),
            forall|e: (u128, u128)| #[trigger]
                finished@.contains(e) <==> (keys@.subrange(0, i as int).contains(e.0)
                    && crafting_finisher(m0, e.0, e.1)),
        decreases keys.len() - i,
    {
        let p = keys[i];
        proof {
            lemma_prefix_grows(keys@, i as int);
            assert(keys@.to_set().contains(p));
        }
        let ghost pr0 = progress_updates@;
        let ghost f0 = finished@;
        let info: Option<(u128, String, i32, i32)> = match actions.get(&p) {
            Some(ActionState::Crafting { operation_id, recipe_id, progress, duration }) => Some(
                (*operation_id, recipe_id.clone(), *progress, *duration),
            ),
            _ => None,
        };
        match info {
            None => {
                assert(!(m0[p] is Crafting));
            },
            Some((op, rid, progress, duration)) => {
                assert(m0[p] == ActionState::Crafting {
                    operation_id: op,
                    recipe_id: rid,
                    progress,
                    duration,
                });
                let next = progress + 1;
                let at_fifth = is_multiple_of_five(next);
                if at_fifth {
                    let entry = (p, op, next as u32, duration as u32);
                    proof {
                        lemma_push_contains(pr0, entry);
                    }
                    progress_updates.push(entry);
                }
                if next >= duration {
                    proof {
                        lemma_push_contains(f0, (p, op));
                    }
                    finished.push((p, op));
                }
                actions.insert(
                    p,
                    ActionState::Crafting { operation_id: op, recipe_id: rid, progress: next, duration },
                );
                proof {
                    assert forall|e: (u128, u128, u32, u32)|
                        progress_updates@.contains(e) <==> (keys@.subrange(0, i + 1).contains(e.0)
                            && m0.contains_key(e.0) && reports_crafting_progress(m0[e.0]) && e
                            == crafting_report(e.0, m0[e.0])) by {
                        assert(pr0.contains(e) <==> (keys@.subrange(0, i as int).contains(e.0)
                            && m0.contains_key(e.0) && reports_crafting_progress(m0[e.0]) && e
                            == crafting_report(e.0, m0[e.0])));
                        if at_fifth {
                            assert(progress_updates@ == pr0.push((p, op, next as u32, duration as u32)));
                        } else {
                            assert(progress_updates@ == pr0);
                        }
                    }
                    assert forall|e: (u128, u128)|
                        finished@.contains(e) <==> (keys@.subrange(0, i + 1).contains(e.0)
                            && crafting_finisher(m0, e.0, e.1)) by {
                        assert(f0.contains(e) <==> (keys@.subrange(0, i as int).contains(e.0)
                            && crafting_finisher(m0, e.0, e.1)));
                        if next >= duration {
                            assert(finished@ == f0.push((p, op)));
                        } else {
                            assert(finished@ == f0);
                        }
                    }
                }
            },
        }
        assert(actions@.dom() =~= m0.dom());
        i = i + 1;
    }
    proof {
        assert(keys@.subrange(0, i as int) =~= keys@);
        assert forall|x: u128| m0.contains_key(x) implies keys@.contains(x) by {
            assert(keys@.to_set().contains(x));
        }
    }
    (progress_updates, finished)
}

/// Finishes crafting job `k`, if it exists: the job is removed, its player becomes idle, and
/// where its recipe is known each of the recipe's outputs is made in a random quantity within
/// its range, all in one quality (see `calculate_output_quality`), to be stored in the player's
/// crafting output; the job's input items are then used up.
pub fn complete_crafting(
    k: u128,
    actions: &mut HashMap<u128, ActionState>,
    operations: &mut HashMap<u128, CraftingOperation>,
    recipes: &Vec<Recipe>,
    item_types: &Vec<ItemType>,
) -> (r: Option<CraftingCompletion>)
    requires
        old(operations)@.contains_key(k) ==> crafting_computable(old(operations)@[k], recipes@),
    ensures
        !old(operations)@.contains_key(k) ==> r is None && final(operations)@ == old(operations)@
            && final(actions)@ == old(actions)@,
        old(operations)@.contains_key(k) ==> {
            let op = old(operations)@[k];
            &&& r matches Some(c) && valid_crafting_completion(c, op, recipes@, item_types@)
            &&& final(operations)@ == old(operations)@.remove(k)
            &&& final(actions)@ == if old(actions)@.contains_key(op.player_id) {
                old(actions)@.insert(op.player_id, ActionState::Idle)
            } else {
                old(actions)@
            }
        },
{
    let op = match operations.remove(&k) {
        Some(op) => op,
        None => {
            return None;
        },
    };
    let owner = op.player_id;
    let completion = match lookup_recipe(recipes, &op.recipe_id) {
        None => CraftingCompletion {
            operation_id: op.operation_id,
            player_id: owner,
            recipe_found: false,
            quality: 0,
            outputs: Vec::new(),
            pending_items: Vec::new(),
            items_to_consume: Vec::new(),
        },
        Some(i) => {
            let recipe = &recipes[i];
            let quality = calculate_output_quality(&op.input_qualities, recipe);
            let mut outputs: Vec<CraftedItem> = Vec::new();
            let mut pending: Vec<PendingItem> = Vec::new();
            let mut n: usize = 0;
            while n < recipe.outputs.len()
                invariant
                    n <= recipe.outputs@.len(),
                    owner == op.player_id,
                    crafting_computable(op, recipes@),
                    find_recipe(recipes@, op.recipe_id@) == Some(*recipe),
                    outputs@.len() == n,
                    pending@.len() == n,
                    forall|j: int|
                        0 <= j < n ==> crafted_output(
                            #[trigger] outputs@[j],
                            pending@[j],
                            op,
                            recipe.outputs@[j],
                            quality,
                            item_types@,
                        ),
                decreases recipe.outputs.len() - n,
            {
                let out = &recipe.outputs[n];
                assert(out.quantity_min <= out.quantity_max);
                let quantity = random_in_range(out.quantity_min, out.quantity_max);
                let name = lookup_item_name(item_types, &out.item_type);
                proof {
                    reveal_strlit("crafting_output");
                }
                let target = "crafting_output".to_owned();
                pending.push(
                    PendingItem {
                        player_id: owner,
                        item_type: out.item_type.clone(),
                        quantity,
                        quality,
                        target_container_type: Some(target),
                    },
                );
                outputs.push(
                    CraftedItem {
                        player_id: owner,
                        operation_id: op.operation_id,
                        item_type: out.item_type.clone(),
                        item_name: name,
                        quantity,
                        quality,
                    },
                );
                assert(crafted_output(
                    outputs@[n as int],
                    pending@[n as int],
                    op,
                    recipe.outputs@[n as int],
                    quality,
                    item_types@,
                ));
                n = n + 1;
            }
            CraftingCompletion {
                operation_id: op.operation_id,
                player_id: owner,
                recipe_found: true,
                quality,
                outputs,
                pending_items: pending,
                items_to_consume: op.input_items_to_consume,
            }
        },
    };
    if actions.contains_key(&owner) {
        actions.insert(owner, ActionState::Idle);
    }
    Some(completion)
}

/// What one tick of crafting produced, for the events and the storage of items.
#[derive(Debug, Clone)]
pub struct CraftingReport {
    /// (player, job, progress, duration) of jobs at a fifth unit of progress.
    pub progress_updates: Vec<(u128, u128, u32, u32)>,
    /// Every (player, job) that finished.
    pub finished: Vec<(u128, u128)>,
    /// One completion per finished job that still existed.
    pub completions: Vec<CraftingCompletion>,
}

/// The tick's crafting arithmetic stays in range: progress can grow by one, the jobs are stored
/// under their ids, and every job that finishes can be completed.
pub open spec fn crafting_tick_in_range(
    actions: Map<u128, ActionState>,
    ops: Map<u128, CraftingOperation>,
    recipes: Seq<Recipe>,
) -> bool {
    &&& crafting_progress_in_range(actions)
    &&& jobs_keyed(ops)
    &&& forall|p: u128, k: u128|
        #[trigger] crafting_finisher(actions, p, k) && ops.contains_key(k) ==> crafting_computable(
            ops[k],
            recipes,
        )
}

/// One tick of crafting takes actions `m0` and jobs `ops0` to `m1` and `ops1` with report `r`:
/// progress reports and finished jobs are listed, each once; finished jobs are gone, their
/// players idle, other crafting players one unit further; every finished job that existed has
/// exactly one valid completion.
pub open spec fn crafting_tick(
    m0: Map<u128, ActionState>,
    ops0: Map<u128, CraftingOperation>,
    recipes: Seq<Recipe>,
    item_types: Seq<ItemType>,
    m1: Map<u128, ActionState>,
    ops1: Map<u128, CraftingOperation>,
    r: CraftingReport,
) -> bool {
    let jobs = finished_jobs(m0);
    &&& r.progress_updates@.no_duplicates()
    &&& forall|e: (u128, u128, u32, u32)| #[trigger]
        r.progress_updates@.contains(e) <==> (m0.contains_key(e.0) && reports_crafting_progress(
            m0[e.0],
        ) && e == crafting_report(e.0, m0[e.0]))
    &&& r.finished@.no_duplicates()
    &&& forall|e: (u128, u128)| #[trigger] r.finished@.contains(e) <==> crafting_finisher(m0, e.0, e.1)
    &&& ops1 == ops0.remove_keys(jobs)
    &&& m1.dom() == m0.dom()
    &&& forall|p: u128| #[trigger]
        m0.contains_key(p) ==> m1[p] == if owns_job_among(ops0, jobs, p) {
            ActionState::Idle
        } else {
            crafting_step(m0[p])
        }
    &&& forall|j: int|
        0 <= j < r.completions@.len() ==> {
            let c = #[trigger] r.completions@[j];
            &&& jobs.contains(c.operation_id)
            &&& ops0.contains_key(c.operation_id)
            &&& valid_crafting_completion(c, ops0[c.operation_id], recipes, item_types)
        }
    &&& forall|i: int, j: int|
        0 <= i < r.completions@.len() && 0 <= j < r.completions@.len() && i != j
            ==> r.completions@[i].operation_id != r.completions@[j].operation_id
    &&& forall|k: u128|
        jobs.contains(k) && #[trigger] ops0.contains_key(k) ==> exists|j: int|
            0 <= j < r.completions@.len() && #[trigger] r.completions@[j].operation_id == k
}

/// One tick of crafting for every player: each job progresses by one unit and reports its
/// progress every fifth unit; every job that reaches its duration is then finished (see
/// `complete_crafting`), which leaves its player idle.
pub fn process_crafting(
    actions: &mut HashMap<u128, ActionState>,
    recipes: &Vec<Recipe>,
    operations: &mut HashMap<u128, CraftingOperation>,
    item_types: &Vec<ItemType>,
) -> (r: CraftingReport)
    requires
        crafting_tick_in_range(old(actions)@, old(operations)@, recipes@),
    ensures
        crafting_tick(
            old(actions)@,
            old(operations)@,
            recipes@,
            item_types@,
            final(actions)@,
            final(operations)@,
            r,
        ),
{
    let ghost m0 = actions@;
    let ghost ops0 = operations@;
    let (progress_updates, finished) = advance_crafting(actions);
    let ghost m1 = actions@;
    let ghost mut jobs: Set<u128> = Set::empty();
    let mut completions: Vec<CraftingCompletion> = Vec::new();
    let mut i: usize = 0;
    while i < finished.len()
        invariant
            i <= finished@.len(),
            forall|e: (u128, u128)| #[trigger]
                finished@.contains(e) <==> crafting_finisher(m0, e.0, e.1),
            jobs_keyed(ops0),
            forall|p: u128, k: u128|
                #[trigger] crafting_finisher(m0, p, k) && ops0.contains_key(k)
                    ==> crafting_computable(ops0[k], recipes@),
            forall|k: u128| jobs.contains(k) <==> exists|j: int| 0 <= j < i && #[trigger] finished@[j].1 == k,
            operations@ == ops0.remove_keys(jobs),
            m1.dom() == m0.dom(),
            forall|p: u128| #[trigger] m0.contains_key(p) ==> m1[p] == crafting_step(m0[p]),
            actions@.dom() == m0.dom(),
            forall|p: u128| #[trigger]
                m0.contains_key(p) ==> actions@[p] == if owns_job_among(ops0, jobs, p) {
                    ActionState::Idle
                } else {
                    m1[p]
                },
            forall|j: int|
                0 <= j < completions@.len() ==> {
                    let c = #[trigger] completions@[j];
                    &&& jobs.contains(c.operation_id)
                    &&& ops0.contains_key(c.operation_id)
                    &&& valid_crafting_completion(c, ops0[c.operation_id], recipes@, item_types@)
                },
            forall|a: int, b: int|
                0 <= a < completions@.len() && 0 <= b < completions@.len() && a != b
                    ==> completions@[a].operation_id != completions@[b].operation_id,
            forall|k: u128|
                jobs.contains(k) && #[trigger] ops0.contains_key(k) ==> exists|j: int|
                    0 <= j < completions@.len() && #[trigger] completions@[j].operation_id == k,
        decreases finished.len() - i,
    {
        let (p, k) = finished[i];
        assert(finished@.contains((p, k)));
        let ghost before = completions@;
        let ghost acts0 = actions@;
        let ghost ops_before = operations@;
        let outcome = complete_crafting(k, actions, operations, recipes, item_types);
        let ghost j2 = jobs.insert(k);
        assert forall|x: u128| #[trigger]
            m0.contains_key(x) implies owns_job_among(ops0, j2, x) == (owns_job_among(ops0, jobs, x)
            || (!jobs.contains(k) && ops0.contains_key(k) && job_owner(ops0, k) == x)) by {
            if owns_job_among(ops0, j2, x) {
                let y = choose|y: u128| j2.contains(y) && ops0.contains_key(y) && #[trigger] job_owner(ops0, y) == x;
                if y != k {
                    assert(jobs.contains(y) && ops0.contains_key(y) && job_owner(ops0, y) == x);
                } else if jobs.contains(k) {
                    assert(jobs.contains(y) && ops0.contains_key(y) && job_owner(ops0, y) == x);
                }
            }
            if owns_job_among(ops0, jobs, x) {
                let y = choose|y: u128| jobs.contains(y) && ops0.contains_key(y) && #[trigger] job_owner(ops0, y) == x;
                assert(j2.contains(y) && ops0.contains_key(y) && job_owner(ops0, y) == x);
            }
            if !jobs.contains(k) && ops0.contains_key(k) && job_owner(ops0, k) == x {
                assert(j2.contains(k) && ops0.contains_key(k) && job_owner(ops0, k) == x);
            }
        }
        match outcome {
            Some(c) => {
                assert(!jobs.contains(k) && ops0.contains_key(k));
                assert(ops_before[k] == ops0[k]);
                proof {
                    assert forall|j: int| 0 <= j < before.len() implies before[j].operation_id != k by {
                        assert(jobs.contains(before[j].operation_id));
                    }
                }
                completions.push(c);
                assert(completions@[before.len() as int].operation_id == k);
            },
            None => {
                assert(jobs.contains(k) || !ops0.contains_key(k));
            },
        }
        proof {
            assert(operations@ =~= ops0.remove_keys(j2));
            assert forall|x: u128| j2.contains(x) <==> exists|j: int| 0 <= j < i + 1 && #[trigger] finished@[j].1 == x by {
                if j2.contains(x) && x == k {
                    assert(finished@[i as int].1 == x);
                }
                if exists|j: int| 0 <= j < i + 1 && #[trigger] finished@[j].1 == x {
                    let j = choose|j: int| 0 <= j < i + 1 && #[trigger] finished@[j].1 == x;
                    if j < i {
                        assert(jobs.contains(x));
                    }
                }
            }
            assert forall|x: u128| j2.contains(x) && #[trigger] ops0.contains_key(x) implies exists|j: int|
                0 <= j < completions@.len() && #[trigger] completions@[j].operation_id == x by {
                if jobs.contains(x) {
                    let j = choose|j: int| 0 <= j < before.len() && #[trigger] before[j].operation_id == x;
                    assert(completions@[j].operation_id == x);
                } else {
                    assert(completions@[before.len() as int].operation_id == x);
                }
            }
            jobs = j2;
        }
        i = i + 1;
    }
    proof {
        assert forall|x: u128| jobs.contains(x) <==> finished_jobs(m0).contains(x) by {
            if jobs.contains(x) {
                let j = choose|j: int| 0 <= j < finished@.len() && #[trigger] finished@[j].1 == x;
                assert(finished@.contains(finished@[j]));
                assert(crafting_finisher(m0, finished@[j].0, x));
            }
            if finished_jobs(m0).contains(x) {
                let p = choose|p: u128| #[trigger] crafting_finisher(m0, p, x);
                assert(finished@.contains((p, x)));
                let j = choose|j: int| 0 <= j < finished@.len() && finished@[j] == (p, x);
                assert(finished@[j].1 == x);
            }
        }
        assert(jobs =~= finished_jobs(m0));
    }
    CraftingReport { progress_updates, finished, completions }
}

/// The sum of a sequence of qualities, counted as integers from the left.
pub open spec fn sum_of(q: Seq<i32>) -> int {
    q.fold_left(0int, |acc: int, x: i32| acc + x)
}

proof fn lemma_quality_sum_is_sum_of(q: Seq<i32>)
    ensures
        quality_sum(q) == sum_of(q),
    decreases q.len(),
{
    if q.len() > 0 {
        lemma_quality_sum_is_sum_of(q.drop_last());
    }
}

/// The base quality of a crafted item is the mean of the input qualities, rounded toward zero:
/// multiplied by the number of inputs it falls short of their sum by less than one input's
/// worth, from below when the sum is not negative and from above when it is.
pub proof fn lemma_base_quality_is_mean(q: Seq<i32>)
    requires
        q.len() > 0,
    ensures
        sum_of(q) >= 0 ==> 0 <= sum_of(q) - base_output_quality(q) * q.len() < q.len(),
        sum_of(q) < 0 ==> 0 <= base_output_quality(q) * q.len() - sum_of(q) < q.len(),
{
    lemma_quality_sum_is_sum_of(q);
    let s = sum_of(q);
    let n = q.len() as int;
    let b = base_output_quality(q);
    if s >= 0 {
        assert(b == s / n);
        assert(0 <= s - (s / n) * n < n) by (nonlinear_arith)
            requires
                s >= 0,
                n > 0,
        ;
    } else {
        assert(b == -((-s) / n));
        assert(0 <= (-((-s) / n)) * n - s < n) by (nonlinear_arith)
            requires
                s < 0,
                n > 0,
        ;
    }
}

/// The quality of the item with id `id` among `items`.
pub open spec fn quality_of(items: Seq<Item>, id: u128) -> i32 {
    items[choose|i: int| 0 <= i < items.len() && items[i].id == id].quality
}

/// `n` copies of the quality `q` (none when `n` is not positive).
pub open spec fn copies(n: i32, q: i32) -> Seq<i32> {
    Seq::new(if n > 0 { n as nat } else { 0 }, |j: int| q)
}

/// For each use of an item in `consume` (item id, units used), as many copies of that item's
/// quality as units are used, in the order of `consume`.
pub open spec fn qualities_of_uses(consume: Seq<(u128, i32)>, items: Seq<Item>) -> Seq<i32> {
    consume.map_values(|c: (u128, i32)| copies(c.1, quality_of(items, c.0))).flatten()
}

/// The units used up, over all uses in `consume`.
pub open spec fn units_used(consume: Seq<(u128, i32)>) -> int {
    consume.fold_left(0int, |acc: int, c: (u128, i32)| if c.1 > 0 { acc + c.1 } else { acc })
}

/// The items in `items` carry distinct ids.
pub open spec fn distinct_ids(items: Seq<Item>) -> bool {
    forall|i: int, j: int| 0 <= i < j < items.len() ==> items[i].id != items[j].id
}

/// What `tally` records about the items it matched: every use names an offered item, the
/// recorded qualities are the qualities of the uses, one per unit, and there are as many as
/// units are used.
proof fn lemma_tally_uses(reqs: Map<Seq<char>, int>, items: Seq<Item>)
    requires
        distinct_ids(items),
    ensures
        forall|j: int|
            0 <= j < tally(reqs, items).consume.len() ==> exists|i: int|
                0 <= i < items.len() && #[trigger] items[i].id == (
                #[trigger] tally(reqs, items).consume[j]).0,
        tally(reqs, items).qualities == qualities_of_uses(tally(reqs, items).consume, items),
        tally(reqs, items).qualities.len() == units_used(tally(reqs, items).consume),
    decreases items.len(),
{
    if items.len() > 0 {
        let pre = items.drop_last();
        assert(distinct_ids(pre));
        lemma_tally_uses(reqs, pre);
        let t = tally(reqs, pre);
        let it = items.last();
        let k = it.item_type@;
        let f = |c: (u128, i32)| copies(c.1, quality_of(items, c.0));
        let g = |c: (u128, i32)| copies(c.1, quality_of(pre, c.0));
        assert forall|j: int| 0 <= j < t.consume.len() implies quality_of(items, t.consume[j].0)
            == quality_of(pre, t.consume[j].0) by {
            let id = t.consume[j].0;
            let i0 = choose|i: int| 0 <= i < pre.len() && pre[i].id == id;
            assert(pre[i0] == items[i0]);
            let i1 = choose|i: int| 0 <= i < items.len() && items[i].id == id;
            assert(i1 == i0);
        }
        assert(t.consume.map_values(f) =~= t.consume.map_values(g));
        if t.remaining.contains_key(k) && t.remaining[k] > 0 {
            let u = min_int(t.remaining[k], it.quantity as int);
            let c = (it.id, u as i32);
            let t2 = tally(reqs, items);
            assert(t2.consume == t.consume.push(c));
            let il = items.len() - 1;
            assert(items[il].id == it.id);
            let i1 = choose|i: int| 0 <= i < items.len() && items[i].id == it.id;
            assert(i1 == il);
            assert(quality_of(items, it.id) == it.quality);
            assert(t2.consume.map_values(f) =~= t.consume.map_values(f).push(f(c)));
            t.consume.map_values(f).lemma_flatten_push(f(c));
            assert(copies(c.1, it.quality) =~= Seq::new(
                if u > 0 {
                    u as nat
                } else {
                    0
                },
                |j: int| it.quality,
            ));
            assert(t2.qualities =~= qualities_of_uses(t2.consume, items));
            assert(t2.consume.drop_last() =~= t.consume);
            assert forall|j: int| 0 <= j < t2.consume.len() implies exists|i: int|
                0 <= i < items.len() && #[trigger] items[i].id == (#[trigger] t2.consume[j]).0 by {
                if j < t.consume.len() {
                    let i0 = choose|i: int| 0 <= i < pre.len() && pre[i].id == t.consume[j].0;
                    assert(items[i0] == pre[i0]);
                } else {
                    assert(items[il].id == t2.consume[j].0);
                }
            }
        } else {
            assert forall|j: int| 0 <= j < t.consume.len() implies exists|i: int|
                0 <= i < items.len() && #[trigger] items[i].id == (#[trigger] t.consume[j]).0 by {
                let i0 = choose|i: int| 0 <= i < pre.len() && pre[i].id == t.consume[j].0;
                assert(items[i0] == pre[i0]);
            }
        }
    }
}

/// Matching items to a recipe weights quality by quantity used: for every use of an offered
/// item the recorded input qualities hold that item's quality once per unit used, in the
/// order of use, and their number is the total of units used up.
pub proof fn lemma_qualities_weighted_by_units_used(reqs: Map<Seq<char>, int>, items: Seq<Item>)
    requires
        distinct_ids(items),
    ensures
        tally(reqs, items).qualities == qualities_of_uses(tally(reqs, items).consume, items),
        tally(reqs, items).qualities.len() == units_used(tally(reqs, items).consume),
{
    lemma_tally_uses(reqs, items);
}

} // verus!
