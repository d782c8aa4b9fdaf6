use std::collections::HashMap;
use vstd::prelude::*;

use crate::item::{grade_of, quality_to_grade};
use crate::keys::keys_i32;
use crate::text::str_eq;

verus! {

broadcast use vstd::std_specs::hash::group_hash_axioms;

/// A kind of container: how many slots it has and how they are laid out.
#[derive(Debug, Clone)]
pub struct ContainerType {
    pub id: String,
    pub name: String,
    pub slot_count: i32,
    pub layout_columns: i32,
}

/// A container instance, owned by a player or attached to a station.
#[derive(Debug, Clone)]
pub struct Container {
    pub id: u128,
    pub container_type: String,
    pub owner_id: Option<u128>,
    pub station_id: Option<u128>,
}

/// A stack of items occupying one slot of a container.
#[derive(Debug, Clone)]
pub struct SlotItem {
    pub item_id: u128,
    pub item_type: String,
    pub item_name: String,
    pub quality: i32,
    pub quality_grade: String,
    pub quantity: i32,
    pub slot_index: i32,
}

impl SlotItem {
    /// A stack with the given fields; its grade is computed from its quality.
    pub fn new(
        item_id: u128,
        item_type: String,
        item_name: String,
        quality: i32,
        quantity: i32,
        slot_index: i32,
    ) -> (r: SlotItem)
        ensures
            r.item_id == item_id,
            r.item_type == item_type,
            r.item_name == item_name,
            r.quality == quality,
            r.quality_grade@ == grade_of(quality as int),
            r.quantity == quantity,
            r.slot_index == slot_index,
    {
        SlotItem {
            item_id,
            item_type,
            item_name,
            quality,
            quality_grade: quality_to_grade(quality),
            quantity,
            slot_index,
        }
    }

    /// A field-by-field copy of this stack.
    pub fn duplicate(&self) -> (r: SlotItem)
        ensures
            r == *self,
    {
        SlotItem {
            item_id: self.item_id,
            item_type: self.item_type.clone(),
            item_name: self.item_name.clone(),
            quality: self.quality,
            quality_grade: self.quality_grade.clone(),
            quantity: self.quantity,
            slot_index: self.slot_index,
        }
    }
}

/// A container with the stacks in its slots, keyed by slot index.
#[derive(Debug, Clone)]
pub struct ContainerState {
    pub id: u128,
    pub container_type: String,
    pub slot_count: i32,
    pub layout_columns: i32,
    pub slots: HashMap<i32, SlotItem>,
}

/// The change to one slot, for inventory events (`None`: the slot is now empty).
#[derive(Debug, Clone)]
pub struct SlotUpdate {
    pub slot_index: i32,
    pub item: Option<SlotItem>,
}

/// What a move between slots did.
#[derive(Debug, Clone, PartialEq, Eq)]
pub enum MoveResult {
    Moved { item_id: u128, to_slot: i32 },
    Swapped { item1_id: u128, item1_to_slot: i32, item2_id: u128, item2_to_slot: i32 },
    Merged {
        source_item_id: u128,
        target_item_id: u128,
        new_quantity: i32,
        new_quality: i32,
    },
}

/// `i` is the lowest index in `0..count` that `slots` leaves free.
pub open spec fn first_empty(slots: Map<i32, SlotItem>, count: int, i: int) -> bool {
    &&& 0 <= i < count
    &&& !slots.contains_key(i as i32)
    &&& forall|j: i32| 0 <= j < i ==> #[trigger] slots.contains_key(j)
}

impl ContainerState {
    /// An empty container of the given type.
    pub fn new(container: &Container, container_type: &ContainerType) -> (r: ContainerState)
        ensures
            r.id == container.id,
            r.container_type == container.container_type,
            r.slot_count == container_type.slot_count,
            r.layout_columns == container_type.layout_columns,
            r.slots@ == Map::<i32, SlotItem>::empty(),
    {
        ContainerState {
            id: container.id,
            container_type: container.container_type.clone(),
            slot_count: container_type.slot_count,
            layout_columns: container_type.layout_columns,
            slots: HashMap::new(),
        }
    }

    /// Puts a stack into a slot, replacing whatever was there.
    pub fn set_slot(&mut self, slot_index: i32, item: SlotItem)
        ensures
            final(self).slots@ == old(self).slots@.insert(slot_index, item),
            final(self).id == old(self).id,
            final(self).container_type == old(self).container_type,
            final(self).slot_count == old(self).slot_count,
            final(self).layout_columns == old(self).layout_columns,
    {
        self.slots.insert(slot_index, item);
    }

    /// The stack in a slot, if any.
    pub fn get_slot(&self, slot_index: i32) -> (r: Option<&SlotItem>)
        ensures
            match r {
                Some(item) => self.slots@.contains_key(slot_index) && *item
                    == self.slots@[slot_index],
                None => !self.slots@.contains_key(slot_index),
            },
    {
        self.slots.get(&slot_index)
    }

    /// The lowest-numbered free slot, if the container has one.
    pub fn find_empty_slot(&self) -> (r: Option<i32>)
        ensures
            match r {
                Some(i) => first_empty(self.slots@, self.slot_count as int, i as int),
                None => forall|j: i32|
                    0 <= j < self.slot_count ==> #[trigger] self.slots@.contains_key(j),
            },
    {
        let mut i: i32 = 0;
        while i < self.slot_count
            invariant
                0 <= i,
                self.slot_count >= 0 ==> i <= self.slot_count,
                forall|j: i32| 0 <= j < i ==> #[trigger] self.slots@.contains_key(j),
            decreases self.slot_count - i,
        {
            if !self.slots.contains_key(&i) {
                return Some(i);
            }
            i = i + 1;
        }
        None
    }

    /// Some slot holding a stack of the given item type, if there is one.
    pub fn find_slot_with_type(&self, item_type: &str) -> (r: Option<i32>)
        ensures
            match r {
                Some(i) => self.slots@.contains_key(i) && self.slots@[i].item_type@
                    == item_type@,
                None => forall|k: i32| #[trigger]
                    self.slots@.contains_key(k) ==> self.slots@[k].item_type@ != item_type@,
            },
    {
        let keys = keys_i32(&self.slots);
        let mut n: usize = 0;
        while n < keys.len()
            invariant
                keys@.to_set() == self.slots@.dom(),
                n <= keys@.len(),
                forall|j: int|
                    0 <= j < n ==> self.slots@[#[trigger] keys@[j]].item_type@ != item_type@,
            decreases keys.len() - n,
        {
            let k = keys[n];
            assert(keys@.to_set().contains(k));
            let item = self.slots.get(&k).unwrap();
            if str_eq(item.item_type.as_str(), item_type) {
                return Some(k);
            }
            n = n + 1;
        }
        assert forall|k: i32| #[trigger] self.slots@.contains_key(k) implies self.slots@[k].item_type@
            != item_type@ by {
            assert(keys@.to_set().contains(k));
            let j = keys@.index_of(k);
        }
        None
    }
}

} // verus!
