use capitol_backend::container::{Container, ContainerState, ContainerType, MoveResult, SlotItem};
use capitol_backend::inventory::{check_slot_in_bounds, find_slot_for_item, first_free_slot, merge_fits, merge_items, move_item, plan_stack_move, StackMove};
use capitol_backend::item::quality_to_grade;

fn container(id: u128, slots: i32) -> ContainerState {
    let c = Container { id, container_type: "player_inventory".to_string(), owner_id: Some(1), station_id: None };
    let t = ContainerType { id: "player_inventory".to_string(), name: "Inventory".to_string(), slot_count: slots, layout_columns: 4 };
    ContainerState::new(&c, &t)
}

fn stack(id: u128, ty: &str, quality: i32, quantity: i32, slot: i32) -> SlotItem {
    SlotItem::new(id, ty.to_string(), ty.to_string(), quality, quantity, slot)
}

#[test]
fn grades() {
    assert_eq!(quality_to_grade(100), "A");
    assert_eq!(quality_to_grade(90), "A");
    assert_eq!(quality_to_grade(89), "B");
    assert_eq!(quality_to_grade(75), "B");
    assert_eq!(quality_to_grade(74), "C");
    assert_eq!(quality_to_grade(55), "C");
    assert_eq!(quality_to_grade(54), "D");
    assert_eq!(quality_to_grade(35), "D");
    assert_eq!(quality_to_grade(34), "F");
    assert_eq!(quality_to_grade(101), "F");
    assert_eq!(quality_to_grade(-1), "F");
}

#[test]
fn merge_is_weighted_average() {
    let a = stack(1, "fiber", 80, 10, 0);
    let b = stack(2, "fiber", 50, 30, 1);
    let m = merge_items(&a, &b);
    assert_eq!(m.quantity, 40);
    assert_eq!(m.quality, 57); // (800 + 1500) / 40 = 57.5, rounded toward zero
    let n = merge_items(&stack(1, "x", -7, 1, 0), &stack(2, "x", 0, 1, 0));
    assert_eq!(n.quality, -3); // -7 / 2 rounds toward zero
}

#[test]
fn move_into_empty_slot() {
    let mut src = container(10, 8);
    let mut dst = container(20, 8);
    src.set_slot(0, stack(1, "fiber", 60, 5, 0));
    let r = move_item(&mut src, &mut dst, 1, 0, 3).unwrap();
    assert_eq!(r, MoveResult::Moved { item_id: 1, to_slot: 3 });
    assert!(src.get_slot(0).is_none());
    let moved = dst.get_slot(3).unwrap();
    assert_eq!(moved.item_id, 1);
    assert_eq!(moved.slot_index, 3);
    assert_eq!(moved.quantity, 5);
}

#[test]
fn move_merges_same_type() {
    let mut src = container(10, 8);
    let mut dst = container(20, 8);
    src.set_slot(0, stack(1, "fiber", 90, 10, 0));
    dst.set_slot(2, stack(2, "fiber", 30, 10, 2));
    let r = move_item(&mut src, &mut dst, 1, 0, 2).unwrap();
    assert_eq!(r, MoveResult::Merged { source_item_id: 1, target_item_id: 2, new_quantity: 20, new_quality: 60 });
    assert!(src.get_slot(0).is_none());
    let merged = dst.get_slot(2).unwrap();
    assert_eq!(merged.item_id, 2);
    assert_eq!(merged.quantity, 20);
    assert_eq!(merged.quality, 60);
    assert_eq!(merged.quality_grade, "C");
}

#[test]
fn move_swaps_different_types() {
    let mut src = container(10, 8);
    let mut dst = container(20, 8);
    src.set_slot(0, stack(1, "fiber", 90, 10, 0));
    dst.set_slot(2, stack(2, "rope", 30, 1, 2));
    let r = move_item(&mut src, &mut dst, 1, 0, 2).unwrap();
    assert_eq!(r, MoveResult::Swapped { item1_id: 1, item1_to_slot: 2, item2_id: 2, item2_to_slot: 0 });
    assert_eq!(src.get_slot(0).unwrap().item_id, 2);
    assert_eq!(src.get_slot(0).unwrap().slot_index, 0);
    assert_eq!(dst.get_slot(2).unwrap().item_id, 1);
    assert_eq!(dst.get_slot(2).unwrap().slot_index, 2);
}

#[test]
fn move_swaps_within_same_container_id() {
    let mut src = container(10, 8);
    let mut dst = container(10, 8);
    src.set_slot(0, stack(1, "fiber", 90, 10, 0));
    dst.set_slot(2, stack(2, "rope", 30, 1, 2));
    move_item(&mut src, &mut dst, 1, 0, 2).unwrap();
    assert_eq!(src.get_slot(0).unwrap().item_id, 2);
    assert_eq!(src.get_slot(2).unwrap().item_id, 1);
    assert_eq!(dst.get_slot(2).unwrap().item_id, 2);
}

#[test]
fn move_errors() {
    let mut src = container(10, 8);
    let mut dst = container(20, 4);
    src.set_slot(0, stack(1, "fiber", 90, 10, 0));
    let e = move_item(&mut src, &mut dst, 1, 0, 4).unwrap_err();
    assert_eq!(e, "Target slot 4 out of bounds (0-3)");
    assert!(move_item(&mut src, &mut dst, 1, 0, -1).is_err());
    assert_eq!(move_item(&mut src, &mut dst, 1, 5, 0).unwrap_err(), "Source slot is empty");
    assert_eq!(move_item(&mut src, &mut dst, 9, 0, 0).unwrap_err(), "Item ID mismatch");
    assert_eq!(src.get_slot(0).unwrap().item_id, 1);
    assert!(dst.slots.is_empty());
}

#[test]
fn slot_search() {
    let mut c = container(10, 3);
    assert_eq!(c.find_empty_slot(), Some(0));
    assert_eq!(find_slot_for_item(&c, "fiber"), Some((0, false)));
    c.set_slot(0, stack(1, "rope", 50, 1, 0));
    c.set_slot(1, stack(2, "fiber", 50, 1, 1));
    assert_eq!(c.find_empty_slot(), Some(2));
    assert_eq!(c.find_slot_with_type("fiber"), Some(1));
    assert_eq!(c.find_slot_with_type("stone"), None);
    assert_eq!(find_slot_for_item(&c, "fiber"), Some((1, true)));
    assert_eq!(find_slot_for_item(&c, "stone"), Some((2, false)));
    c.set_slot(2, stack(3, "rope", 50, 1, 2));
    assert_eq!(c.find_empty_slot(), None);
    assert_eq!(find_slot_for_item(&c, "stone"), None);
}

#[test]
fn free_slot_from_used_list() {
    assert_eq!(first_free_slot(&vec![0, 1, 3], 5), Some(2));
    assert_eq!(first_free_slot(&vec![], 5), Some(0));
    assert_eq!(first_free_slot(&vec![1, 0], 2), None);
    assert_eq!(first_free_slot(&vec![], 0), None);
}

#[test]
fn stored_stack_moves() {
    let fiber = "fiber".to_string();
    assert_eq!(plan_stack_move(&fiber, 60, 10, &None), StackMove::Moved);
    assert_eq!(
        plan_stack_move(&fiber, 60, 10, &Some((7, "fiber".to_string(), 40, 30))),
        StackMove::Merged { target_item_id: 7, quantity: 40, quality: 45 }
    );
    assert_eq!(
        plan_stack_move(&fiber, 60, 10, &Some((7, "rope".to_string(), 40, 30))),
        StackMove::Swapped { target_item_id: 7 }
    );
    assert!(check_slot_in_bounds(0, 20).is_ok());
    assert!(check_slot_in_bounds(19, 20).is_ok());
    assert_eq!(check_slot_in_bounds(20, 20), Err("Slot 20 out of bounds (0-19)".to_string()));
    assert!(check_slot_in_bounds(-1, 20).is_err());
}

fn totals(cs: &[&ContainerState]) -> std::collections::BTreeMap<String, i64> {
    let mut t = std::collections::BTreeMap::new();
    for c in cs {
        for (k, it) in c.slots.iter() {
            assert_eq!(*k, it.slot_index);
            *t.entry(it.item_type.clone()).or_insert(0) += it.quantity as i64;
        }
    }
    t
}

#[test]
fn moves_neither_create_nor_destroy_items() {
    for target_slot in 0..4 {
        let mut src = container(10, 4);
        let mut dst = container(20, 4);
        src.set_slot(0, stack(1, "fiber", 90, 10, 0));
        src.set_slot(1, stack(2, "rope", 40, 3, 1));
        dst.set_slot(1, stack(3, "fiber", 30, 5, 1));
        dst.set_slot(2, stack(4, "stone", 70, 2, 2));
        let before = totals(&[&src, &dst]);
        move_item(&mut src, &mut dst, 1, 0, target_slot).unwrap();
        assert_eq!(totals(&[&src, &dst]), before);
    }
}

#[test]
fn merge_fit_bounds() {
    assert!(merge_fits(90, 10, 30, 5));
    assert!(!merge_fits(100, i32::MAX, 100, 1));
    assert!(!merge_fits(90, 1, 90, i32::MAX));
    assert!(!merge_fits(1, 0, 1, 0));
}
