use std::collections::HashMap;

use capitol_backend::crafting::{
    advance_crafting, check_qualities_exact, job_computable, complete_crafting, process_crafting, CraftingOperation, QualityWeights, Recipe,
    RecipeInput, RecipeOutput,
};
use capitol_backend::extraction::{
    finish_extraction, get_item_name, lookup_resource_type, process_extractions, ActionState,
};
use capitol_backend::item::{lookup_item_name, ItemType};
use capitol_backend::resource::{NodeState, ResourceNodeState, ResourceType};

fn fiber_type() -> ResourceType {
    ResourceType {
        id: "fiber_plant".to_string(),
        name: "Fiber Plant".to_string(),
        yields_item: "fiber".to_string(),
        yield_quantity_min: 1,
        yield_quantity_max: 3,
        base_quality_min: 30,
        base_quality_max: 70,
        required_tool: None,
        extraction_duration_ticks: 10,
        regeneration_ticks: 300,
    }
}

fn node(id: u128, base_quality: i32, state: NodeState) -> ResourceNodeState {
    ResourceNodeState {
        id,
        resource_type: "fiber_plant".to_string(),
        base_quality,
        state,
        harvested_by: None,
        regenerates_at_tick: None,
    }
}

fn rope_recipe() -> Recipe {
    Recipe {
        id: "rope".to_string(),
        name: "Rope".to_string(),
        description: None,
        category: "hand_crafting".to_string(),
        inputs: vec![RecipeInput { item_type: "fiber".to_string(), quantity: 3 }],
        outputs: vec![RecipeOutput { item_type: "rope".to_string(), quantity_min: 1, quantity_max: 1 }],
        base_duration_ticks: 20,
        quality_weights: QualityWeights { variance_min: 0, variance_max: 0 },
        required_station_type: None,
    }
}

#[test]
fn item_names() {
    assert_eq!(get_item_name("fiber"), "Plant Fiber");
    assert_eq!(get_item_name("rope"), "rope");
    let types = vec![ItemType {
        id: "rope".to_string(),
        name: "Sturdy Rope".to_string(),
        category: "material".to_string(),
        stackable: true,
    }];
    assert_eq!(lookup_item_name(&types, &"rope".to_string()), "Sturdy Rope");
    assert_eq!(lookup_item_name(&types, &"fiber".to_string()), "fiber");
}

#[test]
fn resource_type_lookup() {
    let types = vec![fiber_type()];
    assert_eq!(lookup_resource_type(&types, &"fiber_plant".to_string()), Some(0));
    assert_eq!(lookup_resource_type(&types, &"ore".to_string()), None);
}

#[test]
fn finishing_an_extraction_depletes_the_node() {
    let mut n = node(7, 50, NodeState::BeingHarvested);
    let c = finish_extraction(1, &mut n, &fiber_type(), 100);
    assert_eq!(c.player_id, 1);
    assert_eq!(c.node_id, 7);
    assert_eq!(c.item_type, "fiber");
    assert_eq!(c.item_name, "Plant Fiber");
    assert!((1..=3).contains(&c.quantity));
    assert!((45..=55).contains(&c.quality));
    assert_eq!(n.state, NodeState::Depleted);
    assert_eq!(n.harvested_by, Some(1));
    assert_eq!(n.regenerates_at_tick, Some(400));
    let mut low = node(8, 2, NodeState::BeingHarvested);
    let c = finish_extraction(1, &mut low, &fiber_type(), 0);
    assert!((0..=7).contains(&c.quality));
}

#[test]
fn extraction_tick_progresses_and_completes() {
    let mut actions = HashMap::new();
    actions.insert(1u128, ActionState::Extracting { node_id: 10, progress: 3, duration: 10 });
    actions.insert(2u128, ActionState::Extracting { node_id: 20, progress: 9, duration: 10 });
    actions.insert(3u128, ActionState::Idle);
    let mut nodes = HashMap::new();
    nodes.insert(10u128, node(10, 40, NodeState::BeingHarvested));
    nodes.insert(20u128, node(20, 60, NodeState::BeingHarvested));
    let types = vec![fiber_type()];
    let r = process_extractions(&mut actions, &mut nodes, &types, 50);
    assert_eq!(actions[&1], ActionState::Extracting { node_id: 10, progress: 4, duration: 10 });
    assert_eq!(actions[&2], ActionState::Idle);
    assert_eq!(actions[&3], ActionState::Idle);
    assert_eq!(r.progress_updates, vec![(2u128, 10u32, 10u32)]);
    assert_eq!(r.finished, vec![(2u128, 20u128)]);
    assert_eq!(r.completed.len(), 1);
    assert_eq!(r.completed[0].node_id, 20);
    assert_eq!(r.pending_items.len(), 1);
    assert_eq!(r.pending_items[0].player_id, 2);
    assert_eq!(r.pending_items[0].item_type, "fiber");
    assert_eq!(r.pending_items[0].target_container_type, None);
    assert_eq!(r.pending_items[0].quantity, r.completed[0].quantity);
    assert_eq!(nodes[&20].state, NodeState::Depleted);
    assert_eq!(nodes[&20].harvested_by, Some(2));
    assert_eq!(nodes[&20].regenerates_at_tick, Some(350));
    assert_eq!(nodes[&10].state, NodeState::BeingHarvested);
}

#[test]
fn extraction_without_known_node_yields_nothing() {
    let mut actions = HashMap::new();
    actions.insert(1u128, ActionState::Extracting { node_id: 99, progress: 0, duration: 1 });
    let mut nodes: HashMap<u128, ResourceNodeState> = HashMap::new();
    let r = process_extractions(&mut actions, &mut nodes, &vec![fiber_type()], 5);
    assert_eq!(actions[&1], ActionState::Idle);
    assert_eq!(r.finished, vec![(1u128, 99u128)]);
    assert!(r.completed.is_empty());
    assert!(r.pending_items.is_empty());
}

#[test]
fn crafting_progress_and_completion() {
    let mut actions = HashMap::new();
    actions.insert(
        1u128,
        ActionState::Crafting { operation_id: 500, recipe_id: "rope".to_string(), progress: 19, duration: 20 },
    );
    actions.insert(
        2u128,
        ActionState::Crafting { operation_id: 600, recipe_id: "rope".to_string(), progress: 3, duration: 20 },
    );
    let mut ops = HashMap::new();
    ops.insert(
        500u128,
        CraftingOperation {
            operation_id: 500,
            player_id: 1,
            recipe_id: "rope".to_string(),
            input_items_to_consume: vec![(77, 3)],
            input_qualities: vec![40, 50, 60],
        },
    );
    ops.insert(
        600u128,
        CraftingOperation {
            operation_id: 600,
            player_id: 2,
            recipe_id: "rope".to_string(),
            input_items_to_consume: vec![(78, 3)],
            input_qualities: vec![10, 10, 10],
        },
    );
    let types = vec![ItemType {
        id: "rope".to_string(),
        name: "Rope".to_string(),
        category: "material".to_string(),
        stackable: true,
    }];
    let r = process_crafting(&mut actions, &vec![rope_recipe()], &mut ops, &types);
    assert_eq!(actions[&1], ActionState::Idle);
    assert_eq!(
        actions[&2],
        ActionState::Crafting { operation_id: 600, recipe_id: "rope".to_string(), progress: 4, duration: 20 }
    );
    assert_eq!(r.progress_updates, vec![(1u128, 500u128, 20u32, 20u32)]);
    assert_eq!(r.finished, vec![(1u128, 500u128)]);
    assert!(!ops.contains_key(&500));
    assert!(ops.contains_key(&600));
    assert_eq!(r.completions.len(), 1);
    let c = &r.completions[0];
    assert!(c.recipe_found);
    assert_eq!(c.quality, 50);
    assert_eq!(c.items_to_consume, vec![(77u128, 3)]);
    assert_eq!(c.outputs.len(), 1);
    assert_eq!(c.outputs[0].item_name, "Rope");
    assert_eq!(c.outputs[0].quantity, 1);
    assert_eq!(c.pending_items[0].target_container_type, Some("crafting_output".to_string()));
    assert_eq!(c.pending_items[0].quality, 50);
}

#[test]
fn crafting_job_without_recipe_or_job() {
    let mut actions = HashMap::new();
    actions.insert(
        1u128,
        ActionState::Crafting { operation_id: 5, recipe_id: "gone".to_string(), progress: 0, duration: 1 },
    );
    let mut ops = HashMap::new();
    ops.insert(
        5u128,
        CraftingOperation {
            operation_id: 5,
            player_id: 1,
            recipe_id: "gone".to_string(),
            input_items_to_consume: vec![(9, 1)],
            input_qualities: vec![30],
        },
    );
    let c = complete_crafting(5, &mut actions, &mut ops, &vec![rope_recipe()], &vec![]).unwrap();
    assert!(!c.recipe_found);
    assert!(c.outputs.is_empty());
    assert!(c.items_to_consume.is_empty());
    assert_eq!(actions[&1], ActionState::Idle);
    assert!(ops.is_empty());
    assert!(complete_crafting(5, &mut actions, &mut ops, &vec![], &vec![]).is_none());
}

#[test]
fn orphaned_crafting_keeps_counting() {
    let mut actions = HashMap::new();
    actions.insert(
        4u128,
        ActionState::Crafting { operation_id: 8, recipe_id: "rope".to_string(), progress: 30, duration: 20 },
    );
    let (updates, finished) = advance_crafting(&mut actions);
    assert!(updates.is_empty());
    assert_eq!(finished, vec![(4u128, 8u128)]);
    let mut ops: HashMap<u128, CraftingOperation> = HashMap::new();
    let mut again = actions.clone();
    let r = process_crafting(&mut again, &vec![rope_recipe()], &mut ops, &vec![]);
    assert!(r.completions.is_empty());
    assert_eq!(
        again[&4],
        ActionState::Crafting { operation_id: 8, recipe_id: "rope".to_string(), progress: 32, duration: 20 }
    );
}

#[test]
fn job_computability() {
    assert!(check_qualities_exact(&vec![10, 20, 30]));
    assert!(!check_qualities_exact(&vec![0x7f_ffff, 0x7f_ffff, 0x7f_ffff]));
    assert!(check_qualities_exact(&vec![]));
    let op = CraftingOperation {
        operation_id: 1,
        player_id: 1,
        recipe_id: "rope".to_string(),
        input_items_to_consume: vec![],
        input_qualities: vec![50],
    };
    assert!(job_computable(&op, &vec![rope_recipe()]));
    let mut bad = rope_recipe();
    bad.outputs[0].quantity_min = 5;
    assert!(!job_computable(&op, &vec![bad]));
    assert!(job_computable(&op, &vec![]));
}
