use capitol_backend::crafting::{QualityWeights, Recipe, RecipeInput, RecipeOutput};
use capitol_backend::engine::{Command, EngineEvent, GameState, StationState};
use capitol_backend::extraction::ActionState;
use capitol_backend::item::Item;
use capitol_backend::resource::{NodeState, ResourceNodeState, ResourceType};

fn game() -> GameState {
    let mut g = GameState::new();
    g.resource_types.push(ResourceType {
        id: "fiber_plant".to_string(),
        name: "Fiber Plant".to_string(),
        yields_item: "fiber".to_string(),
        yield_quantity_min: 2,
        yield_quantity_max: 2,
        base_quality_min: 30,
        base_quality_max: 70,
        required_tool: None,
        extraction_duration_ticks: 2,
        regeneration_ticks: 10,
    });
    g.resource_nodes.insert(
        10,
        ResourceNodeState {
            id: 10,
            resource_type: "fiber_plant".to_string(),
            base_quality: 50,
            state: NodeState::Available,
            harvested_by: None,
            regenerates_at_tick: None,
        },
    );
    g.recipes.push(Recipe {
        id: "rope".to_string(),
        name: "Rope".to_string(),
        description: None,
        category: "hand_crafting".to_string(),
        inputs: vec![RecipeInput { item_type: "fiber".to_string(), quantity: 2 }],
        outputs: vec![RecipeOutput { item_type: "rope".to_string(), quantity_min: 1, quantity_max: 1 }],
        base_duration_ticks: 1,
        quality_weights: QualityWeights { variance_min: 0, variance_max: 0 },
        required_station_type: None,
    });
    g.recipes.push(Recipe {
        id: "plank".to_string(),
        name: "Plank".to_string(),
        description: None,
        category: "woodworking".to_string(),
        inputs: vec![],
        outputs: vec![],
        base_duration_ticks: 5,
        quality_weights: QualityWeights { variance_min: 0, variance_max: 0 },
        required_station_type: Some("workbench".to_string()),
    });
    g.add_player(1);
    g
}

fn fiber(id: u128, quantity: i32, quality: i32) -> Item {
    Item {
        id,
        item_type: "fiber".to_string(),
        quality,
        quantity,
        owner_id: Some(1),
        container_id: None,
        slot_index: None,
    }
}

#[test]
fn new_game_is_empty() {
    let g = GameState::new();
    assert_eq!(g.get_tick_count(), 0);
    assert!(g.actions.is_empty());
    assert!(g.command_queue.is_empty());
}

#[test]
fn extraction_runs_over_ticks() {
    let mut g = game();
    g.queue_command(Command::StartExtraction { player_id: 1, node_id: 10, within_range: true });
    let r = g.tick();
    assert_eq!(g.get_tick_count(), 1);
    assert!(matches!(
        r.command_events[0],
        EngineEvent::ExtractionStarted { player_id: 1, node_id: 10, duration_ticks: 2 }
    ));
    assert_eq!(g.actions[&1], ActionState::Extracting { node_id: 10, progress: 1, duration: 2 });
    let r = g.tick();
    assert_eq!(r.world.extraction.completed.len(), 1);
    assert_eq!(g.actions[&1], ActionState::Idle);
    assert_eq!(g.resource_nodes[&10].state, NodeState::Depleted);
    assert_eq!(g.resource_nodes[&10].regenerates_at_tick, Some(12));
    let items = g.take_pending_items();
    assert_eq!(items.len(), 1);
    assert_eq!(items[0].quantity, 2);
    assert!(g.take_pending_items().is_empty());
    for _ in 0..10 {
        g.tick();
    }
    assert_eq!(g.get_tick_count(), 12);
    assert_eq!(g.resource_nodes[&10].state, NodeState::Available);
}

#[test]
fn extraction_out_of_range_is_ignored() {
    let mut g = game();
    let ev = g.process_command(&Command::StartExtraction { player_id: 1, node_id: 10, within_range: false });
    assert!(ev.is_empty());
    assert_eq!(g.actions[&1], ActionState::Idle);
    assert_eq!(g.resource_nodes[&10].state, NodeState::Available);
}

#[test]
fn moving_cancels_extraction() {
    let mut g = game();
    g.process_command(&Command::StartExtraction { player_id: 1, node_id: 10, within_range: true });
    let ev = g.process_command(&Command::Move { player_id: 1 });
    assert_eq!(ev.len(), 2);
    assert!(matches!(ev[0], EngineEvent::ExtractionCancelled { player_id: 1 }));
    assert!(matches!(ev[1], EngineEvent::MoveAccepted { player_id: 1 }));
    assert_eq!(g.actions[&1], ActionState::Idle);
    assert_eq!(g.resource_nodes[&10].state, NodeState::Available);
    assert!(g.process_command(&Command::Move { player_id: 9 }).is_empty());
    let ev = g.process_command(&Command::StopMoving { player_id: 1 });
    assert!(matches!(ev[0], EngineEvent::MovementStopped { player_id: 1 }));
}

#[test]
fn hand_crafting_flow() {
    let mut g = game();
    let ev = g.process_command(&Command::StartCrafting {
        player_id: 1,
        recipe_id: "nothing".to_string(),
        input_item_ids: vec![],
    });
    match &ev[0] {
        EngineEvent::CraftingFailed { player_id, reason } => {
            assert_eq!(*player_id, 1);
            assert_eq!(reason, "Recipe not found");
        },
        _ => panic!("expected a failure"),
    }
    let ev = g.process_command(&Command::StartCrafting {
        player_id: 1,
        recipe_id: "plank".to_string(),
        input_item_ids: vec![],
    });
    match &ev[0] {
        EngineEvent::CraftingFailed { reason, .. } => assert_eq!(reason, "Recipe requires workbench station"),
        _ => panic!("expected a failure"),
    }
    g.set_pending_craft_items(1, vec![fiber(5, 1, 40)]);
    let ev = g.process_command(&Command::StartCrafting {
        player_id: 1,
        recipe_id: "rope".to_string(),
        input_item_ids: vec![5],
    });
    match &ev[0] {
        EngineEvent::CraftingFailed { reason, .. } => assert_eq!(reason, "Missing 1 more fiber"),
        _ => panic!("expected a failure"),
    }
    assert!(g.pending_craft_items.is_empty());
    g.set_pending_craft_items(1, vec![fiber(5, 4, 40)]);
    g.queue_command(Command::StartCrafting { player_id: 1, recipe_id: "rope".to_string(), input_item_ids: vec![5] });
    let r = g.tick();
    assert!(matches!(r.command_events[0], EngineEvent::CraftingStarted { player_id: 1, duration_ticks: 1, .. }));
    assert_eq!(r.world.crafting.completions.len(), 1);
    assert_eq!(g.actions[&1], ActionState::Idle);
    assert_eq!(g.take_items_to_consume(), vec![(5u128, 2)]);
    let items = g.take_pending_items();
    assert_eq!(items[0].item_type, "rope");
    assert_eq!(items[0].quality, 40);
}

#[test]
fn station_crafting_checks() {
    let mut g = game();
    g.stations.insert(
        3,
        StationState { id: 3, station_type: "forge".to_string(), owner_id: 1, container_id: None },
    );
    let ev = g.process_command(&Command::CraftAtStation {
        player_id: 1,
        station_id: 3,
        recipe_id: "plank".to_string(),
        input_item_ids: vec![],
        near_station: false,
    });
    match &ev[0] {
        EngineEvent::CraftingFailed { reason, .. } => assert_eq!(reason, "Cannot access station"),
        _ => panic!("expected a failure"),
    }
    let ev = g.process_command(&Command::CraftAtStation {
        player_id: 1,
        station_id: 3,
        recipe_id: "plank".to_string(),
        input_item_ids: vec![],
        near_station: true,
    });
    match &ev[0] {
        EngineEvent::CraftingFailed { reason, .. } => assert_eq!(reason, "Recipe requires workbench"),
        _ => panic!("expected a failure"),
    }
    let ev = g.process_command(&Command::CraftAtStation {
        player_id: 1,
        station_id: 3,
        recipe_id: "unknown".to_string(),
        input_item_ids: vec![],
        near_station: true,
    });
    assert!(ev.is_empty());
}

#[test]
fn cancelling_crafting_removes_the_job() {
    let mut g = game();
    g.set_pending_craft_items(1, vec![fiber(5, 2, 60)]);
    let ev = g.process_command(&Command::StartCrafting {
        player_id: 1,
        recipe_id: "rope".to_string(),
        input_item_ids: vec![5],
    });
    let op = match &ev[0] {
        EngineEvent::CraftingStarted { operation_id, .. } => *operation_id,
        _ => panic!("expected a start"),
    };
    assert!(g.crafting_operations.contains_key(&op));
    let ev = g.process_command(&Command::CancelCrafting { player_id: 1 });
    assert!(matches!(ev[0], EngineEvent::CraftingCancelled { player_id: 1, .. }));
    assert!(g.crafting_operations.is_empty());
    assert_eq!(g.actions[&1], ActionState::Idle);
    g.remove_player(1);
    assert!(g.actions.is_empty());
}

#[test]
fn checked_tick_runs_when_in_range() {
    let mut g = game();
    assert!(g.pending_items_ready());
    assert!(g.world_tick_ready());
    g.queue_command(Command::StartExtraction { player_id: 1, node_id: 10, within_range: true });
    let (events, world) = g.tick_checked();
    assert_eq!(events.len(), 1);
    assert!(world.is_some());
    assert_eq!(g.actions[&1], ActionState::Extracting { node_id: 10, progress: 1, duration: 2 });
}

#[test]
fn checked_tick_holds_back_an_out_of_range_world() {
    let mut g = game();
    g.actions.insert(2, ActionState::Extracting { node_id: 10, progress: i32::MAX, duration: 5 });
    assert!(!g.world_tick_ready());
    let (events, world) = g.tick_checked();
    assert!(events.is_empty());
    assert!(world.is_none());
    assert_eq!(g.get_tick_count(), 1);
    assert_eq!(g.actions[&2], ActionState::Extracting { node_id: 10, progress: i32::MAX, duration: 5 });
}
