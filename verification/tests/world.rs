use std::collections::HashMap;

use capitol_backend::extraction::{cancel_extraction, start_extraction, ActionState};
use capitol_backend::item::{InventoryItem, Item};
use capitol_backend::plot::{check_claim, is_owned, is_owned_by, PermissionLevel, PlotPermissions};
use capitol_backend::resource::{process_regeneration, NodeState, ResourceNodeState, ResourceType};
use capitol_backend::stations::{
    can_player_access_station, check_kit, check_plot_for_station, check_station_owner, expected_kit,
    decide_placement, get_station_kit_type, get_station_type_from_kit, kit_after_use, PlacementError,
};

#[test]
fn station_kits_round_trip() {
    for t in ["workbench", "forge", "storage_chest"] {
        let kit = get_station_kit_type(t).unwrap();
        assert_eq!(get_station_type_from_kit(kit), Some(t));
    }
    assert_eq!(get_station_kit_type("storage_chest"), Some("chest_kit"));
    assert_eq!(get_station_kit_type("anvil"), None);
    assert_eq!(get_station_type_from_kit("workbench"), None);
}

#[test]
fn station_placement_checks() {
    assert!(check_plot_for_station(Some(1), 1, 0, 2).is_ok());
    assert_eq!(check_plot_for_station(Some(2), 1, 0, 2), Err(PlacementError::NotOwner("You don't own this plot".to_string())));
    assert_eq!(check_plot_for_station(None, 1, 0, 2), Err(PlacementError::NotOwner("You don't own this plot".to_string())));
    assert_eq!(check_plot_for_station(Some(1), 1, 2, 2), Err(PlacementError::Rejected("Plot is at capacity (2/2)".to_string())));
    assert_eq!(expected_kit("forge"), Ok("forge_kit"));
    assert_eq!(expected_kit("anvil").unwrap_err(), "Invalid station type");
    assert!(check_kit("forge_kit", "forge_kit").is_ok());
    assert_eq!(check_kit("forge_kit", "chest_kit").unwrap_err(), "Wrong item type: expected forge_kit, got chest_kit");
    assert_eq!(kit_after_use(1), None);
    assert_eq!(kit_after_use(0), None);
    assert_eq!(kit_after_use(3), Some(2));
    assert!(can_player_access_station(5, 5));
    assert!(!can_player_access_station(5, 6));
    assert_eq!(check_station_owner(6, 5).unwrap_err(), "Not your station");
    assert!(check_station_owner(5, 5).is_ok());
}

#[test]
fn permission_levels() {
    for l in [PermissionLevel::Public, PermissionLevel::Friends, PermissionLevel::Guild, PermissionLevel::Owner] {
        assert_eq!(PermissionLevel::from_str(l.as_str()), Some(l));
    }
    assert_eq!(PermissionLevel::from_str("admin"), None);
    let p = PlotPermissions::default();
    assert_eq!(p.entry_level, "public");
    assert_eq!(p.visibility_level, "public");
    assert_eq!(p.station_use_level, "owner");
    assert_eq!(p.modify_level, "owner");
    assert_eq!(p.plot_id, 0);
}

#[test]
fn plot_ownership() {
    assert!(is_owned(Some(3)));
    assert!(!is_owned(None));
    assert!(is_owned_by(Some(3), 3));
    assert!(!is_owned_by(Some(3), 4));
    assert_eq!(check_claim(None, Some(500)), Ok(500));
    assert_eq!(check_claim(Some(1), Some(500)).unwrap_err(), "Plot is already claimed");
    assert_eq!(check_claim(None, None).unwrap_err(), "This zone does not allow plot ownership");
}

#[test]
fn inventory_item_view() {
    let item = Item { id: 9, item_type: "fiber".to_string(), quality: 91, quantity: 4, owner_id: Some(1), container_id: None, slot_index: Some(0) };
    let v = InventoryItem::from_item(&item, "Plant Fiber");
    assert_eq!(v.name, "Plant Fiber");
    assert_eq!(v.quality_grade, "A");
    assert_eq!(v.quantity, 4);
}

fn node(id: u128, state: NodeState, regen: Option<u64>) -> ResourceNodeState {
    ResourceNodeState { id, resource_type: "fiber_plant".to_string(), base_quality: 50, state, harvested_by: Some(1), regenerates_at_tick: regen }
}

#[test]
fn node_states() {
    assert_eq!(NodeState::parse("harvesting"), NodeState::BeingHarvested);
    assert_eq!(NodeState::parse("depleted"), NodeState::Depleted);
    assert_eq!(NodeState::parse("bogus"), NodeState::Available);
    for s in [NodeState::Available, NodeState::BeingHarvested, NodeState::Depleted] {
        assert_eq!(NodeState::parse(&s.as_string()), s);
    }
}

#[test]
fn regeneration() {
    let mut nodes = HashMap::new();
    nodes.insert(1, node(1, NodeState::Depleted, Some(10)));
    nodes.insert(2, node(2, NodeState::Depleted, Some(20)));
    nodes.insert(3, node(3, NodeState::BeingHarvested, Some(5)));
    let mut back = process_regeneration(&mut nodes, 10);
    back.sort();
    assert_eq!(back, vec![1]);
    assert_eq!(nodes[&1].state, NodeState::Available);
    assert_eq!(nodes[&1].harvested_by, None);
    assert_eq!(nodes[&1].regenerates_at_tick, None);
    assert_eq!(nodes[&2].state, NodeState::Depleted);
    assert_eq!(nodes[&3].state, NodeState::BeingHarvested);
    assert_eq!(process_regeneration(&mut nodes, 25), vec![2]);
}

fn fiber_type(tool: Option<&str>) -> ResourceType {
    ResourceType {
        id: "fiber_plant".to_string(),
        name: "Fiber Plant".to_string(),
        yields_item: "fiber".to_string(),
        yield_quantity_min: 1,
        yield_quantity_max: 3,
        base_quality_min: 40,
        base_quality_max: 60,
        required_tool: tool.map(|t| t.to_string()),
        extraction_duration_ticks: 30,
        regeneration_ticks: 600,
    }
}

#[test]
fn extraction_start_and_cancel() {
    let rt = fiber_type(None);
    let mut action = ActionState::Idle;
    let mut n = node(7, NodeState::Available, None);
    assert_eq!(start_extraction(&mut action, &mut n, &rt, false).unwrap_err(), "Too far from resource");
    assert_eq!(start_extraction(&mut action, &mut n, &fiber_type(Some("axe")), true).unwrap_err(), "Required tool not equipped");
    assert_eq!(start_extraction(&mut action, &mut n, &rt, true), Ok(30));
    assert_eq!(action, ActionState::Extracting { node_id: 7, progress: 0, duration: 30 });
    assert_eq!(n.state, NodeState::BeingHarvested);
    assert_eq!(start_extraction(&mut action, &mut n, &rt, true).unwrap_err(), "Already performing an action");
    let mut idle = ActionState::Idle;
    assert_eq!(start_extraction(&mut idle, &mut n, &rt, true).unwrap_err(), "Resource is not available");
    let mut nodes = HashMap::new();
    nodes.insert(7, n);
    assert!(cancel_extraction(&mut action, &mut nodes));
    assert_eq!(action, ActionState::Idle);
    assert_eq!(nodes[&7].state, NodeState::Available);
    assert!(!cancel_extraction(&mut action, &mut nodes));
}

#[test]
fn players_start_idle() {
    assert_eq!(ActionState::default(), ActionState::Idle);
}

#[test]
fn placement_decisions_in_order() {
    let me = 7;
    let plot = Some((Some(me), 1, 3));
    let kit = Some(("forge_kit".to_string(), 2));
    let rej = |m: &str| -> Result<Option<i32>, PlacementError> { Err(PlacementError::Rejected(m.to_string())) };
    assert_eq!(decide_placement("anvil", false, false, None, me, &None, true), rej("Unknown station type: anvil"));
    assert_eq!(decide_placement("forge", true, false, plot, me, &kit, false), rej("Too far to place station"));
    assert_eq!(decide_placement("forge", true, true, None, me, &kit, false), rej("Must place station on a plot"));
    assert_eq!(
        decide_placement("forge", true, true, Some((Some(8), 1, 3)), me, &kit, false),
        Err(PlacementError::NotOwner("You don't own this plot".to_string()))
    );
    assert_eq!(decide_placement("forge", true, true, Some((Some(me), 3, 3)), me, &kit, false), rej("Plot is at capacity (3/3)"));
    assert_eq!(decide_placement("campfire", true, true, plot, me, &kit, false), rej("Invalid station type"));
    assert_eq!(
        decide_placement("forge", true, true, plot, me, &None, false),
        Err(PlacementError::Missing("Kit item not found".to_string()))
    );
    let chest = Some(("chest_kit".to_string(), 1));
    assert_eq!(decide_placement("forge", true, true, plot, me, &chest, false), rej("Wrong item type: expected forge_kit, got chest_kit"));
    assert_eq!(decide_placement("forge", true, true, plot, me, &kit, true), rej("Too close to another station"));
    assert_eq!(decide_placement("forge", true, true, plot, me, &kit, false), Ok(Some(1)));
    assert_eq!(decide_placement("storage_chest", true, true, plot, me, &chest, false), Ok(None));
}
