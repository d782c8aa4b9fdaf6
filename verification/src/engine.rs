use std::collections::HashMap;
use vstd::prelude::*;

use crate::crafting::{
    cancel_crafting, crafting_computable, crafting_finisher, crafting_job, crafting_tick,
    crafting_tick_in_range, find_recipe, job_computable, jobs_keyed, lookup_recipe,
    process_crafting, missing_reason, requirements, requirements_met, start_crafting, tally,
    CraftingCompletion, CraftingOperation, CraftingReport, Recipe,
};
use crate::extraction::{
    cancel_extraction, extraction_node, extraction_refusal, extraction_step,
    extraction_tick_in_range, find_resource_type, finisher, lookup_resource_type, node_type,
    process_extractions, start_extraction, tick_state, yield_in_range, yields, ActionState, ExtractionReport, PendingItem,
};
use crate::keys::keys_u128;
use crate::item::{Item, ItemType};
use crate::resource::{
    process_regeneration, regeneration_tick, NodeState, ResourceNodeState, ResourceType,
};
use crate::stations::can_player_access_station;
use crate::text::{join2, join3};

verus! {

broadcast use vstd::std_specs::hash::group_hash_axioms;

/// A player's command to the game engine. Positions stay with the caller: `Move` sets the
/// destination the caller holds, and `within_range` / `near_station` say whether the player
/// stood within reach when the command was processed.
#[derive(Debug, Clone)]
pub enum Command {
    Move { player_id: u128 },
    StopMoving { player_id: u128 },
    StartExtraction { player_id: u128, node_id: u128, within_range: bool },
    CancelExtraction { player_id: u128 },
    StartCrafting { player_id: u128, recipe_id: String, input_item_ids: Vec<u128> },
    CancelCrafting { player_id: u128 },
    MoveItem { player_id: u128, item_id: u128, target_container_id: u128, target_slot: i32 },
    PlaceStation { player_id: u128, station_type: String, kit_item_id: u128 },
    RemoveStation { player_id: u128, station_id: u128 },
    OpenStation { player_id: u128, station_id: u128 },
    CloseStation { player_id: u128 },
    CraftAtStation {
        player_id: u128,
        station_id: u128,
        recipe_id: String,
        input_item_ids: Vec<u128>,
        near_station: bool,
    },
    InitiateTrade { player_id: u128, target_player_id: u128 },
    AcceptTradeRequest { player_id: u128 },
    DeclineTradeRequest { player_id: u128 },
    UpdateTradeOffer { player_id: u128, items: Vec<(u128, i32)>, strands: i64 },
    AcceptTrade { player_id: u128 },
    CancelTrade { player_id: u128 },
}

/// What processing a command produced, in order: the events to broadcast, and for movement
/// the order to the caller, who holds positions. `ExtractionStarted` and `CraftingStarted` also
/// stop the player's movement.
#[derive(Debug, Clone)]
pub enum EngineEvent {
    /// The player heads for the destination of its `Move` command.
    MoveAccepted { player_id: u128 },
    /// The player stops where it stands.
    MovementStopped { player_id: u128 },
    ExtractionStarted { player_id: u128, node_id: u128, duration_ticks: u32 },
    ExtractionCancelled { player_id: u128 },
    CraftingStarted {
        player_id: u128,
        operation_id: u128,
        recipe_id: String,
        recipe_name: String,
        duration_ticks: u32,
    },
    CraftingCancelled { player_id: u128, operation_id: u128 },
    CraftingFailed { player_id: u128, reason: String },
}

/// A placed station as the engine tracks it (its position stays with the caller).
#[derive(Debug, Clone)]
pub struct StationState {
    pub id: u128,
    pub station_type: String,
    pub owner_id: u128,
    pub container_id: Option<u128>,
}

/// The game engine's state: each connected player's action, the resource nodes, the tables of
/// resource types, recipes and item types, the crafting jobs, the items validated for a
/// player's next crafting command, the queue of commands, the tick count, the items produced
/// and to be used up since they were last taken, and the stations.
pub struct GameState {
    pub actions: HashMap<u128, ActionState>,
    pub resource_nodes: HashMap<u128, ResourceNodeState>,
    pub resource_types: Vec<ResourceType>,
    pub recipes: Vec<Recipe>,
    pub item_types: Vec<ItemType>,
    pub crafting_operations: HashMap<u128, CraftingOperation>,
    pub pending_craft_items: HashMap<u128, Vec<Item>>,
    pub command_queue: Vec<Command>,
    pub tick_count: u64,
    pub pending_items: Vec<PendingItem>,
    pub items_to_consume: Vec<(u128, i32)>,
    pub stations: HashMap<u128, StationState>,
}

/// The engine state as mathematical values.
#[verifier::ext_equal]
pub struct GameView {
    pub actions: Map<u128, ActionState>,
    pub nodes: Map<u128, ResourceNodeState>,
    pub resource_types: Seq<ResourceType>,
    pub recipes: Seq<Recipe>,
    pub item_types: Seq<ItemType>,
    pub operations: Map<u128, CraftingOperation>,
    pub pending_craft_items: Map<u128, Vec<Item>>,
    pub command_queue: Seq<Command>,
    pub tick_count: u64,
    pub pending_items: Seq<PendingItem>,
    pub items_to_consume: Seq<(u128, i32)>,
    pub stations: Map<u128, StationState>,
}

impl View for GameState {
    type V = GameView;

    open spec fn view(&self) -> GameView {
        GameView {
            actions: self.actions@,
            nodes: self.resource_nodes@,
            resource_types: self.resource_types@,
            recipes: self.recipes@,
            item_types: self.item_types@,
            operations: self.crafting_operations@,
            pending_craft_items: self.pending_craft_items@,
            command_queue: self.command_queue@,
            tick_count: self.tick_count,
            pending_items: self.pending_items@,
            items_to_consume: self.items_to_consume@,
            stations: self.stations@,
        }
    }
}

/// Every list of items validated for crafting is short enough to be matched.
pub open spec fn pending_items_fit(s: GameView) -> bool {
    forall|p: u128| #[trigger]
        s.pending_craft_items.contains_key(p) ==> s.pending_craft_items[p]@.len() < 0x8000_0000
}

/// The nodes after an extraction `a` is cancelled: its node, if it exists, is available again.
pub open spec fn nodes_after_cancel(
    nodes: Map<u128, ResourceNodeState>,
    a: ActionState,
) -> Map<u128, ResourceNodeState> {
    match a {
        ActionState::Extracting { node_id, .. } => if nodes.contains_key(node_id) {
            nodes.insert(node_id, ResourceNodeState { state: NodeState::Available, ..nodes[node_id] })
        } else {
            nodes
        },
        _ => nodes,
    }
}

/// The jobs after a crafting action `a` is cancelled: its job is gone.
pub open spec fn operations_after_cancel(
    ops: Map<u128, CraftingOperation>,
    a: ActionState,
) -> Map<u128, CraftingOperation> {
    match a {
        ActionState::Crafting { operation_id, .. } => ops.remove(operation_id),
        _ => ops,
    }
}

/// The state after cancelling an extraction of player `p` (present): the player is idle, and
/// the node it extracted from, if any, is available again.
pub open spec fn extraction_cancelled(s: GameView, p: u128) -> GameView {
    GameView {
        actions: s.actions.insert(p, ActionState::Idle),
        nodes: nodes_after_cancel(s.nodes, s.actions[p]),
        ..s
    }
}

/// The state after cancelling a crafting job of player `p` (present): the player is idle, and
/// the job it crafted, if any, is gone.
pub open spec fn crafting_cancelled(s: GameView, p: u128) -> GameView {
    GameView {
        actions: s.actions.insert(p, ActionState::Idle),
        operations: operations_after_cancel(s.operations, s.actions[p]),
        ..s
    }
}

/// The event of cancelling an extraction of player `p`, if it was extracting.
pub open spec fn extraction_cancel_events(s: GameView, p: u128) -> Seq<EngineEvent> {
    if s.actions[p] is Extracting {
        seq![EngineEvent::ExtractionCancelled { player_id: p }]
    } else {
        seq![]
    }
}

/// The event of cancelling a crafting job of player `p`, if it was crafting.
pub open spec fn crafting_cancel_events(s: GameView, p: u128) -> Seq<EngineEvent> {
    match s.actions[p] {
        ActionState::Crafting { operation_id, .. } => seq![
            EngineEvent::CraftingCancelled { player_id: p, operation_id },
        ],
        _ => seq![],
    }
}

/// A single failure event for player `p`, whose reason names a requirement still missing.
pub open spec fn fails_missing(ev: Seq<EngineEvent>, p: u128, remaining: Map<Seq<char>, int>) -> bool {
    ev.len() == 1 && (ev[0] matches EngineEvent::CraftingFailed { player_id, reason } && player_id
        == p && missing_reason(remaining, reason@))
}

/// The reason given when a recipe for `station_type` is crafted by hand.
pub open spec fn needs_station_error(station_type: Seq<char>) -> Seq<char> {
    "Recipe requires "@ + station_type + " station"@
}

/// The reason given when a recipe for `station_type` is crafted at another station.
pub open spec fn wrong_station_error(station_type: Seq<char>) -> Seq<char> {
    "Recipe requires "@ + station_type
}

/// A single failure event for player `p`, with the given reason.
pub open spec fn fails_because(ev: Seq<EngineEvent>, p: u128, why: Seq<char>) -> bool {
    ev.len() == 1 && (ev[0] matches EngineEvent::CraftingFailed { player_id, reason } && player_id
        == p && reason@ == why)
}

/// Outcome of `Move`: a present player stops what it does (extraction or crafting, with their
/// events) and heads for its destination; a missing player changes nothing.
pub open spec fn move_outcome(s: GameView, p: u128, t: GameView, ev: Seq<EngineEvent>) -> bool {
    if !s.actions.contains_key(p) {
        t == s && ev.len() == 0
    } else {
        match s.actions[p] {
            ActionState::Extracting { .. } => t == extraction_cancelled(s, p) && ev
                == extraction_cancel_events(s, p).push(EngineEvent::MoveAccepted { player_id: p }),
            ActionState::Crafting { .. } => t == crafting_cancelled(s, p) && ev
                == crafting_cancel_events(s, p).push(EngineEvent::MoveAccepted { player_id: p }),
            ActionState::Idle => t == s && ev == seq![EngineEvent::MoveAccepted { player_id: p }],
        }
    }
}

/// Outcome of `StartExtraction`: where the node exists with a known resource type and the player
/// is present, the extraction starts unless `extraction_refusal` says why not (a refusal changes
/// nothing and has no event).
pub open spec fn start_extraction_outcome(
    s: GameView,
    p: u128,
    n: u128,
    within_range: bool,
    t: GameView,
    ev: Seq<EngineEvent>,
) -> bool {
    let rt = find_resource_type(s.resource_types, s.nodes[n].resource_type@);
    if s.nodes.contains_key(n) && rt is Some && s.actions.contains_key(p) && extraction_refusal(
        s.actions[p],
        s.nodes[n],
        rt.unwrap(),
        within_range,
    ) is None {
        let node = s.nodes[n];
        let d = rt.unwrap().extraction_duration_ticks;
        &&& t == GameView {
            actions: s.actions.insert(
                p,
                ActionState::Extracting { node_id: node.id, progress: 0, duration: d },
            ),
            nodes: s.nodes.insert(n, ResourceNodeState { state: NodeState::BeingHarvested, ..node }),
            ..s
        }
        &&& ev == seq![
            EngineEvent::ExtractionStarted { player_id: p, node_id: node.id, duration_ticks: d as u32 },
        ]
    } else {
        t == s && ev.len() == 0
    }
}

/// Outcome of starting to craft `recipe` for player `p` once the recipe is accepted: a present
/// player with validated items uses them up (they are no longer pending) and, if idle and the
/// items cover the recipe, starts a new job; otherwise it gets a failure event.
pub open spec fn begin_crafting_outcome(
    s: GameView,
    p: u128,
    recipe: Recipe,
    t: GameView,
    ev: Seq<EngineEvent>,
) -> bool {
    if !s.actions.contains_key(p) || !s.pending_craft_items.contains_key(p) {
        t == s && ev.len() == 0
    } else {
        let tl = tally(requirements(recipe.inputs@), s.pending_craft_items[p]@);
        let s1 = GameView { pending_craft_items: s.pending_craft_items.remove(p), ..s };
        if s.actions[p] != ActionState::Idle {
            t == s1 && fails_because(ev, p, "Already performing an action"@)
        } else if !requirements_met(tl.remaining) {
            t == s1 && fails_missing(ev, p, tl.remaining)
        } else {
            &&& t.actions[p] matches ActionState::Crafting { operation_id, .. }
            &&& {
                let id = t.actions[p]->operation_id;
                let op = t.operations[id];
                &&& t == GameView {
                    actions: s.actions.insert(
                        p,
                        ActionState::Crafting {
                            operation_id: id,
                            recipe_id: recipe.id,
                            progress: 0,
                            duration: recipe.base_duration_ticks,
                        },
                    ),
                    operations: s.operations.insert(id, op),
                    ..s1
                }
                &&& op.operation_id == id
                &&& op.player_id == p
                &&& op.recipe_id == recipe.id
                &&& op.input_items_to_consume@ == tl.consume
                &&& op.input_qualities@ == tl.qualities
                &&& ev.len() == 1
                &&& ev[0] matches EngineEvent::CraftingStarted {
                    player_id,
                    operation_id,
                    recipe_id,
                    recipe_name,
                    duration_ticks,
                }
                &&& ev[0]->CraftingStarted_player_id == p
                &&& ev[0]->CraftingStarted_operation_id == id
                &&& ev[0]->CraftingStarted_recipe_id == recipe.id
                &&& ev[0]->CraftingStarted_recipe_name == recipe.name
                &&& ev[0]->CraftingStarted_duration_ticks == recipe.base_duration_ticks as u32
            }
        }
    }
}

/// Outcome of `StartCrafting` (crafting by hand): the recipe must exist and need no station.
pub open spec fn hand_crafting_outcome(
    s: GameView,
    p: u128,
    recipe_id: Seq<char>,
    t: GameView,
    ev: Seq<EngineEvent>,
) -> bool {
    match find_recipe(s.recipes, recipe_id) {
        None => t == s && fails_because(ev, p, "Recipe not found"@),
        Some(recipe) => match recipe.required_station_type {
            Some(st) => t == s && fails_because(ev, p, needs_station_error(st@)),
            None => begin_crafting_outcome(s, p, recipe, t, ev),
        },
    }
}

/// The player may use the station: both exist, the player stands near it and owns it.
pub open spec fn station_usable(s: GameView, p: u128, st: u128, near_station: bool) -> bool {
    s.stations.contains_key(st) && s.actions.contains_key(p) && near_station
        && s.stations[st].owner_id == p
}

/// Outcome of `CraftAtStation`: the player must be able to use the station, and a recipe that
/// needs a station type must need this station's type; an unknown recipe is ignored.
pub open spec fn station_crafting_outcome(
    s: GameView,
    p: u128,
    st: u128,
    recipe_id: Seq<char>,
    near_station: bool,
    t: GameView,
    ev: Seq<EngineEvent>,
) -> bool {
    if !station_usable(s, p, st, near_station) {
        t == s && fails_because(ev, p, "Cannot access station"@)
    } else {
        match find_recipe(s.recipes, recipe_id) {
            None => t == s && ev.len() == 0,
            Some(recipe) => match recipe.required_station_type {
                Some(req) => if req@ != s.stations[st].station_type@ {
                    t == s && fails_because(ev, p, wrong_station_error(req@))
                } else {
                    begin_crafting_outcome(s, p, recipe, t, ev)
                },
                None => begin_crafting_outcome(s, p, recipe, t, ev),
            },
        }
    }
}

/// What processing one command does to the engine state `s` (giving `t`) and which events it
/// produces. Commands on items, stations and trades are carried out elsewhere and change
/// nothing here.
pub open spec fn command_outcome(s: GameView, cmd: Command, t: GameView, ev: Seq<EngineEvent>) -> bool {
    match cmd {
        Command::Move { player_id } => move_outcome(s, player_id, t, ev),
        Command::StopMoving { player_id } => t == s && ev == if s.actions.contains_key(player_id) {
            seq![EngineEvent::MovementStopped { player_id }]
        } else {
            seq![]
        },
        Command::StartExtraction { player_id, node_id, within_range } => start_extraction_outcome(
            s,
            player_id,
            node_id,
            within_range,
            t,
            ev,
        ),
        Command::CancelExtraction { player_id } => if s.actions.contains_key(player_id) {
            t == extraction_cancelled(s, player_id) && ev == extraction_cancel_events(s, player_id)
        } else {
            t == s && ev.len() == 0
        },
        Command::StartCrafting { player_id, recipe_id, .. } => hand_crafting_outcome(
            s,
            player_id,
            recipe_id@,
            t,
            ev,
        ),
        Command::CancelCrafting { player_id } => if s.actions.contains_key(player_id) {
            t == crafting_cancelled(s, player_id) && ev == crafting_cancel_events(s, player_id)
        } else {
            t == s && ev.len() == 0
        },
        Command::CraftAtStation { player_id, station_id, recipe_id, near_station, .. } => {
            station_crafting_outcome(s, player_id, station_id, recipe_id@, near_station, t, ev)
        },
        _ => t == s && ev.len() == 0,
    }
}

/// All the events of a run of commands, in order.
pub open spec fn all_events(evs: Seq<Seq<EngineEvent>>) -> Seq<EngineEvent>
    decreases evs.len(),
{
    if evs.len() == 0 {
        seq![]
    } else {
        all_events(evs.drop_last()) + evs.last()
    }
}

/// `trace` and `evs` record running `cmds` in order from `trace[0]`: each command takes one state
/// to the next and produces its events.
pub open spec fn runs_commands(
    trace: Seq<GameView>,
    cmds: Seq<Command>,
    evs: Seq<Seq<EngineEvent>>,
) -> bool {
    &&& trace.len() == cmds.len() + 1
    &&& evs.len() == cmds.len()
    &&& forall|i: int|
        0 <= i < cmds.len() ==> command_outcome(trace[i], #[trigger] cmds[i], trace[i + 1], evs[i])
}

/// The state `s` with its command queue emptied.
pub open spec fn queue_taken(s: GameView) -> GameView {
    GameView { command_queue: seq![], ..s }
}

/// Processing the queued commands of `s` can end in state `t` with events `ev`.
pub open spec fn commands_lead_to(s: GameView, t: GameView, ev: Seq<EngineEvent>) -> bool {
    exists|trace: Seq<GameView>, evs: Seq<Seq<EngineEvent>>|
        #[trigger] runs_commands(trace, s.command_queue, evs) && trace[0] == queue_taken(s)
            && trace.last() == t && ev == all_events(evs)
}

/// The state `s` at the next tick.
pub open spec fn counted(s: GameView) -> GameView {
    GameView { tick_count: (s.tick_count + 1) as u64, ..s }
}

/// The items to store from a tick's crafting, in order.
pub open spec fn crafted_pending(cs: Seq<CraftingCompletion>) -> Seq<PendingItem>
    decreases cs.len(),
{
    if cs.len() == 0 {
        seq![]
    } else {
        crafted_pending(cs.drop_last()) + cs.last().pending_items@
    }
}

/// The items to use up after a tick's crafting, in order.
pub open spec fn crafted_consumed(cs: Seq<CraftingCompletion>) -> Seq<(u128, i32)>
    decreases cs.len(),
{
    if cs.len() == 0 {
        seq![]
    } else {
        crafted_consumed(cs.drop_last()) + cs.last().items_to_consume@
    }
}

/// What the world did in one tick: extraction, crafting and regeneration.
#[derive(Debug, Clone)]
pub struct WorldReport {
    pub extraction: ExtractionReport,
    pub crafting: CraftingReport,
    /// The nodes that became available again.
    pub regenerated: Vec<u128>,
}

/// What one tick did: the events of the commands, then the world's report.
#[derive(Debug, Clone)]
pub struct TickReport {
    pub command_events: Vec<EngineEvent>,
    pub world: WorldReport,
}

/// The world's tick from state `s` stays in range (see `extraction_tick_in_range` and
/// `crafting_tick_in_range`).
pub open spec fn world_tick_in_range(s: GameView) -> bool {
    &&& extraction_tick_in_range(s.actions, s.nodes, s.resource_types, s.tick_count)
    &&& crafting_tick_in_range(s.actions, s.operations, s.recipes)
}

/// The world's tick takes `s` to `t` with report `r`: extraction, then crafting, then
/// regeneration, each as its own function states; the items produced are added to those to
/// store (extraction's first, then each crafting job's), and the inputs of finished crafting
/// jobs to those to use up. Nothing else changes.
pub open spec fn world_tick(s: GameView, t: GameView, r: WorldReport) -> bool {
    exists|a1: Map<u128, ActionState>, n1: Map<u128, ResourceNodeState>|
        #[trigger] tick_state(
            s.actions,
            s.nodes,
            s.resource_types,
            s.tick_count,
            s.actions.dom(),
            a1,
            n1,
            r.extraction,
        ) && crafting_tick(
            a1,
            s.operations,
            s.recipes,
            s.item_types,
            t.actions,
            t.operations,
            r.crafting,
        ) && regeneration_tick(n1, s.tick_count, t.nodes, r.regenerated@) && t == (GameView {
            actions: t.actions,
            nodes: t.nodes,
            operations: t.operations,
            pending_items: s.pending_items + r.extraction.pending_items@ + crafted_pending(
                r.crafting.completions@,
            ),
            items_to_consume: s.items_to_consume + crafted_consumed(r.crafting.completions@),
            ..s
        })
}

/// A tick from state `s` stays in range: the tick count can grow, the validated item lists fit,
/// and whatever the queued commands lead to, the world's tick from there stays in range.
pub open spec fn tick_in_range(s: GameView) -> bool {
    &&& s.tick_count < u64::MAX
    &&& pending_items_fit(s)
    &&& forall|t: GameView, ev: Seq<EngineEvent>| #[trigger]
        commands_lead_to(counted(s), t, ev) ==> world_tick_in_range(t)
}

/// What the world's tick needs of player `p`: its progress can grow, its finishing extraction
/// (where the node yields) is computable, and so is its finishing crafting job (where the job
/// exists).
pub open spec fn player_ready(s: GameView, p: u128) -> bool {
    let a = s.actions[p];
    &&& match a {
        ActionState::Extracting { progress, .. } => progress < i32::MAX,
        ActionState::Crafting { progress, .. } => progress < i32::MAX,
        ActionState::Idle => true,
    }
    &&& finisher(s.actions, p, extraction_node(a)) && yields(
        s.nodes,
        s.resource_types,
        extraction_node(a),
    ) ==> yield_in_range(
        s.nodes[extraction_node(a)],
        node_type(s.nodes, s.resource_types, extraction_node(a)),
        s.tick_count,
    )
    &&& crafting_finisher(s.actions, p, crafting_job(a)) && s.operations.contains_key(
        crafting_job(a),
    ) ==> crafting_computable(s.operations[crafting_job(a)], s.recipes)
}

/// The world's tick stays in range exactly when the jobs are stored under their ids and every
/// player is ready.
proof fn lemma_world_ready_by_player(s: GameView)
    ensures
        world_tick_in_range(s) <==> (jobs_keyed(s.operations) && forall|p: u128| #[trigger]
            s.actions.contains_key(p) ==> player_ready(s, p)),
{
    if world_tick_in_range(s) {
        assert forall|p: u128| #[trigger] s.actions.contains_key(p) implies player_ready(s, p) by {
            let a = s.actions[p];
            if crafting_finisher(s.actions, p, crafting_job(a)) && s.operations.contains_key(
                crafting_job(a),
            ) {
            }
            if finisher(s.actions, p, extraction_node(a)) {
            }
        }
    }
    if jobs_keyed(s.operations) && forall|p: u128| #[trigger]
        s.actions.contains_key(p) ==> player_ready(s, p) {
        assert forall|p: u128, k: u128|
            #[trigger] crafting_finisher(s.actions, p, k) && s.operations.contains_key(k)
                implies crafting_computable(s.operations[k], s.recipes) by {
            assert(player_ready(s, p));
        }
        assert forall|p: u128|
            #[trigger] finisher(s.actions, p, extraction_node(s.actions[p])) && yields(
                s.nodes,
                s.resource_types,
                extraction_node(s.actions[p]),
            ) implies yield_in_range(
            s.nodes[extraction_node(s.actions[p])],
            node_type(s.nodes, s.resource_types, extraction_node(s.actions[p])),
            s.tick_count,
        ) by {
            assert(player_ready(s, p));
        }
    }
}

/// Extraction leaves every crafting action as it was, so what crafting needs still holds.
proof fn lemma_crafting_unaffected_by_extraction(
    m0: Map<u128, ActionState>,
    n0: Map<u128, ResourceNodeState>,
    types: Seq<ResourceType>,
    tick: u64,
    a1: Map<u128, ActionState>,
    n1: Map<u128, ResourceNodeState>,
    r: ExtractionReport,
    ops: Map<u128, CraftingOperation>,
    recipes: Seq<Recipe>,
)
    requires
        tick_state(m0, n0, types, tick, m0.dom(), a1, n1, r),
        crafting_tick_in_range(m0, ops, recipes),
    ensures
        crafting_tick_in_range(a1, ops, recipes),
{
    assert forall|p: u128| #[trigger] a1.contains_key(p) implies match a1[p] {
        ActionState::Crafting { progress, .. } => progress < i32::MAX,
        _ => true,
    } by {
        assert(m0.contains_key(p));
        assert(a1[p] == extraction_step(m0[p]));
    }
    assert forall|p: u128, k: u128|
        #[trigger] crafting_finisher(a1, p, k) && ops.contains_key(k) implies crate::crafting::crafting_computable(
        ops[k],
        recipes,
    ) by {
        assert(m0.contains_key(p));
        assert(a1[p] == extraction_step(m0[p]));
        assert(crafting_finisher(m0, p, k));
    }
}

/// Moving stops whatever the player was doing: afterwards a present player is idle, and the
/// last event tells the caller to move it.
pub proof fn lemma_move_stops_action(s: GameView, p: u128, t: GameView, ev: Seq<EngineEvent>)
    requires
        command_outcome(s, Command::Move { player_id: p }, t, ev),
        s.actions.contains_key(p),
    ensures
        t.actions[p] == ActionState::Idle,
        ev.len() >= 1,
        ev.last() == (EngineEvent::MoveAccepted { player_id: p }),
{
    match s.actions[p] {
        ActionState::Idle => {
            assert(s.actions.insert(p, ActionState::Idle) =~= s.actions);
        },
        _ => {},
    }
}

/// Every command keeps the crafting jobs stored under their own ids.
pub proof fn lemma_command_keeps_jobs_keyed(
    s: GameView,
    cmd: Command,
    t: GameView,
    ev: Seq<EngineEvent>,
)
    requires
        command_outcome(s, cmd, t, ev),
        crate::crafting::jobs_keyed(s.operations),
    ensures
        crate::crafting::jobs_keyed(t.operations),
{
}

/// A world tick keeps the crafting jobs stored under their own ids.
pub proof fn lemma_world_tick_keeps_jobs_keyed(s: GameView, t: GameView, r: WorldReport)
    requires
        world_tick(s, t, r),
        crate::crafting::jobs_keyed(s.operations),
    ensures
        crate::crafting::jobs_keyed(t.operations),
{
}

/// No command changes the tick count.
proof fn lemma_command_keeps_clock(s: GameView, cmd: Command, t: GameView, ev: Seq<EngineEvent>)
    requires
        command_outcome(s, cmd, t, ev),
    ensures
        t.tick_count == s.tick_count,
{
}

/// Along a run of commands the tick count stays as it was at the start.
proof fn lemma_run_keeps_clock(
    trace: Seq<GameView>,
    cmds: Seq<Command>,
    evs: Seq<Seq<EngineEvent>>,
    i: int,
)
    requires
        runs_commands(trace, cmds, evs),
        0 <= i < trace.len(),
    ensures
        trace[i].tick_count == trace[0].tick_count,
    decreases i,
{
    if i > 0 {
        lemma_run_keeps_clock(trace, cmds, evs, i - 1);
        lemma_command_keeps_clock(trace[i - 1], cmds[i - 1], trace[i], evs[i - 1]);
    }
}

/// The server's time only moves forward: a tick (its commands, then the world's tick) leaves
/// the tick count exactly one higher.
pub proof fn lemma_tick_advances_clock(
    s: GameView,
    mid: GameView,
    ev: Seq<EngineEvent>,
    t: GameView,
    r: WorldReport,
)
    requires
        s.tick_count < u64::MAX,
        commands_lead_to(counted(s), mid, ev),
        world_tick(mid, t, r),
    ensures
        t.tick_count == s.tick_count + 1,
{
    let (trace, evs) = choose|trace: Seq<GameView>, evs: Seq<Seq<EngineEvent>>|
        #[trigger] runs_commands(trace, counted(s).command_queue, evs) && trace[0] == queue_taken(
            counted(s),
        ) && trace.last() == mid && ev == all_events(evs);
    lemma_run_keeps_clock(trace, counted(s).command_queue, evs, trace.len() - 1);
}

/// Message for a hand-crafting attempt at a recipe that needs a station.
fn needs_station_message(station_type: &str) -> (r: String)
    ensures
        r@ == needs_station_error(station_type@),
{
    join3("Recipe requires ", station_type, " station")
}

/// Message for crafting at a station of the wrong type.
fn wrong_station_message(station_type: &str) -> (r: String)
    ensures
        r@ == wrong_station_error(station_type@),
{
    join2("Recipe requires ", station_type)
}

impl GameState {
    /// Cancels player `p`'s extraction (the player becomes idle in any case).
    fn cancel_player_extraction(&mut self, p: u128, events: &mut Vec<EngineEvent>)
        requires
            old(self)@.actions.contains_key(p),
        ensures
            final(self)@ == extraction_cancelled(old(self)@, p),
            final(events)@ == old(events)@ + extraction_cancel_events(old(self)@, p),
    {
        let mut a = self.actions.get(&p).unwrap().duplicate();
        let stopped = cancel_extraction(&mut a, &mut self.resource_nodes);
        self.actions.insert(p, a);
        if stopped {
            events.push(EngineEvent::ExtractionCancelled { player_id: p });
        }
        assert(self@ =~= extraction_cancelled(old(self)@, p));
        assert(events@ =~= old(events)@ + extraction_cancel_events(old(self)@, p));
    }

    /// Cancels player `p`'s crafting job (the player becomes idle in any case).
    fn cancel_player_crafting(&mut self, p: u128, events: &mut Vec<EngineEvent>)
        requires
            old(self)@.actions.contains_key(p),
        ensures
            final(self)@ == crafting_cancelled(old(self)@, p),
            final(events)@ == old(events)@ + crafting_cancel_events(old(self)@, p),
    {
        let mut a = self.actions.get(&p).unwrap().duplicate();
        let cancelled = cancel_crafting(&mut a, &mut self.crafting_operations);
        self.actions.insert(p, a);
        if let Some(op) = cancelled {
            events.push(EngineEvent::CraftingCancelled { player_id: p, operation_id: op });
        }
        assert(self@ =~= crafting_cancelled(old(self)@, p));
        assert(events@ =~= old(events)@ + crafting_cancel_events(old(self)@, p));
    }

    /// Starts crafting recipe `i` for player `p` from the items validated for it.
    fn begin_crafting(&mut self, p: u128, i: usize) -> (r: Vec<EngineEvent>)
        requires
            i < old(self)@.recipes.len(),
            pending_items_fit(old(self)@),
        ensures
            begin_crafting_outcome(old(self)@, p, old(self)@.recipes[i as int], final(self)@, r@),
    {
        let mut events: Vec<EngineEvent> = Vec::new();
        if !self.actions.contains_key(&p) {
            return events;
        }
        let ghost s = self@;
        let items = match self.pending_craft_items.remove(&p) {
            Some(items) => items,
            None => {
                assert(self@ =~= s);
                return events;
            },
        };
        assert(items == s.pending_craft_items[p]);
        let mut a = self.actions.get(&p).unwrap().duplicate();
        match start_crafting(p, &mut a, &self.recipes[i], &items, &mut self.crafting_operations) {
            Ok(id) => {
                self.actions.insert(p, a);
                let recipe = &self.recipes[i];
                events.push(
                    EngineEvent::CraftingStarted {
                        player_id: p,
                        operation_id: id,
                        recipe_id: recipe.id.clone(),
                        recipe_name: recipe.name.clone(),
                        duration_ticks: recipe.base_duration_ticks as u32,
                    },
                );
            },
            Err(e) => {
                events.push(EngineEvent::CraftingFailed { player_id: p, reason: e });
            },
        }
        proof {
            reveal_strlit("Already performing an action");
        }
        events
    }

    /// Processes the queued commands in order, emptying the queue (see `command_outcome`).
    pub fn process_commands(&mut self) -> (r: Vec<EngineEvent>)
        requires
            pending_items_fit(old(self)@),
        ensures
            commands_lead_to(old(self)@, final(self)@, r@),
            final(self)@.command_queue.len() == 0,
            pending_items_fit(final(self)@),
    {
        let ghost s0 = self@;
        let mut queue: Vec<Command> = Vec::new();
        std::mem::swap(&mut queue, &mut self.command_queue);
        assert(self@ =~= queue_taken(s0));
        let mut events: Vec<EngineEvent> = Vec::new();
        let ghost mut trace: Seq<GameView> = seq![self@];
        let ghost mut evs: Seq<Seq<EngineEvent>> = seq![];
        let mut i: usize = 0;
        while i < queue.len()
            invariant
                queue@ == s0.command_queue,
                i <= queue@.len(),
                trace.len() == i + 1,
                evs.len() == i,
                trace[0] == queue_taken(s0),
                trace.last() == self@,
                self@.command_queue.len() == 0,
                forall|j: int|
                    0 <= j < i ==> command_outcome(trace[j], #[trigger] queue@[j], trace[j + 1], evs[j]),
                events@ == all_events(evs),
                pending_items_fit(self@),
            decreases queue.len() - i,
        {
            let ghost before = self@;
            let mut e = self.process_command(&queue[i]);
            proof {
                assert(evs.push(e@).drop_last() =~= evs);
                trace = trace.push(self@);
                evs = evs.push(e@);
            }
            events.append(&mut e);
            i = i + 1;
        }
        assert(runs_commands(trace, s0.command_queue, evs));
        events
    }

    /// Advances the world by one tick at the current tick count: extraction, crafting and
    /// regeneration (see `world_tick`).
    pub fn advance_world(&mut self) -> (r: WorldReport)
        requires
            world_tick_in_range(old(self)@),
        ensures
            world_tick(old(self)@, final(self)@, r),
    {
        let ghost s = self@;
        let extraction = process_extractions(
            &mut self.actions,
            &mut self.resource_nodes,
            &self.resource_types,
            self.tick_count,
        );
        let ghost a1 = self.actions@;
        let ghost n1 = self.resource_nodes@;
        proof {
            lemma_crafting_unaffected_by_extraction(
                s.actions,
                s.nodes,
                s.resource_types,
                s.tick_count,
                a1,
                n1,
                extraction,
                s.operations,
                s.recipes,
            );
        }
        let crafting = process_crafting(
            &mut self.actions,
            &self.recipes,
            &mut self.crafting_operations,
            &self.item_types,
        );
        let regenerated = process_regeneration(&mut self.resource_nodes, self.tick_count);
        let ghost t0 = self@;
        let mut i: usize = 0;
        while i < extraction.pending_items.len()
            invariant
                i <= extraction.pending_items@.len(),
                self@ == (GameView { pending_items: self@.pending_items, ..t0 }),
                self@.pending_items == s.pending_items + extraction.pending_items@.subrange(0, i as int),
            decreases extraction.pending_items.len() - i,
        {
            self.pending_items.push(extraction.pending_items[i].duplicate());
            assert(extraction.pending_items@.subrange(0, i + 1) =~= extraction.pending_items@.subrange(
                0,
                i as int,
            ).push(extraction.pending_items@[i as int]));
            i = i + 1;
            assert(self@ =~= GameView { pending_items: self@.pending_items, ..t0 });
        }
        assert(extraction.pending_items@.subrange(0, i as int) =~= extraction.pending_items@);
        let ghost t1 = self@;
        let mut j: usize = 0;
        while j < crafting.completions.len()
            invariant
                j <= crafting.completions@.len(),
                self@ == (GameView {
                    pending_items: self@.pending_items,
                    items_to_consume: self@.items_to_consume,
                    ..t1
                }),
                self@.pending_items == t1.pending_items + crafted_pending(
                    crafting.completions@.subrange(0, j as int),
                ),
                self@.items_to_consume == s.items_to_consume + crafted_consumed(
                    crafting.completions@.subrange(0, j as int),
                ),
            decreases crafting.completions.len() - j,
        {
            let c = &crafting.completions[j];
            let ghost p0 = self@.pending_items;
            let ghost c0 = self@.items_to_consume;
            let mut k: usize = 0;
            while k < c.pending_items.len()
                invariant
                    k <= c.pending_items@.len(),
                    self@ == (GameView {
                        pending_items: self@.pending_items,
                        items_to_consume: self@.items_to_consume,
                        ..t1
                    }),
                    self@.pending_items == p0 + c.pending_items@.subrange(0, k as int),
                    self@.items_to_consume == c0,
                decreases c.pending_items.len() - k,
            {
                self.pending_items.push(c.pending_items[k].duplicate());
                assert(c.pending_items@.subrange(0, k + 1) =~= c.pending_items@.subrange(
                    0,
                    k as int,
                ).push(c.pending_items@[k as int]));
                k = k + 1;
                assert(self@ =~= GameView {
                    pending_items: self@.pending_items,
                    items_to_consume: self@.items_to_consume,
                    ..t1
                });
            }
            let mut m: usize = 0;
            while m < c.items_to_consume.len()
                invariant
                    m <= c.items_to_consume@.len(),
                    self@ == (GameView {
                        pending_items: self@.pending_items,
                        items_to_consume: self@.items_to_consume,
                        ..t1
                    }),
                    self@.pending_items == p0 + c.pending_items@,
                    self@.items_to_consume == c0 + c.items_to_consume@.subrange(0, m as int),
                decreases c.items_to_consume.len() - m,
            {
                self.items_to_consume.push(c.items_to_consume[m]);
                assert(c.items_to_consume@.subrange(0, m + 1) =~= c.items_to_consume@.subrange(
                    0,
                    m as int,
                ).push(c.items_to_consume@[m as int]));
                m = m + 1;
                assert(self@ =~= GameView {
                    pending_items: self@.pending_items,
                    items_to_consume: self@.items_to_consume,
                    ..t1
                });
            }
            proof {
                let cs = crafting.completions@.subrange(0, j + 1);
                assert(cs.drop_last() =~= crafting.completions@.subrange(0, j as int));
                assert(cs.last() == *c);
                assert(c.pending_items@.subrange(0, k as int) =~= c.pending_items@);
                assert(c.items_to_consume@.subrange(0, m as int) =~= c.items_to_consume@);
                assert(self@.pending_items =~= t1.pending_items + crafted_pending(cs));
                assert(self@.items_to_consume =~= s.items_to_consume + crafted_consumed(cs));
            }
            j = j + 1;
        }
        proof {
            assert(crafting.completions@.subrange(0, j as int) =~= crafting.completions@);
            assert(self@.pending_items =~= s.pending_items + extraction.pending_items@
                + crafted_pending(crafting.completions@));
        }
        WorldReport { extraction, crafting, regenerated }
    }

    /// One tick of the game: the tick count grows by one, the queued commands are processed,
    /// then the world advances (see `commands_lead_to` and `world_tick`).
    pub fn tick(&mut self) -> (r: TickReport)
        requires
            tick_in_range(old(self)@),
        ensures
            exists|mid: GameView|
                #[trigger] commands_lead_to(counted(old(self)@), mid, r.command_events@)
                    && world_tick(mid, final(self)@, r.world),
    {
        self.tick_count = self.tick_count + 1;
        assert(self@ =~= counted(old(self)@));
        let command_events = self.process_commands();
        let ghost mid = self@;
        assert(world_tick_in_range(mid));
        let world = self.advance_world();
        let r = TickReport { command_events, world };
        assert(commands_lead_to(counted(old(self)@), mid, r.command_events@) && world_tick(
            mid,
            self@,
            r.world,
        ));
        r
    }

    /// An empty game at tick 0.
    pub fn new() -> (r: GameState)
        ensures
            r@.actions.len() == 0,
            r@.nodes.len() == 0,
            r@.resource_types.len() == 0,
            r@.recipes.len() == 0,
            r@.item_types.len() == 0,
            r@.operations.len() == 0,
            r@.pending_craft_items.len() == 0,
            r@.command_queue.len() == 0,
            r@.tick_count == 0,
            r@.pending_items.len() == 0,
            r@.items_to_consume.len() == 0,
            r@.stations.len() == 0,
    {
        GameState {
            actions: HashMap::new(),
            resource_nodes: HashMap::new(),
            resource_types: Vec::new(),
            recipes: Vec::new(),
            item_types: Vec::new(),
            crafting_operations: HashMap::new(),
            pending_craft_items: HashMap::new(),
            command_queue: Vec::new(),
            tick_count: 0,
            pending_items: Vec::new(),
            items_to_consume: Vec::new(),
            stations: HashMap::new(),
        }
    }

    /// Takes the items produced since the last call, leaving none.
    pub fn take_pending_items(&mut self) -> (r: Vec<PendingItem>)
        ensures
            r@ == old(self)@.pending_items,
            final(self)@ == (GameView { pending_items: seq![], ..old(self)@ }),
    {
        let mut taken: Vec<PendingItem> = Vec::new();
        std::mem::swap(&mut taken, &mut self.pending_items);
        assert(self@ =~= GameView { pending_items: seq![], ..old(self)@ });
        taken
    }

    /// Takes the items to use up recorded since the last call, leaving none.
    pub fn take_items_to_consume(&mut self) -> (r: Vec<(u128, i32)>)
        ensures
            r@ == old(self)@.items_to_consume,
            final(self)@ == (GameView { items_to_consume: seq![], ..old(self)@ }),
    {
        let mut taken: Vec<(u128, i32)> = Vec::new();
        std::mem::swap(&mut taken, &mut self.items_to_consume);
        assert(self@ =~= GameView { items_to_consume: seq![], ..old(self)@ });
        taken
    }

    /// The number of ticks so far.
    pub fn get_tick_count(&self) -> (r: u64)
        ensures
            r == self@.tick_count,
    {
        self.tick_count
    }

    /// A player joins the game, idle (replacing any state it had).
    pub fn add_player(&mut self, player_id: u128)
        ensures
            final(self)@ == (GameView {
                actions: old(self)@.actions.insert(player_id, ActionState::Idle),
                ..old(self)@
            }),
    {
        self.actions.insert(player_id, ActionState::Idle);
        assert(self@ =~= GameView {
            actions: old(self)@.actions.insert(player_id, ActionState::Idle),
            ..old(self)@
        });
    }

    /// A player leaves the game.
    pub fn remove_player(&mut self, player_id: u128)
        ensures
            final(self)@ == (GameView {
                actions: old(self)@.actions.remove(player_id),
                ..old(self)@
            }),
    {
        self.actions.remove(&player_id);
        assert(self@ =~= GameView { actions: old(self)@.actions.remove(player_id), ..old(self)@ });
    }

    /// Records the items validated for a player's next crafting command (replacing earlier ones).
    pub fn set_pending_craft_items(&mut self, player_id: u128, items: Vec<Item>)
        requires
            items@.len() < 0x8000_0000,
        ensures
            final(self)@ == (GameView {
                pending_craft_items: old(self)@.pending_craft_items.insert(player_id, items),
                ..old(self)@
            }),
            pending_items_fit(old(self)@) ==> pending_items_fit(final(self)@),
    {
        self.pending_craft_items.insert(player_id, items);
        assert(self@ =~= GameView {
            pending_craft_items: old(self)@.pending_craft_items.insert(player_id, items),
            ..old(self)@
        });
    }

    /// Whether player `p` (who is in the game) is ready for the world's tick (see
    /// `player_ready`).
    fn player_ready_now(&self, p: u128) -> (r: bool)
        requires
            self@.actions.contains_key(p),
        ensures
            r == player_ready(self@, p),
    {
        match self.actions.get(&p).unwrap() {
            ActionState::Idle => true,
            ActionState::Extracting { node_id, progress, duration } => {
                if *progress == i32::MAX {
                    return false;
                }
                if *progress + 1 < *duration {
                    return true;
                }
                match self.resource_nodes.get(node_id) {
                    None => true,
                    Some(node) => match lookup_resource_type(&self.resource_types, &node.resource_type) {
                        None => true,
                        Some(i) => {
                            let rt = &self.resource_types[i];
                            rt.yield_quantity_min <= rt.yield_quantity_max && i32::MIN + 5
                                <= node.base_quality && node.base_quality <= i32::MAX - 5
                                && rt.regeneration_ticks >= 0 && (self.tick_count as u128)
                                + (rt.regeneration_ticks as u128) <= u64::MAX as u128
                        },
                    },
                }
            },
            ActionState::Crafting { operation_id, progress, duration, .. } => {
                if *progress == i32::MAX {
                    return false;
                }
                if *progress + 1 < *duration {
                    return true;
                }
                match self.crafting_operations.get(operation_id) {
                    None => true,
                    Some(op) => job_computable(op, &self.recipes),
                }
            },
        }
    }

    /// Whether the world's tick from the current state stays in range (see
    /// `world_tick_in_range`).
    pub fn world_tick_ready(&self) -> (r: bool)
        ensures
            r == world_tick_in_range(self@),
    {
        proof {
            lemma_world_ready_by_player(self@);
        }
        let jobs = keys_u128(&self.crafting_operations);
        let mut j: usize = 0;
        while j < jobs.len()
            invariant
                jobs@.to_set() == self@.operations.dom(),
                j <= jobs@.len(),
                forall|i: int|
                    0 <= i < j ==> (#[trigger] self@.operations[jobs@[i]]).operation_id == jobs@[i],
            decreases jobs.len() - j,
        {
            let k = jobs[j];
            assert(jobs@.to_set().contains(k));
            if self.crafting_operations.get(&k).unwrap().operation_id != k {
                return false;
            }
            j = j + 1;
        }
        assert forall|k: u128| #[trigger] self@.operations.contains_key(k) implies self@.operations[k].operation_id == k by {
            assert(jobs@.to_set().contains(k));
            let i = choose|i: int| 0 <= i < jobs@.len() && jobs@[i] == k;
            assert(self@.operations[jobs@[i]].operation_id == jobs@[i]);
        }
        let players = keys_u128(&self.actions);
        let mut n: usize = 0;
        while n < players.len()
            invariant
                players@.to_set() == self@.actions.dom(),
                n <= players@.len(),
                forall|i: int| 0 <= i < n ==> player_ready(self@, #[trigger] players@[i]),
            decreases players.len() - n,
        {
            let p = players[n];
            assert(players@.to_set().contains(p));
            if !self.player_ready_now(p) {
                return false;
            }
            n = n + 1;
        }
        assert forall|p: u128| #[trigger] self@.actions.contains_key(p) implies player_ready(self@, p) by {
            assert(players@.to_set().contains(p));
            let i = choose|i: int| 0 <= i < players@.len() && players@[i] == p;
            assert(player_ready(self@, players@[i]));
        }
        true
    }

    /// Whether every list of items validated for crafting is short enough to be matched (see
    /// `pending_items_fit`).
    pub fn pending_items_ready(&self) -> (r: bool)
        ensures
            r == pending_items_fit(self@),
    {
        let players = keys_u128(&self.pending_craft_items);
        let mut n: usize = 0;
        while n < players.len()
            invariant
                players@.to_set() == self@.pending_craft_items.dom(),
                n <= players@.len(),
                forall|i: int|
                    0 <= i < n ==> (#[trigger] self@.pending_craft_items[players@[i]])@.len()
                        < 0x8000_0000,
            decreases players.len() - n,
        {
            let p = players[n];
            assert(players@.to_set().contains(p));
            if self.pending_craft_items.get(&p).unwrap().len() >= 0x8000_0000 {
                return false;
            }
            n = n + 1;
        }
        assert forall|p: u128| #[trigger] self@.pending_craft_items.contains_key(p) implies self@.pending_craft_items[p]@.len() < 0x8000_0000 by {
            assert(players@.to_set().contains(p));
            let i = choose|i: int| 0 <= i < players@.len() && players@[i] == p;
            assert(self@.pending_craft_items[players@[i]]@.len() < 0x8000_0000);
        }
        true
    }

    /// One tick whose world part runs only when it stays in range: the tick count grows by
    /// one and the queued commands are processed; then, if the world's tick stays in range, the
    /// world advances, and otherwise the world is left as the commands left it (`None`).
    pub fn tick_checked(&mut self) -> (r: (Vec<EngineEvent>, Option<WorldReport>))
        requires
            old(self)@.tick_count < u64::MAX,
            pending_items_fit(old(self)@),
        ensures
            exists|mid: GameView|
                #[trigger] commands_lead_to(counted(old(self)@), mid, r.0@) && match r.1 {
                    Some(w) => world_tick(mid, final(self)@, w),
                    None => !world_tick_in_range(mid) && final(self)@ == mid,
                },
    {
        self.tick_count = self.tick_count + 1;
        assert(self@ =~= counted(old(self)@));
        let command_events = self.process_commands();
        let ghost mid = self@;
        if self.world_tick_ready() {
            let world = self.advance_world();
            let r = (command_events, Some(world));
            assert(commands_lead_to(counted(old(self)@), mid, r.0@) && world_tick(mid, self@, world));
            r
        } else {
            let r = (command_events, None);
            assert(commands_lead_to(counted(old(self)@), mid, r.0@) && !world_tick_in_range(mid));
            r
        }
    }

    /// Adds a command to the queue processed at the next tick.
    pub fn queue_command(&mut self, command: Command)
        ensures
            final(self)@ == (GameView {
                command_queue: old(self)@.command_queue.push(command),
                ..old(self)@
            }),
    {
        self.command_queue.push(command);
        assert(self@ =~= GameView {
            command_queue: old(self)@.command_queue.push(command),
            ..old(self)@
        });
    }

    /// Processes one command (see `command_outcome`).
    pub fn process_command(&mut self, cmd: &Command) -> (r: Vec<EngineEvent>)
        requires
            pending_items_fit(old(self)@),
        ensures
            command_outcome(old(self)@, *cmd, final(self)@, r@),
            pending_items_fit(final(self)@),
    {
        let mut events: Vec<EngineEvent> = Vec::new();
        match cmd {
            Command::Move { player_id } => {
                let p = *player_id;
                let kind: u8 = match self.actions.get(&p) {
                    None => 0,
                    Some(ActionState::Idle) => 1,
                    Some(ActionState::Extracting { .. }) => 2,
                    Some(ActionState::Crafting { .. }) => 3,
                };
                if kind == 2 {
                    self.cancel_player_extraction(p, &mut events);
                } else if kind == 3 {
                    self.cancel_player_crafting(p, &mut events);
                }
                if kind != 0 {
                    events.push(EngineEvent::MoveAccepted { player_id: p });
                }
            },
            Command::StopMoving { player_id } => {
                if self.actions.contains_key(player_id) {
                    events.push(EngineEvent::MovementStopped { player_id: *player_id });
                }
            },
            Command::StartExtraction { player_id, node_id, within_range } => {
                let p = *player_id;
                let n = *node_id;
                let rt_index = match self.resource_nodes.get(&n) {
                    Some(node) => lookup_resource_type(&self.resource_types, &node.resource_type),
                    None => None,
                };
                if let Some(i) = rt_index {
                    if self.actions.contains_key(&p) {
                        let mut a = self.actions.get(&p).unwrap().duplicate();
                        let mut node = self.resource_nodes.get(&n).unwrap().duplicate();
                        match start_extraction(&mut a, &mut node, &self.resource_types[i], *within_range) {
                            Ok(d) => {
                                let nid = node.id;
                                self.actions.insert(p, a);
                                self.resource_nodes.insert(n, node);
                                events.push(
                                    EngineEvent::ExtractionStarted {
                                        player_id: p,
                                        node_id: nid,
                                        duration_ticks: d as u32,
                                    },
                                );
                            },
                            Err(_) => {},
                        }
                    }
                }
            },
            Command::CancelExtraction { player_id } => {
                if self.actions.contains_key(player_id) {
                    self.cancel_player_extraction(*player_id, &mut events);
                }
            },
            Command::StartCrafting { player_id, recipe_id, .. } => {
                let p = *player_id;
                match lookup_recipe(&self.recipes, recipe_id) {
                    None => {
                        events.push(
                            EngineEvent::CraftingFailed {
                                player_id: p,
                                reason: "Recipe not found".to_owned(),
                            },
                        );
                    },
                    Some(i) => {
                        let reason = match &self.recipes[i].required_station_type {
                            Some(st) => Some(needs_station_message(st.as_str())),
                            None => None,
                        };
                        match reason {
                            Some(reason) => {
                                events.push(EngineEvent::CraftingFailed { player_id: p, reason });
                            },
                            None => {
                                events = self.begin_crafting(p, i);
                            },
                        }
                    },
                }
            },
            Command::CancelCrafting { player_id } => {
                if self.actions.contains_key(player_id) {
                    self.cancel_player_crafting(*player_id, &mut events);
                }
            },
            Command::CraftAtStation { player_id, station_id, recipe_id, near_station, .. } => {
                let p = *player_id;
                let usable = match self.stations.get(station_id) {
                    Some(station) => self.actions.contains_key(&p) && *near_station
                        && can_player_access_station(p, station.owner_id),
                    None => false,
                };
                if !usable {
                    events.push(
                        EngineEvent::CraftingFailed {
                            player_id: p,
                            reason: "Cannot access station".to_owned(),
                        },
                    );
                } else {
                    match lookup_recipe(&self.recipes, recipe_id) {
                        None => {},
                        Some(i) => {
                            let station_type = &self.stations.get(station_id).unwrap().station_type;
                            let reason = match &self.recipes[i].required_station_type {
                                Some(req) => if *req != *station_type {
                                    Some(wrong_station_message(req.as_str()))
                                } else {
                                    None
                                },
                                None => None,
                            };
                            match reason {
                                Some(reason) => {
                                    events.push(EngineEvent::CraftingFailed { player_id: p, reason });
                                },
                                None => {
                                    events = self.begin_crafting(p, i);
                                },
                            }
                        },
                    }
                }
            },
            _ => {},
        }
        proof {
            reveal_strlit("Recipe not found");
            reveal_strlit("Cannot access station");
        }
        events
    }
}

} // verus!
