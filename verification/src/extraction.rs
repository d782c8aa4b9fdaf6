use std::collections::HashMap;
use vstd::prelude::*;

use crate::arith::is_multiple_of_five;
use crate::random::random_in_range;
use crate::keys::{keys_u128, lemma_prefix_grows, lemma_push_contains};
use crate::resource::{due_to_regenerate, NodeState, ResourceNodeState, ResourceType};
use crate::text::str_eq;

verus! {

broadcast use vstd::std_specs::hash::group_hash_axioms;

/// What a player is busy with.
#[derive(Debug, Clone, PartialEq, Eq)]
pub enum ActionState {
    Idle,
    Extracting { node_id: u128, progress: i32, duration: i32 },
    Crafting { operation_id: u128, recipe_id: String, progress: i32, duration: i32 },
}

impl ActionState {
    /// A field-by-field copy of the action.
    pub fn duplicate(&self) -> (r: ActionState)
        ensures
            r == *self,
    {
        match self {
            ActionState::Idle => ActionState::Idle,
            ActionState::Extracting { node_id, progress, duration } => ActionState::Extracting {
                node_id: *node_id,
                progress: *progress,
                duration: *duration,
            },
            ActionState::Crafting { operation_id, recipe_id, progress, duration } => {
                ActionState::Crafting {
                    operation_id: *operation_id,
                    recipe_id: recipe_id.clone(),
                    progress: *progress,
                    duration: *duration,
                }
            },
        }
    }
}

impl Default for ActionState {
    /// A player starts idle.
    fn default() -> (r: ActionState)
        ensures
            r == ActionState::Idle,
    {
        ActionState::Idle
    }
}

/// An item that extraction or crafting has produced and that still has to be stored.
#[derive(Debug, Clone)]
pub struct PendingItem {
    pub player_id: u128,
    pub item_type: String,
    pub quantity: i32,
    pub quality: i32,
    /// Container type to store it in (e.g. "crafting_output"); `None` means the player's inventory.
    pub target_container_type: Option<String>,
}

impl PendingItem {
    /// A field-by-field copy of the item.
    pub fn duplicate(&self) -> (r: PendingItem)
        ensures
            r == *self,
    {
        PendingItem {
            player_id: self.player_id,
            item_type: self.item_type.clone(),
            quantity: self.quantity,
            quality: self.quality,
            target_container_type: match &self.target_container_type {
                Some(t) => Some(t.clone()),
                None => None,
            },
        }
    }
}

/// The error, if any, that stops a player from starting to extract from a node, checked in
/// order: already busy, node unavailable, out of range, tool required.
pub open spec fn extraction_refusal(
    action: ActionState,
    node: ResourceNodeState,
    resource_type: ResourceType,
    within_range: bool,
) -> Option<Seq<char>> {
    if action != ActionState::Idle {
        Some("Already performing an action"@)
    } else if node.state != NodeState::Available {
        Some("Resource is not available"@)
    } else if !within_range {
        Some("Too far from resource"@)
    } else if resource_type.required_tool is Some {
        Some("Required tool not equipped"@)
    } else {
        None
    }
}

/// Starts extracting from `node`. `within_range` says whether the player stands within
/// extraction range of the node. On success the player is extracting from the node with no
/// progress yet, the node is being harvested, and the result is the extraction's duration.
pub fn start_extraction(
    action: &mut ActionState,
    node: &mut ResourceNodeState,
    resource_type: &ResourceType,
    within_range: bool,
) -> (r: Result<i32, String>)
    ensures
        match extraction_refusal(*old(action), *old(node), *resource_type, within_range) {
            Some(msg) => {
                &&& r matches Err(e) && e@ == msg
                &&& *final(action) == *old(action)
                &&& *final(node) == *old(node)
            },
            None => {
                &&& r == Ok::<i32, String>(resource_type.extraction_duration_ticks)
                &&& *final(action) == ActionState::Extracting {
                    node_id: old(node).id,
                    progress: 0,
                    duration: resource_type.extraction_duration_ticks,
                }
                &&& *final(node) == ResourceNodeState {
                    state: NodeState::BeingHarvested,
                    ..*old(node)
                }
            },
        },
{
    match action {
        ActionState::Idle => {},
        _ => {
            return Err("Already performing an action".to_owned());
        },
    }
    match node.state {
        NodeState::Available => {},
        _ => {
            return Err("Resource is not available".to_owned());
        },
    }
    if !within_range {
        return Err("Too far from resource".to_owned());
    }
    if resource_type.required_tool.is_some() {
        return Err("Required tool not equipped".to_owned());
    }
    let duration = resource_type.extraction_duration_ticks;
    *action = ActionState::Extracting { node_id: node.id, progress: 0, duration };
    node.state = NodeState::BeingHarvested;
    Ok(duration)
}

/// Stops a player's extraction, if any: its node becomes available again. The player is idle
/// afterwards in any case; the result says whether an extraction was stopped.
pub fn cancel_extraction(action: &mut ActionState, nodes: &mut HashMap<u128, ResourceNodeState>) -> (r:
    bool)
    ensures
        *final(action) == ActionState::Idle,
        r == (*old(action) is Extracting),
        match *old(action) {
            ActionState::Extracting { node_id, .. } => if old(nodes)@.contains_key(node_id) {
                final(nodes)@ == old(nodes)@.insert(
                    node_id,
                    ResourceNodeState { state: NodeState::Available, ..old(nodes)@[node_id] },
                )
            } else {
                final(nodes)@ == old(nodes)@
            },
            _ => final(nodes)@ == old(nodes)@,
        },
{
    let mut stopped = false;
    if let ActionState::Extracting { node_id, .. } = action {
        let id = *node_id;
        if let Some(node) = nodes.get(&id) {
            let mut restored = node.duplicate();
            restored.state = NodeState::Available;
            nodes.insert(id, restored);
        }
        stopped = true;
    }
    *action = ActionState::Idle;
    stopped
}

/// The display name of an extracted item type.
pub open spec fn extracted_item_name(item_type: Seq<char>) -> Seq<char> {
    if item_type == "fiber"@ {
        "Plant Fiber"@
    } else {
        item_type
    }
}

/// The display name of an extracted item type.
pub fn get_item_name(item_type: &str) -> (r: String)
    ensures
        r@ == extracted_item_name(item_type@),
{
    if str_eq(item_type, "fiber") {
        "Plant Fiber".to_owned()
    } else {
        item_type.to_owned()
    }
}

/// The first resource type with the given id, if any.
pub open spec fn find_resource_type(types: Seq<ResourceType>, id: Seq<char>) -> Option<ResourceType>
    decreases types.len(),
{
    if types.len() == 0 {
        None
    } else if types[0].id@ == id {
        Some(types[0])
    } else {
        find_resource_type(types.drop_first(), id)
    }
}

/// Looks up a resource type by id (the first one listed with that id).
pub fn lookup_resource_type(types: &Vec<ResourceType>, id: &String) -> (r: Option<usize>)
    ensures
        match r {
            Some(i) => i < types@.len() && find_resource_type(types@, id@) == Some(types@[i as int]),
            None => find_resource_type(types@, id@) is None,
        },
{
    let mut n: usize = 0;
    assert(types@.subrange(0, types@.len() as int) =~= types@);
    while n < types.len()
        invariant
            n <= types@.len(),
            find_resource_type(types@, id@) == find_resource_type(
                types@.subrange(n as int, types@.len() as int),
                id@,
            ),
        decreases types.len() - n,
    {
        assert(types@.subrange(n as int, types@.len() as int).drop_first() =~= types@.subrange(
            n + 1,
            types@.len() as int,
        ));
        if types[n].id == *id {
            return Some(n);
        }
        n = n + 1;
    }
    None
}

/// One player's extraction after a tick: one more unit of progress, and idle once done.
pub open spec fn extraction_step(a: ActionState) -> ActionState {
    match a {
        ActionState::Extracting { node_id, progress, duration } => if progress + 1 >= duration {
            ActionState::Idle
        } else {
            ActionState::Extracting { node_id, progress: (progress + 1) as i32, duration }
        },
        _ => a,
    }
}

/// The extraction finishes at this tick.
pub open spec fn finishes_extraction(a: ActionState) -> bool {
    a matches ActionState::Extracting { progress, duration, .. } && progress + 1 >= duration
}

/// The extraction reports its progress at this tick (every fifth unit).
pub open spec fn reports_extraction_progress(a: ActionState) -> bool {
    a matches ActionState::Extracting { progress, .. } && (progress + 1) % 5 == 0
}

/// The node an action extracts from.
pub open spec fn extraction_node(a: ActionState) -> u128 {
    match a {
        ActionState::Extracting { node_id, .. } => node_id,
        _ => 0,
    }
}

/// The finished extraction yields something: its node exists and has a known resource type.
pub open spec fn yields(
    nodes: Map<u128, ResourceNodeState>,
    types: Seq<ResourceType>,
    node_id: u128,
) -> bool {
    nodes.contains_key(node_id) && find_resource_type(types, nodes[node_id].resource_type@) is Some
}

/// A finished extraction's yield.
#[derive(Debug, Clone)]
pub struct CompletedExtraction {
    pub player_id: u128,
    pub node_id: u128,
    pub item_type: String,
    pub item_name: String,
    pub quantity: i32,
    pub quality: i32,
}

/// What one tick of extraction produced, for the events and the storage of items.
#[derive(Debug, Clone)]
pub struct ExtractionReport {
    /// (player, progress, duration) of extractions at a fifth unit of progress.
    pub progress_updates: Vec<(u128, u32, u32)>,
    /// Every finished extraction, as (player, node).
    pub finished: Vec<(u128, u128)>,
    /// The yields of the finished extractions whose node and resource type exist.
    pub completed: Vec<CompletedExtraction>,
    /// The items to store, one per yield.
    pub pending_items: Vec<PendingItem>,
}

/// Clamps to the quality scale 0-100.
pub open spec fn clamp_0_100(x: int) -> int {
    if x < 0 {
        0
    } else if x > 100 {
        100
    } else {
        x
    }
}

/// The arithmetic of finishing an extraction of `node` at `tick` stays in range.
pub open spec fn yield_in_range(n: ResourceNodeState, rt: ResourceType, tick: u64) -> bool {
    &&& rt.yield_quantity_min <= rt.yield_quantity_max
    &&& i32::MIN + 5 <= n.base_quality <= i32::MAX - 5
    &&& rt.regeneration_ticks >= 0
    &&& tick + rt.regeneration_ticks <= u64::MAX
}

/// `q` could be the quality of an extraction from a node of base quality `base`.
pub open spec fn extracted_quality(base: int, q: int) -> bool {
    exists|v: int| -5 <= v <= 5 && q == #[trigger] clamp_0_100(base + v)
}

/// An extracted item's quality lies on the quality scale 0-100, within 5 of its node's base
/// quality brought onto that scale.
pub proof fn lemma_extracted_quality_in_range(base: int, q: int)
    requires
        extracted_quality(base, q),
    ensures
        0 <= q <= 100,
        clamp_0_100(base) - 5 <= q <= clamp_0_100(base) + 5,
{
    let v = choose|v: int| -5 <= v <= 5 && q == #[trigger] clamp_0_100(base + v);
}

/// Finishes one extraction of `node` (of resource type `rt`) by `player_id` at `tick`: the
/// yield gets a random quantity within the type's range and the node's base quality adjusted by
/// a random amount from -5 to 5 (clamped to 0-100); the node becomes depleted, harvested by the
/// player, and regenerates `regeneration_ticks` later.
pub fn finish_extraction(
    player_id: u128,
    node: &mut ResourceNodeState,
    rt: &ResourceType,
    tick_count: u64,
) -> (r: CompletedExtraction)
    requires
        yield_in_range(*old(node), *rt, tick_count),
    ensures
        r.player_id == player_id,
        r.node_id == old(node).id,
        r.item_type == rt.yields_item,
        r.item_name@ == extracted_item_name(rt.yields_item@),
        rt.yield_quantity_min <= r.quantity <= rt.yield_quantity_max,
        extracted_quality(old(node).base_quality as int, r.quality as int),
        *final(node) == (ResourceNodeState {
            state: NodeState::Depleted,
            harvested_by: Some(player_id),
            regenerates_at_tick: Some((tick_count + rt.regeneration_ticks) as u64),
            ..*old(node)
        }),
{
    let quantity = random_in_range(rt.yield_quantity_min, rt.yield_quantity_max);
    let variance = random_in_range(-5, 5);
    let raw = node.base_quality + variance;
    let quality = if raw < 0 {
        0
    } else if raw > 100 {
        100
    } else {
        raw
    };
    assert(quality == clamp_0_100(node.base_quality + variance));
    node.state = NodeState::Depleted;
    node.harvested_by = Some(player_id);
    node.regenerates_at_tick = Some(tick_count + rt.regeneration_ticks as u64);
    CompletedExtraction {
        player_id,
        node_id: node.id,
        item_type: rt.yields_item.clone(),
        item_name: get_item_name(rt.yields_item.as_str()),
        quantity,
        quality,
    }
}

/// Player `p` finishes, at this tick, an extraction from node `n`.
pub open spec fn finisher(actions: Map<u128, ActionState>, p: u128, n: u128) -> bool {
    actions.contains_key(p) && finishes_extraction(actions[p]) && extraction_node(actions[p]) == n
}

/// The player's extraction reports its progress at this tick.
pub open spec fn reports_at(actions: Map<u128, ActionState>, p: u128) -> bool {
    actions.contains_key(p) && reports_extraction_progress(actions[p])
}

/// The progress report of player `p`: (player, progress after the tick, duration).
pub open spec fn progress_report(actions: Map<u128, ActionState>, p: u128) -> (u128, u32, u32) {
    match actions[p] {
        ActionState::Extracting { progress, duration, .. } => (
            p,
            (progress + 1) as u32,
            duration as u32,
        ),
        _ => (p, 0, 0),
    }
}

/// The resource type of node `n` (meaningful when it is known).
pub open spec fn node_type(
    nodes: Map<u128, ResourceNodeState>,
    types: Seq<ResourceType>,
    n: u128,
) -> ResourceType {
    find_resource_type(types, nodes[n].resource_type@).unwrap()
}

/// Node `node` after player `p` harvested it at `tick`.
pub open spec fn depleted_by(
    node: ResourceNodeState,
    p: u128,
    tick: u64,
    rt: ResourceType,
) -> ResourceNodeState {
    ResourceNodeState {
        state: NodeState::Depleted,
        harvested_by: Some(p),
        regenerates_at_tick: Some((tick + rt.regeneration_ticks) as u64),
        ..node
    }
}

/// One of the players in `done` finishes an extraction from node `n`, and the node yields.
pub open spec fn harvested_among(
    actions: Map<u128, ActionState>,
    done: Set<u128>,
    nodes: Map<u128, ResourceNodeState>,
    types: Seq<ResourceType>,
    n: u128,
) -> bool {
    (exists|q: u128| done.contains(q) && #[trigger] finisher(actions, q, n)) && yields(
        nodes,
        types,
        n,
    )
}

/// `node` is node `n` once the extractions of the players in `done` have had their tick: a
/// harvested node is depleted by one of the players who finished on it, any other is unchanged.
pub open spec fn node_after(
    actions: Map<u128, ActionState>,
    done: Set<u128>,
    nodes: Map<u128, ResourceNodeState>,
    types: Seq<ResourceType>,
    tick: u64,
    n: u128,
    node: ResourceNodeState,
) -> bool {
    if harvested_among(actions, done, nodes, types, n) {
        &&& node.harvested_by matches Some(q) && done.contains(q) && finisher(actions, q, n)
        &&& node == depleted_by(nodes[n], node.harvested_by.unwrap(), tick, node_type(nodes, types, n))
    } else {
        node == nodes[n]
    }
}

/// `c` is a possible yield of a finished extraction from a node that yields.
pub open spec fn valid_completion(
    c: CompletedExtraction,
    actions: Map<u128, ActionState>,
    nodes: Map<u128, ResourceNodeState>,
    types: Seq<ResourceType>,
) -> bool {
    let rt = node_type(nodes, types, c.node_id);
    &&& finisher(actions, c.player_id, c.node_id)
    &&& yields(nodes, types, c.node_id)
    &&& c.item_type == rt.yields_item
    &&& c.item_name@ == extracted_item_name(rt.yields_item@)
    &&& rt.yield_quantity_min <= c.quantity <= rt.yield_quantity_max
    &&& extracted_quality(nodes[c.node_id].base_quality as int, c.quality as int)
}

/// A node harvested at `tick` is due to come back once its resource type's regeneration time
/// has passed.
pub proof fn lemma_harvested_node_regenerates(
    node: ResourceNodeState,
    p: u128,
    tick: u64,
    rt: ResourceType,
    later: u64,
)
    requires
        yield_in_range(node, rt, tick),
        later >= tick + rt.regeneration_ticks,
    ensures
        due_to_regenerate(depleted_by(node, p, tick, rt), later),
{
}

/// The item to store for a yield: it goes to the player's inventory.
pub open spec fn pending_of(c: CompletedExtraction) -> PendingItem {
    PendingItem {
        player_id: c.player_id,
        item_type: c.item_type,
        quantity: c.quantity,
        quality: c.quality,
        target_container_type: None,
    }
}

/// The tick's arithmetic stays in range: progress can grow by one, and every yield is computable.
pub open spec fn extraction_tick_in_range(
    actions: Map<u128, ActionState>,
    nodes: Map<u128, ResourceNodeState>,
    types: Seq<ResourceType>,
    tick: u64,
) -> bool {
    &&& forall|p: u128| #[trigger]
        actions.contains_key(p) ==> match actions[p] {
            ActionState::Extracting { progress, .. } => progress < i32::MAX,
            _ => true,
        }
    &&& forall|p: u128|
        #[trigger] finisher(actions, p, extraction_node(actions[p])) && yields(
            nodes,
            types,
            extraction_node(actions[p]),
        ) ==> yield_in_range(
            nodes[extraction_node(actions[p])],
            node_type(nodes, types, extraction_node(actions[p])),
            tick,
        )
}

/// The state of a tick of extraction once the players in `done` have been processed.
pub open spec fn tick_state(
    m0: Map<u128, ActionState>,
    n0: Map<u128, ResourceNodeState>,
    types: Seq<ResourceType>,
    tick: u64,
    done: Set<u128>,
    actions: Map<u128, ActionState>,
    nodes: Map<u128, ResourceNodeState>,
    report: ExtractionReport,
) -> bool {
    &&& actions.dom() == m0.dom()
    &&& forall|p: u128| #[trigger]
        m0.contains_key(p) ==> actions[p] == if done.contains(p) {
            extraction_step(m0[p])
        } else {
            m0[p]
        }
    &&& nodes.dom() == n0.dom()
    &&& forall|n: u128| #[trigger]
        n0.contains_key(n) ==> node_after(m0, done, n0, types, tick, n, nodes[n])
    &&& report.progress_updates@.no_duplicates()
    &&& forall|e: (u128, u32, u32)| #[trigger]
        report.progress_updates@.contains(e) <==> (done.contains(e.0) && reports_at(m0, e.0) && e
            == progress_report(m0, e.0))
    &&& report.finished@.no_duplicates()
    &&& forall|e: (u128, u128)| #[trigger]
        report.finished@.contains(e) <==> (done.contains(e.0) && finisher(m0, e.0, e.1))
    &&& forall|j: int|
        0 <= j < report.completed@.len() ==> valid_completion(report.completed@[j], m0, n0, types)
            && done.contains(report.completed@[j].player_id)
    &&& forall|p: u128|
        done.contains(p) && #[trigger] finisher(m0, p, extraction_node(m0[p])) && yields(
            n0,
            types,
            extraction_node(m0[p]),
        ) ==> exists|j: int|
            0 <= j < report.completed@.len() && #[trigger] report.completed@[j].player_id == p
    &&& forall|i: int, j: int|
        0 <= i < report.completed@.len() && 0 <= j < report.completed@.len() && i != j
            ==> report.completed@[i].player_id != report.completed@[j].player_id
    &&& report.pending_items@.len() == report.completed@.len()
    &&& forall|j: int|
        0 <= j < report.completed@.len() ==> report.pending_items@[j] == pending_of(
            report.completed@[j],
        )
}

/// Adding a player to those processed adds the nodes it harvests, and only those.
proof fn lemma_harvest_insert(
    m0: Map<u128, ActionState>,
    done: Set<u128>,
    n0: Map<u128, ResourceNodeState>,
    types: Seq<ResourceType>,
    p: u128,
    n: u128,
)
    ensures
        harvested_among(m0, done.insert(p), n0, types, n) == (harvested_among(
            m0,
            done,
            n0,
            types,
            n,
        ) || (finisher(m0, p, n) && yields(n0, types, n))),
{
    if harvested_among(m0, done.insert(p), n0, types, n) {
        let q = choose|q: u128| done.insert(p).contains(q) && #[trigger] finisher(m0, q, n);
        if q != p {
            assert(done.contains(q) && finisher(m0, q, n));
        }
    }
    if harvested_among(m0, done, n0, types, n) {
        let q = choose|q: u128| done.contains(q) && #[trigger] finisher(m0, q, n);
        assert(done.insert(p).contains(q) && finisher(m0, q, n));
    }
    if finisher(m0, p, n) && yields(n0, types, n) {
        assert(done.insert(p).contains(p) && finisher(m0, p, n));
    }
}

/// One player's tick of extraction: progress grows by one, every fifth unit is reported, and a
/// finished extraction leaves the player idle and, where the node yields, depletes the node and
/// records the yield.
fn tick_player(
    p: u128,
    actions: &mut HashMap<u128, ActionState>,
    nodes: &mut HashMap<u128, ResourceNodeState>,
    types: &Vec<ResourceType>,
    tick_count: u64,
    report: &mut ExtractionReport,
    Ghost(m0): Ghost<Map<u128, ActionState>>,
    Ghost(n0): Ghost<Map<u128, ResourceNodeState>>,
    Ghost(done): Ghost<Set<u128>>,
)
    requires
        m0.contains_key(p),
        !done.contains(p),
        extraction_tick_in_range(m0, n0, types@, tick_count),
        tick_state(m0, n0, types@, tick_count, done, old(actions)@, old(nodes)@, *old(report)),
    ensures
        tick_state(
            m0,
            n0,
            types@,
            tick_count,
            done.insert(p),
            final(actions)@,
            final(nodes)@,
            *final(report),
        ),
{
    assert(old(actions)@[p] == m0[p]);
    let info: Option<(u128, i32, i32)> = match actions.get(&p) {
        Some(ActionState::Extracting { node_id, progress, duration }) => Some(
            (*node_id, *progress, *duration),
        ),
        _ => None,
    };
    let ghost d2 = done.insert(p);
    let ghost c0 = report.completed@;
    let ghost pr0 = report.progress_updates@;
    let ghost f0 = report.finished@;
    match info {
        None => {
            assert(!(m0[p] is Extracting));
            assert forall|n: u128| #[trigger] n0.contains_key(n) implies node_after(
                m0,
                d2,
                n0,
                types@,
                tick_count,
                n,
                nodes@[n],
            ) by {
                lemma_harvest_insert(m0, done, n0, types@, p, n);
            }
            assert forall|q: u128|
                d2.contains(q) && #[trigger] finisher(m0, q, extraction_node(m0[q])) && yields(
                    n0,
                    types@,
                    extraction_node(m0[q]),
                ) implies exists|j: int|
                0 <= j < report.completed@.len() && #[trigger] report.completed@[j].player_id
                    == q by {
                assert(q != p);
            }
        },
        Some((node_id, progress, duration)) => {
            assert(m0[p] == ActionState::Extracting { node_id, progress, duration });
            let next = progress + 1;
            let at_fifth = is_multiple_of_five(next);
            if at_fifth {
                let entry = (p, next as u32, duration as u32);
                proof {
                    lemma_push_contains(report.progress_updates@, entry);
                    assert(!pr0.contains(entry));
                }
                report.progress_updates.push(entry);
            }
            proof {
                assert(reports_at(m0, p) == at_fifth);
                assert(progress_report(m0, p) == (p, next as u32, duration as u32));
                assert forall|e: (u128, u32, u32)|
                    report.progress_updates@.contains(e) <==> (d2.contains(e.0) && reports_at(
                        m0,
                        e.0,
                    ) && e == progress_report(m0, e.0)) by {
                    assert(pr0 == old(report).progress_updates@);
                    assert(pr0.contains(e) <==> (done.contains(e.0) && reports_at(m0, e.0) && e
                        == progress_report(m0, e.0)));
                    if at_fifth {
                        lemma_push_contains(pr0, (p, next as u32, duration as u32));
                        assert(report.progress_updates@ == pr0.push((p, next as u32, duration as u32)));
                    } else {
                        assert(report.progress_updates@ == pr0);
                    }
                }
            }
            if next >= duration {
                actions.insert(p, ActionState::Idle);
                let fin = (p, node_id);
                proof {
                    lemma_push_contains(report.finished@, fin);
                    assert(!f0.contains(fin));
                }
                report.finished.push(fin);
                assert forall|e: (u128, u128)|
                    report.finished@.contains(e) <==> (d2.contains(e.0) && finisher(m0, e.0, e.1)) by {
                    lemma_push_contains(f0, fin);
                    assert(report.finished@ == f0.push(fin));
                    assert(report.finished@.contains(e) <==> (f0.contains(e) || e == fin));
                    assert(f0 == old(report).finished@);
                    assert(f0.contains(e) <==> (done.contains(e.0) && finisher(m0, e.0, e.1)));
                    assert(e == fin ==> finisher(m0, e.0, e.1));
                }
                let mut harvested = false;
                if let Some(node) = nodes.get(&node_id) {
                    if let Some(i) = lookup_resource_type(types, &node.resource_type) {
                        let mut node_now = node.duplicate();
                        proof {
                            assert(finisher(m0, p, node_id));
                            assert(yields(n0, types@, node_id));
                        }
                        let mut done_yield = finish_extraction(p, &mut node_now, &types[i], tick_count);
                        // The yield is reported under the id the extraction was started on.
                        done_yield.node_id = node_id;
                        nodes.insert(node_id, node_now);
                        report.pending_items.push(
                            PendingItem {
                                player_id: p,
                                item_type: done_yield.item_type.clone(),
                                quantity: done_yield.quantity,
                                quality: done_yield.quality,
                                target_container_type: None,
                            },
                        );
                        report.completed.push(done_yield);
                        harvested = true;
                    }
                }
                assert forall|n: u128| #[trigger] n0.contains_key(n) implies node_after(
                    m0,
                    d2,
                    n0,
                    types@,
                    tick_count,
                    n,
                    nodes@[n],
                ) by {
                    lemma_harvest_insert(m0, done, n0, types@, p, n);
                }
                assert forall|q: u128|
                    d2.contains(q) && #[trigger] finisher(m0, q, extraction_node(m0[q])) && yields(
                        n0,
                        types@,
                        extraction_node(m0[q]),
                    ) implies exists|j: int|
                    0 <= j < report.completed@.len() && #[trigger] report.completed@[j].player_id
                        == q by {
                    if q == p {
                        assert(report.completed@[c0.len() as int].player_id == q);
                    } else {
                        let j = choose|j: int| 0 <= j < c0.len() && #[trigger] c0[j].player_id == q;
                        assert(report.completed@[j].player_id == q);
                    }
                }
            } else {
                actions.insert(p, ActionState::Extracting { node_id, progress: next, duration });
                assert forall|n: u128| #[trigger] n0.contains_key(n) implies node_after(
                    m0,
                    d2,
                    n0,
                    types@,
                    tick_count,
                    n,
                    nodes@[n],
                ) by {
                    lemma_harvest_insert(m0, done, n0, types@, p, n);
                }
                assert forall|q: u128|
                    d2.contains(q) && #[trigger] finisher(m0, q, extraction_node(m0[q])) && yields(
                        n0,
                        types@,
                        extraction_node(m0[q]),
                    ) implies exists|j: int|
                    0 <= j < report.completed@.len() && #[trigger] report.completed@[j].player_id
                        == q by {
                    assert(q != p);
                    assert(report.completed@ == c0);
                    let j = choose|j: int| 0 <= j < c0.len() && #[trigger] c0[j].player_id == q;
                    assert(report.completed@[j].player_id == q);
                }
            }
        },
    }
    assert(actions@.dom() =~= m0.dom());
    assert(nodes@.dom() =~= n0.dom());
}

/// One tick of extraction for every player: each extraction progresses by one unit, reports its
/// progress every fifth unit, and when it reaches its duration the player becomes idle; a
/// finished extraction whose node exists and has a known resource type yields a random quantity
/// and quality (see `finish_extraction`), depletes the node, and adds an item to store in the
/// player's inventory.
pub fn process_extractions(
    actions: &mut HashMap<u128, ActionState>,
    nodes: &mut HashMap<u128, ResourceNodeState>,
    types: &Vec<ResourceType>,
    tick_count: u64,
) -> (r: ExtractionReport)
    requires
        extraction_tick_in_range(old(actions)@, old(nodes)@, types@, tick_count),
    ensures
        tick_state(
            old(actions)@,
            old(nodes)@,
            types@,
            tick_count,
            old(actions)@.dom(),
            final(actions)@,
            final(nodes)@,
            r,
        ),
{
    let keys = keys_u128(actions);
    let ghost m0 = actions@;
    let ghost n0 = nodes@;
    let ghost mut done: Set<u128> = Set::empty();
    let mut report = ExtractionReport {
        progress_updates: Vec::new(),
        finished: Vec::new(),
        completed: Vec::new(),
        pending_items: Vec::new(),
    };
    let mut i: usize = 0;
    while i < keys.len()
        invariant
            keys@.to_set() == m0.dom(),
            keys@.no_duplicates(),
            i <= keys@.len(),
            forall|x: u128| done.contains(x) <==> keys@.subrange(0, i as int).contains(x),
            extraction_tick_in_range(m0, n0, types@, tick_count),
            tick_state(m0, n0, types@, tick_count, done, actions@, nodes@, report),
        decreases keys.len() - i,
    {
        let p = keys[i];
        proof {
            lemma_prefix_grows(keys@, i as int);
            assert(keys@.to_set().contains(p));
        }
        tick_player(
            p,
            actions,
            nodes,
            types,
            tick_count,
            &mut report,
            Ghost(m0),
            Ghost(n0),
            Ghost(done),
        );
        proof {
            done = done.insert(p);
        }
        i = i + 1;
    }
    proof {
        assert(keys@.subrange(0, i as int) =~= keys@);
        assert(done =~= m0.dom());
    }
    report
}

} // verus!
