use std::collections::HashMap;
use vstd::prelude::*;

use crate::keys::keys_u128;
use crate::text::str_eq;

verus! {

broadcast use vstd::std_specs::hash::group_hash_axioms;

/// State of a resource node.
#[derive(Debug, Clone, Copy, PartialEq, Eq, Structural)]
pub enum NodeState {
    Available,
    BeingHarvested,
    Depleted,
}

/// The stored name of a node state.
pub open spec fn node_state_name(s: NodeState) -> Seq<char> {
    match s {
        NodeState::Available => "available"@,
        NodeState::BeingHarvested => "harvesting"@,
        NodeState::Depleted => "depleted"@,
    }
}

/// The node state stored under a name; unknown names count as available.
pub open spec fn node_state_from_name(s: Seq<char>) -> NodeState {
    if s == "available"@ {
        NodeState::Available
    } else if s == "harvesting"@ {
        NodeState::BeingHarvested
    } else if s == "depleted"@ {
        NodeState::Depleted
    } else {
        NodeState::Available
    }
}

impl NodeState {
    /// Reads a stored node state; unknown names count as available.
    pub fn parse(s: &str) -> (r: NodeState)
        ensures
            r == node_state_from_name(s@),
    {
        if str_eq(s, "available") {
            NodeState::Available
        } else if str_eq(s, "harvesting") {
            NodeState::BeingHarvested
        } else if str_eq(s, "depleted") {
            NodeState::Depleted
        } else {
            NodeState::Available
        }
    }

    /// The stored name of this state.
    pub fn as_string(&self) -> (r: String)
        ensures
            r@ == node_state_name(*self),
    {
        match self {
            NodeState::Available => "available".to_owned(),
            NodeState::BeingHarvested => "harvesting".to_owned(),
            NodeState::Depleted => "depleted".to_owned(),
        }
    }
}

/// Storing a node state and reading it back gives the same state.
pub proof fn lemma_node_state_round_trip(s: NodeState)
    ensures
        node_state_from_name(node_state_name(s)) == s,
{
    reveal_strlit("available");
    reveal_strlit("harvesting");
    reveal_strlit("depleted");
    assert("available"@.len() == 9 && "harvesting"@.len() == 10 && "depleted"@.len() == 8);
}

/// A kind of resource: what it yields, how long extraction takes and when it grows back.
#[derive(Debug, Clone)]
pub struct ResourceType {
    pub id: String,
    pub name: String,
    pub yields_item: String,
    pub yield_quantity_min: i32,
    pub yield_quantity_max: i32,
    pub base_quality_min: i32,
    pub base_quality_max: i32,
    pub required_tool: Option<String>,
    pub extraction_duration_ticks: i32,
    pub regeneration_ticks: i32,
}

/// A resource node as the game engine tracks it.
#[derive(Debug, Clone)]
pub struct ResourceNodeState {
    pub id: u128,
    pub resource_type: String,
    pub base_quality: i32,
    pub state: NodeState,
    pub harvested_by: Option<u128>,
    pub regenerates_at_tick: Option<u64>,
}

impl ResourceNodeState {
    /// A field-by-field copy of the node.
    pub fn duplicate(&self) -> (r: ResourceNodeState)
        ensures
            r == *self,
    {
        ResourceNodeState {
            id: self.id,
            resource_type: self.resource_type.clone(),
            base_quality: self.base_quality,
            state: self.state,
            harvested_by: self.harvested_by,
            regenerates_at_tick: self.regenerates_at_tick,
        }
    }
}

/// A depleted node whose regeneration tick has come.
pub open spec fn due_to_regenerate(n: ResourceNodeState, tick: u64) -> bool {
    n.state == NodeState::Depleted && (n.regenerates_at_tick matches Some(t) && tick >= t)
}

/// A node back in the available state, unclaimed and with no pending regeneration.
pub open spec fn regenerated(n: ResourceNodeState) -> ResourceNodeState {
    ResourceNodeState {
        state: NodeState::Available,
        harvested_by: None,
        regenerates_at_tick: None,
        ..n
    }
}

/// Regeneration at `tick` takes nodes `n0` to `n1`, listing the regenerated nodes `r`: every
/// due node is regenerated, every other node is unchanged, and `r` holds the due nodes, each once.
pub open spec fn regeneration_tick(
    n0: Map<u128, ResourceNodeState>,
    tick: u64,
    n1: Map<u128, ResourceNodeState>,
    r: Seq<u128>,
) -> bool {
    &&& n1.dom() == n0.dom()
    &&& forall|k: u128| #[trigger]
        n0.contains_key(k) ==> n1[k] == (if due_to_regenerate(n0[k], tick) {
            regenerated(n0[k])
        } else {
            n0[k]
        })
    &&& r.no_duplicates()
    &&& forall|k: u128| r.contains(k) <==> (n0.contains_key(k) && due_to_regenerate(n0[k], tick))
}

/// Brings back every depleted node whose regeneration tick has come; the result lists the
/// regenerated nodes, each once.
pub fn process_regeneration(nodes: &mut HashMap<u128, ResourceNodeState>, tick_count: u64) -> (r:
    Vec<u128>)
    ensures
        regeneration_tick(old(nodes)@, tick_count, final(nodes)@, r@),
{
    let keys = keys_u128(nodes);
    let ghost old_n = nodes@;
    let mut done: Vec<u128> = Vec::new();
    let mut n: usize = 0;
    while n < keys.len()
        invariant
            keys@.to_set() == old_n.dom(),
            keys@.no_duplicates(),
            n <= keys@.len(),
            nodes@.dom() == old_n.dom(),
            forall|k: u128| #[trigger]
                old_n.contains_key(k) ==> nodes@[k] == (if keys@.subrange(0, n as int).contains(k)
                    && due_to_regenerate(old_n[k], tick_count) {
                    regenerated(old_n[k])
                } else {
                    old_n[k]
                }),
            done@.no_duplicates(),
            forall|k: u128|
                done@.contains(k) <==> (keys@.subrange(0, n as int).contains(k)
                    && due_to_regenerate(old_n[k], tick_count)),
        decreases keys.len() - n,
    {
        let k = keys[n];
        assert(keys@.to_set().contains(k));
        assert(!keys@.subrange(0, n as int).contains(k)) by {
            if keys@.subrange(0, n as int).contains(k) {
                let j = choose|j: int| 0 <= j < n && #[trigger] keys@.subrange(0, n as int)[j] == k;
                assert(keys@[j] == keys@[n as int]);
            }
        }
        assert forall|x: u128| keys@.subrange(0, n + 1).contains(x) <==> (keys@.subrange(
            0,
            n as int,
        ).contains(x) || x == k) by {
            if keys@.subrange(0, n + 1).contains(x) {
                let j = choose|j: int| 0 <= j < n + 1 && #[trigger] keys@.subrange(0, n + 1)[j] == x;
                if j < n {
                    assert(keys@.subrange(0, n as int)[j] == x);
                }
            }
            if keys@.subrange(0, n as int).contains(x) {
                let j = choose|j: int| 0 <= j < n && #[trigger] keys@.subrange(0, n as int)[j] == x;
                assert(keys@.subrange(0, n + 1)[j] == x);
            }
            if x == k {
                assert(keys@.subrange(0, n + 1)[n as int] == x);
            }
        }
        let node = nodes.get(&k).unwrap().duplicate();
        assert(node == old_n[k]);
        let ghost before = done@;
        let due = match node.state {
            NodeState::Depleted => match node.regenerates_at_tick {
                Some(t) => tick_count >= t,
                None => false,
            },
            _ => false,
        };
        assert(due == due_to_regenerate(old_n[k], tick_count));
        if due {
            let mut fresh = node;
            fresh.state = NodeState::Available;
            fresh.harvested_by = None;
            fresh.regenerates_at_tick = None;
            nodes.insert(k, fresh);
            assert(!before.contains(k));
            done.push(k);
            assert forall|i: int, j: int|
                0 <= i < done@.len() && 0 <= j < done@.len() && i != j implies done@[i]
                != done@[j] by {
                if i == before.len() {
                    assert(before.contains(done@[j]));
                } else if j == before.len() {
                    assert(before.contains(done@[i]));
                }
            }
            assert(done@[done@.len() - 1] == k);
            assert forall|x: u128| done@.contains(x) <==> (before.contains(x) || x == k) by {
                if done@.contains(x) {
                    let i = choose|i: int| 0 <= i < done@.len() && #[trigger] done@[i] == x;
                    if i < before.len() {
                        assert(before[i] == x);
                    }
                }
                if before.contains(x) {
                    let i = choose|i: int| 0 <= i < before.len() && #[trigger] before[i] == x;
                    assert(done@[i] == x);
                }
            }
        }
        assert forall|x: u128|
            done@.contains(x) <==> (keys@.subrange(0, n + 1).contains(x) && due_to_regenerate(
                old_n[x],
                tick_count,
            )) by {
            if due {
                assert(done@.contains(x) <==> (before.contains(x) || x == k));
            } else {
                assert(done@ == before);
            }
            assert(keys@.subrange(0, n + 1).contains(x) <==> (keys@.subrange(
                0,
                n as int,
            ).contains(x) || x == k));
        }
        n = n + 1;
    }
    assert(keys@.subrange(0, n as int) =~= keys@);
    assert forall|k: u128| old_n.contains_key(k) implies keys@.contains(k) by {
        assert(keys@.to_set().contains(k));
    }
    done
}

/// Regeneration brings every due node back to the available state, unclaimed, leaves every other
/// node as it was, lists exactly the nodes it brought back, and leaves no node due.
pub proof fn lemma_regeneration_only_touches_due_nodes(
    before: Map<u128, ResourceNodeState>,
    tick: u64,
    after: Map<u128, ResourceNodeState>,
    regenerated_ids: Seq<u128>,
    k: u128,
)
    requires
        regeneration_tick(before, tick, after, regenerated_ids),
        before.contains_key(k),
    ensures
        after.contains_key(k),
        due_to_regenerate(before[k], tick) ==> after[k].state == NodeState::Available
            && after[k].harvested_by is None && after[k].regenerates_at_tick is None,
        !due_to_regenerate(before[k], tick) ==> after[k] == before[k],
        regenerated_ids.contains(k) <==> due_to_regenerate(before[k], tick),
        !due_to_regenerate(after[k], tick),
{
}

} // verus!
