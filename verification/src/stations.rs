use vstd::prelude::*;
use vstd::string::StringExecFns;

use crate::text::{decimal, decimal_text, join2, join3, join5, str_eq};

verus! {

/// The kit item that builds a station of the given type, if it can be built from a kit.
pub open spec fn kit_for_station(station_type: Seq<char>) -> Option<Seq<char>> {
    if station_type == "workbench"@ {
        Some("workbench_kit"@)
    } else if station_type == "forge"@ {
        Some("forge_kit"@)
    } else if station_type == "storage_chest"@ {
        Some("chest_kit"@)
    } else {
        None
    }
}

/// The station type that a kit item builds, if it is a kit.
pub open spec fn station_for_kit(item_type: Seq<char>) -> Option<Seq<char>> {
    if item_type == "workbench_kit"@ {
        Some("workbench"@)
    } else if item_type == "forge_kit"@ {
        Some("forge"@)
    } else if item_type == "chest_kit"@ {
        Some("storage_chest"@)
    } else {
        None
    }
}

/// The view of an optional static string.
pub open spec fn opt_view(o: Option<&'static str>) -> Option<Seq<char>> {
    match o {
        Some(s) => Some(s@),
        None => None,
    }
}

/// The kit item type that builds a station type.
pub fn get_station_kit_type(station_type: &str) -> (r: Option<&'static str>)
    ensures
        opt_view(r) == kit_for_station(station_type@),
{
    if str_eq(station_type, "workbench") {
        Some("workbench_kit")
    } else if str_eq(station_type, "forge") {
        Some("forge_kit")
    } else if str_eq(station_type, "storage_chest") {
        Some("chest_kit")
    } else {
        None
    }
}

/// The station type that a kit item builds.
pub fn get_station_type_from_kit(item_type: &str) -> (r: Option<&'static str>)
    ensures
        opt_view(r) == station_for_kit(item_type@),
{
    if str_eq(item_type, "workbench_kit") {
        Some("workbench")
    } else if str_eq(item_type, "forge_kit") {
        Some("forge")
    } else if str_eq(item_type, "chest_kit") {
        Some("storage_chest")
    } else {
        None
    }
}

/// The station types and kit types are distinct texts.
proof fn lemma_station_literals()
    ensures
        "workbench"@ != "forge"@,
        "workbench"@ != "storage_chest"@,
        "forge"@ != "storage_chest"@,
        "workbench_kit"@ != "forge_kit"@,
        "workbench_kit"@ != "chest_kit"@,
        "forge_kit"@ != "chest_kit"@,
{
    reveal_strlit("workbench");
    reveal_strlit("forge");
    reveal_strlit("storage_chest");
    reveal_strlit("workbench_kit");
    reveal_strlit("forge_kit");
    reveal_strlit("chest_kit");
    assert("workbench"@.len() == 9 && "forge"@.len() == 5 && "storage_chest"@.len() == 13);
    assert("workbench_kit"@.len() == 13 && "forge_kit"@.len() == 9 && "chest_kit"@.len() == 9);
    assert("forge_kit"@[0] != "chest_kit"@[0]);
}

/// A kit builds the station type that asks for that kit: the two mappings are inverse.
pub proof fn lemma_kit_round_trip(station_type: Seq<char>, item_type: Seq<char>)
    ensures
        kit_for_station(station_type) matches Some(k) ==> station_for_kit(k) == Some(
            station_type,
        ),
        station_for_kit(item_type) matches Some(t) ==> kit_for_station(t) == Some(item_type),
{
    lemma_station_literals();
}

/// Whether a player may use a station: only its owner may.
pub fn can_player_access_station(player_id: u128, station_owner_id: u128) -> (r: bool)
    ensures
        r == (player_id == station_owner_id),
{
    station_owner_id == player_id
}

/// The message for a plot that holds `count` of its `capacity` stations.
pub open spec fn plot_full_error(count: int, capacity: int) -> Seq<char> {
    "Plot is at capacity ("@ + decimal(count) + "/"@ + decimal(capacity) + ")"@
}

/// Message for a plot that holds as many stations as it can.
fn plot_full_message(count: i32, capacity: i32) -> (r: String)
    ensures
        r@ == plot_full_error(count as int, capacity as int),
{
    join5(
        "Plot is at capacity (",
        decimal_text(count as i64).as_str(),
        "/",
        decimal_text(capacity as i64).as_str(),
        ")",
    )
}

/// The message for a kit of type `got` where one of type `expected` is needed.
pub open spec fn wrong_kit_error(expected: Seq<char>, got: Seq<char>) -> Seq<char> {
    "Wrong item type: expected "@ + expected + ", got "@ + got
}

/// Message for a kit of the wrong type.
fn wrong_kit_message(expected: &str, got: &str) -> (r: String)
    ensures
        r@ == wrong_kit_error(expected@, got@),
{
    let mut out = join3("Wrong item type: expected ", expected, ", got ");
    out.append(got);
    out
}

/// Why a station cannot be placed on a plot.
#[derive(Debug, Clone, PartialEq, Eq)]
pub enum PlacementError {
    /// The placing player does not own the plot (a permission failure).
    NotOwner(String),
    /// The request cannot be honoured (a bad request).
    Rejected(String),
    /// The kit item is not the player's, or does not exist.
    Missing(String),
}

/// Checks a plot for a new station: the player must own it and it must have room.
pub fn check_plot_for_station(
    plot_owner: Option<u128>,
    player_id: u128,
    station_count: i32,
    station_capacity: i32,
) -> (r: Result<(), PlacementError>)
    ensures
        r is Ok <==> (plot_owner == Some(player_id) && station_count < station_capacity),
        plot_owner != Some(player_id) ==> (r matches Err(PlacementError::NotOwner(e)) && e@
            == "You don't own this plot"@),
        plot_owner == Some(player_id) && station_count >= station_capacity ==> (r matches Err(
            PlacementError::Rejected(e),
        ) && e@ == plot_full_error(station_count as int, station_capacity as int)),
{
    if plot_owner != Some(player_id) {
        return Err(PlacementError::NotOwner("You don't own this plot".to_owned()));
    }
    if station_count >= station_capacity {
        return Err(PlacementError::Rejected(plot_full_message(station_count, station_capacity)));
    }
    Ok(())
}

/// The kit a placement of `station_type` consumes.
pub fn expected_kit(station_type: &str) -> (r: Result<&'static str, String>)
    ensures
        match r {
            Ok(k) => kit_for_station(station_type@) == Some(k@),
            Err(e) => kit_for_station(station_type@) is None && e@ == "Invalid station type"@,
        },
{
    match get_station_kit_type(station_type) {
        Some(k) => Ok(k),
        None => Err("Invalid station type".to_owned()),
    }
}

/// Checks that the offered kit item is of the expected type.
pub fn check_kit(expected: &str, kit_item_type: &str) -> (r: Result<(), String>)
    ensures
        r is Ok <==> expected@ == kit_item_type@,
        r matches Err(e) ==> e@ == wrong_kit_error(expected@, kit_item_type@),
{
    if !str_eq(kit_item_type, expected) {
        return Err(wrong_kit_message(expected, kit_item_type));
    }
    Ok(())
}

/// What using up one kit does to its stack: `None` when the stack is gone (at most one item
/// left), otherwise the remaining quantity.
pub fn kit_after_use(quantity: i32) -> (r: Option<i32>)
    ensures
        quantity <= 1 <==> r is None,
        r matches Some(q) ==> q == quantity - 1,
{
    if quantity <= 1 {
        None
    } else {
        Some(quantity - 1)
    }
}

/// Checks that the player removing or opening a station owns it.
pub fn check_station_owner(station_owner_id: u128, player_id: u128) -> (r: Result<(), String>)
    ensures
        r is Ok <==> station_owner_id == player_id,
        r matches Err(e) ==> e@ == "Not your station"@,
{
    if station_owner_id != player_id {
        return Err("Not your station".to_owned());
    }
    Ok(())
}

/// Decides a station placement from what was read for it, checking in order: the station type
/// is known, the spot is within the player's reach, the spot lies on a plot, the player owns the
/// plot and it has room, the type is built from a kit, the kit item is the player's, it is the
/// right kit, and no other station is too close. On success the result is what is left of the
/// kit stack (`None`: the stack is used up). `plot` is the plot's owner, station count and
/// capacity; `kit` is the kit item's type and quantity.
pub fn decide_placement(
    station_type: &str,
    station_known: bool,
    within_reach: bool,
    plot: Option<(Option<u128>, i32, i32)>,
    player_id: u128,
    kit: &Option<(String, i32)>,
    too_close: bool,
) -> (r: Result<Option<i32>, PlacementError>)
    ensures
        !station_known ==> (r matches Err(PlacementError::Rejected(e)) && e@ == "Unknown station type: "@
            + station_type@),
        station_known && !within_reach ==> (r matches Err(PlacementError::Rejected(e)) && e@
            == "Too far to place station"@),
        station_known && within_reach && plot is None ==> (r matches Err(
            PlacementError::Rejected(e),
        ) && e@ == "Must place station on a plot"@),
        (station_known && within_reach && plot is Some) ==> {
            let (owner, count, capacity) = plot->0;
            &&& owner != Some(player_id) ==> (r matches Err(PlacementError::NotOwner(e)) && e@
                == "You don't own this plot"@)
            &&& owner == Some(player_id) && count >= capacity ==> (r matches Err(
                PlacementError::Rejected(e),
            ) && e@ == plot_full_error(count as int, capacity as int))
            &&& owner == Some(player_id) && count < capacity ==> match kit_for_station(
                station_type@,
            ) {
                None => r matches Err(PlacementError::Rejected(e)) && e@
                    == "Invalid station type"@,
                Some(k) => match *kit {
                    None => r matches Err(PlacementError::Missing(e)) && e@
                        == "Kit item not found"@,
                    Some((t, q)) => {
                        &&& t@ != k ==> (r matches Err(PlacementError::Rejected(e)) && e@
                            == wrong_kit_error(k, t@))
                        &&& t@ == k && too_close ==> (r matches Err(PlacementError::Rejected(e))
                            && e@ == "Too close to another station"@)
                        &&& t@ == k && !too_close ==> r == Ok::<Option<i32>, PlacementError>(
                            if q <= 1 {
                                None
                            } else {
                                Some((q - 1) as i32)
                            },
                        )
                    },
                },
            }
        },
{
    if !station_known {
        return Err(PlacementError::Rejected(join2("Unknown station type: ", station_type)));
    }
    if !within_reach {
        return Err(PlacementError::Rejected("Too far to place station".to_owned()));
    }
    let (owner, count, capacity) = match plot {
        Some(p) => p,
        None => {
            return Err(PlacementError::Rejected("Must place station on a plot".to_owned()));
        },
    };
    check_plot_for_station(owner, player_id, count, capacity)?;
    let expected = match expected_kit(station_type) {
        Ok(k) => k,
        Err(e) => {
            return Err(PlacementError::Rejected(e));
        },
    };
    let quantity = match kit {
        Some((t, q)) => {
            if let Err(e) = check_kit(expected, t.as_str()) {
                return Err(PlacementError::Rejected(e));
            }
            *q
        },
        None => {
            return Err(PlacementError::Missing("Kit item not found".to_owned()));
        },
    };
    if too_close {
        return Err(PlacementError::Rejected("Too close to another station".to_owned()));
    }
    Ok(kit_after_use(quantity))
}

} // verus!
