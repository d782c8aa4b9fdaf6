use vstd::prelude::*;

verus! {

/// What decides who receives a game event: the kind of event with the players it concerns.
#[derive(Debug, Clone, Copy, PartialEq, Eq)]
pub enum EventRoute {
    /// A trade request, for its target.
    TradeRequested { to_player: u128 },
    /// A declined trade request, for the player who made it.
    TradeRequestDeclined { initiator: u128 },
    /// A trade that has started, for its two traders.
    TradeStarted { player_a: u128, player_b: u128 },
    /// A changed offer in a trade, for the traders of the trade while it is open (`None` once
    /// it is not).
    TradeOfferUpdated { traders: Option<(u128, u128)> },
    /// An acceptance in a trade, for the traders of the trade while it is open.
    TradeAccepted { traders: Option<(u128, u128)> },
    /// A player's new strand balance, for that player.
    CurrencyChanged { player_id: u128 },
    /// A player's move into another zone, for that player.
    ZoneChanged { player_id: u128 },
    /// A player's movement stopped at water, for that player.
    MovementBlocked { player_id: u128 },
    /// Any other event (positions, extraction, crafting, stations, executed and cancelled
    /// trades), for every subscribed player.
    Broadcast,
}

/// `viewer` is one of the two traders, if there are any.
pub open spec fn among_traders(viewer: u128, traders: Option<(u128, u128)>) -> bool {
    match traders {
        Some((a, b)) => viewer == a || viewer == b,
        None => false,
    }
}

/// Whether the subscribed player `viewer` receives an event routed by `e`.
pub open spec fn receives(viewer: u128, e: EventRoute) -> bool {
    match e {
        EventRoute::TradeRequested { to_player } => viewer == to_player,
        EventRoute::TradeRequestDeclined { initiator } => viewer == initiator,
        EventRoute::TradeStarted { player_a, player_b } => viewer == player_a || viewer == player_b,
        EventRoute::TradeOfferUpdated { traders } => among_traders(viewer, traders),
        EventRoute::TradeAccepted { traders } => among_traders(viewer, traders),
        EventRoute::CurrencyChanged { player_id } => viewer == player_id,
        EventRoute::ZoneChanged { player_id } => viewer == player_id,
        EventRoute::MovementBlocked { player_id } => viewer == player_id,
        EventRoute::Broadcast => true,
    }
}

/// Whether the subscribed player `viewer` receives an event routed by `e`.
pub fn event_recipient(viewer: u128, e: &EventRoute) -> (r: bool)
    ensures
        r == receives(viewer, *e),
{
    match e {
        EventRoute::TradeRequested { to_player } => viewer == *to_player,
        EventRoute::TradeRequestDeclined { initiator } => viewer == *initiator,
        EventRoute::TradeStarted { player_a, player_b } => viewer == *player_a || viewer
            == *player_b,
        EventRoute::TradeOfferUpdated { traders } | EventRoute::TradeAccepted { traders } => {
            match traders {
                Some((a, b)) => viewer == *a || viewer == *b,
                None => false,
            }
        },
        EventRoute::CurrencyChanged { player_id } | EventRoute::ZoneChanged { player_id }
        | EventRoute::MovementBlocked { player_id } => viewer == *player_id,
        EventRoute::Broadcast => true,
    }
}

/// An event about one player, or about a trade, reaches no one else: whoever receives it is the
/// player concerned or one of the traders.
pub proof fn lemma_private_events_stay_private(viewer: u128, e: EventRoute)
    requires
        receives(viewer, e),
        !(e is Broadcast),
    ensures
        match e {
            EventRoute::TradeRequested { to_player } => viewer == to_player,
            EventRoute::TradeRequestDeclined { initiator } => viewer == initiator,
            EventRoute::TradeStarted { player_a, player_b } => viewer == player_a || viewer
                == player_b,
            EventRoute::TradeOfferUpdated { traders } => traders matches Some((a, b)) && (viewer
                == a || viewer == b),
            EventRoute::TradeAccepted { traders } => traders matches Some((a, b)) && (viewer == a
                || viewer == b),
            EventRoute::CurrencyChanged { player_id } => viewer == player_id,
            EventRoute::ZoneChanged { player_id } => viewer == player_id,
            EventRoute::MovementBlocked { player_id } => viewer == player_id,
            EventRoute::Broadcast => false,
        },
{
}

} // verus!
