use capitol_backend::events::{event_recipient, EventRoute};
use capitol_backend::trade_manager::TradeManager;

const A: u128 = 11;
const B: u128 = 22;
const C: u128 = 33;

#[test]
fn trade_request_reaches_only_its_target() {
    let e = EventRoute::TradeRequested { to_player: B };
    assert!(event_recipient(B, &e));
    assert!(!event_recipient(A, &e));
    assert!(!event_recipient(C, &e));
}

#[test]
fn declined_request_reaches_only_its_initiator() {
    let e = EventRoute::TradeRequestDeclined { initiator: A };
    assert!(event_recipient(A, &e));
    assert!(!event_recipient(B, &e));
}

#[test]
fn started_trade_reaches_both_traders_only() {
    let e = EventRoute::TradeStarted { player_a: A, player_b: B };
    assert!(event_recipient(A, &e));
    assert!(event_recipient(B, &e));
    assert!(!event_recipient(C, &e));
}

#[test]
fn offer_and_acceptance_reach_traders_of_an_open_trade() {
    for e in [
        EventRoute::TradeOfferUpdated { traders: Some((A, B)) },
        EventRoute::TradeAccepted { traders: Some((A, B)) },
    ] {
        assert!(event_recipient(A, &e));
        assert!(event_recipient(B, &e));
        assert!(!event_recipient(C, &e));
    }
    for e in [EventRoute::TradeOfferUpdated { traders: None }, EventRoute::TradeAccepted { traders: None }] {
        assert!(!event_recipient(A, &e));
        assert!(!event_recipient(B, &e));
    }
}

#[test]
fn personal_events_reach_only_their_player() {
    for e in [
        EventRoute::CurrencyChanged { player_id: C },
        EventRoute::ZoneChanged { player_id: C },
        EventRoute::MovementBlocked { player_id: C },
    ] {
        assert!(event_recipient(C, &e));
        assert!(!event_recipient(A, &e));
    }
}

#[test]
fn broadcast_reaches_everyone() {
    for viewer in [A, B, C, 0] {
        assert!(event_recipient(viewer, &EventRoute::Broadcast));
    }
}

#[test]
fn participants_of_open_trades() {
    let mut m = TradeManager::new();
    assert_eq!(m.trade_participants(9), None);
    m.request_trade_at(A, B, 7, 1_000).unwrap();
    let s = m.accept_request_at(B, 9, 2_000).unwrap();
    assert_eq!(s.id, 9);
    assert_eq!(m.trade_participants(9), Some((A, B)));
    assert_eq!(m.trade_participants(7), None);
    m.cancel_trade(A).unwrap();
    assert_eq!(m.trade_participants(9), None);
}
