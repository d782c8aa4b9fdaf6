use capitol_backend::trade_execution::{plan_trade_execution, ItemTransfer};
use capitol_backend::trade_manager::TradeManager;
use capitol_backend::trading::{TradeOffer, TradeSession};

const A: u128 = 100;
const B: u128 = 200;
const C: u128 = 300;

#[test]
fn request_then_accept_starts_trade_for_both() {
    let mut m = TradeManager::new();
    assert_eq!(m.request_trade_at(A, B, 7, 1_000), Ok(()));
    assert_eq!(m.has_pending_request(B), Some(A));
    assert!(!m.is_in_trade(A));
    let s = m.accept_request_at(B, 8, 2_000).unwrap();
    assert_eq!((s.id, s.player_a, s.player_b), (8, A, B));
    assert!(m.is_in_trade(A) && m.is_in_trade(B));
    assert_eq!(m.get_player_trade(A).unwrap().id, 8);
    assert_eq!(m.get_player_trade(B).unwrap().id, 8);
    assert_eq!(m.has_pending_request(B), None);
}

#[test]
fn mutual_requests_start_trade_at_once() {
    let mut m = TradeManager::new();
    m.request_trade_at(A, B, 1, 0).unwrap();
    m.request_trade_at(B, A, 2, 0).unwrap();
    let s = m.get_player_trade(A).unwrap();
    assert_eq!((s.id, s.player_a, s.player_b), (2, A, B));
    assert!(m.is_in_trade(B));
    assert_eq!(m.has_pending_request(B), None);
}

#[test]
fn request_errors() {
    let mut m = TradeManager::new();
    m.request_trade_at(A, B, 1, 0).unwrap();
    assert_eq!(m.request_trade_at(A, B, 1, 0).unwrap_err(), "Trade request already pending");
    m.accept_request_at(B, 1, 0).unwrap();
    assert_eq!(m.request_trade_at(A, C, 2, 0).unwrap_err(), "You are already in a trade");
    assert_eq!(m.request_trade_at(C, B, 2, 0).unwrap_err(), "Target player is already in a trade");
    assert_eq!(m.accept_request_at(C, 3, 0).unwrap_err(), "No pending trade request");
    assert_eq!(m.decline_request(C).unwrap_err(), "No pending trade request");
}

#[test]
fn accept_fails_when_initiator_is_busy() {
    let mut m = TradeManager::new();
    m.request_trade_at(A, B, 1, 0).unwrap();
    m.request_trade_at(C, A, 2, 0).unwrap();
    m.accept_request_at(A, 3, 0).unwrap();
    assert_eq!(m.accept_request_at(B, 4, 0).unwrap_err(), "Other player is now in a trade");
    assert_eq!(m.has_pending_request(B), None);
}

#[test]
fn decline_names_initiator() {
    let mut m = TradeManager::new();
    m.request_trade_at(A, B, 1, 0).unwrap();
    assert_eq!(m.decline_request(B), Ok(A));
    assert_eq!(m.has_pending_request(B), None);
}

#[test]
fn offers_acceptance_and_completion() {
    let mut m = TradeManager::new();
    m.request_trade_at(A, B, 1, 0).unwrap();
    m.accept_request_at(B, 9, 0).unwrap();
    assert_eq!(m.update_offer(A, vec![(55, 3)], 10), Ok(()));
    assert_eq!(m.set_accepted(A, true), Ok(false));
    assert_eq!(m.complete_trade(A).unwrap_err(), "Both players must accept");
    assert_eq!(m.set_accepted(B, true), Ok(true));
    // changing an offer withdraws both acceptances
    m.update_offer(B, vec![], 4).unwrap();
    let s = m.get_player_trade(A).unwrap();
    assert!(!s.accepted_a && !s.accepted_b);
    assert_eq!(s.offer_a.items, vec![(55, 3)]);
    assert_eq!(s.offer_b.strands, 4);
    m.set_accepted(B, true).unwrap();
    m.set_accepted(A, true).unwrap();
    let done = m.complete_trade(B).unwrap();
    assert_eq!(done.id, 9);
    assert!(!m.is_in_trade(A) && !m.is_in_trade(B));
    assert_eq!(m.complete_trade(A).unwrap_err(), "Not in a trade");
    assert_eq!(m.update_offer(A, vec![], 0).unwrap_err(), "Not in a trade");
    assert_eq!(m.set_accepted(A, true).unwrap_err(), "Not in a trade");
}

#[test]
fn cancel_releases_both() {
    let mut m = TradeManager::new();
    m.request_trade_at(A, B, 1, 0).unwrap();
    m.accept_request_at(B, 5, 0).unwrap();
    assert_eq!(m.cancel_trade(B), Ok((A, B)));
    assert!(!m.is_in_trade(A) && !m.is_in_trade(B));
    assert!(m.get_player_trade(A).is_none());
    assert_eq!(m.cancel_trade(A).unwrap_err(), "Not in a trade");
}

#[test]
fn stale_requests_expire_after_thirty_seconds() {
    let mut m = TradeManager::new();
    m.request_trade_at(A, B, 1, 0).unwrap();
    m.request_trade_at(C, A, 2, 20_000).unwrap();
    assert!(m.cleanup_stale_requests_at(30_999).is_empty());
    assert_eq!(m.cleanup_stale_requests_at(31_000), vec![(A, B)]);
    assert_eq!(m.has_pending_request(B), None);
    assert_eq!(m.has_pending_request(A), Some(C));
    // a clock that reads earlier than the request expires nothing
    assert!(m.cleanup_stale_requests_at(0).is_empty());
    assert_eq!(m.cleanup_stale_requests_at(51_000), vec![(C, A)]);
}

#[test]
fn random_ids_and_clock_are_used() {
    let mut m = TradeManager::new();
    m.request_trade(A, B).unwrap();
    let s = m.accept_request(B).unwrap();
    assert_eq!((s.player_a, s.player_b), (A, B));
    assert_eq!(m.get_player_trade(A).unwrap().id, s.id);
    assert!(m.cleanup_stale_requests().is_empty());
    let t1 = TradeSession::new(A, B);
    let t2 = TradeSession::new(A, B);
    assert_ne!(t1.id, t2.id);
    assert!(t1.created_at > 0);
}

#[test]
fn session_helpers() {
    let mut s = TradeSession::create(1, A, B, 0);
    assert_eq!(s.other_player(A), Some(B));
    assert_eq!(s.other_player(B), Some(A));
    assert_eq!(s.other_player(C), None);
    assert!(s.has_player(A) && !s.has_player(C));
    s.set_accepted(B, true);
    assert!(s.has_accepted(B) && !s.has_accepted(A) && !s.has_accepted(C));
    assert!(!s.both_accepted());
    s.set_accepted(A, true);
    assert!(s.both_accepted());
    s.reset_accepted();
    assert!(!s.both_accepted());
    assert!(s.get_offer(C).is_none());
    assert!(s.get_offer_mut(C).is_none());
    if let Some(offer) = s.get_offer_mut(B) {
        offer.items.push((7, 3));
        offer.strands = 12;
    }
    assert_eq!(s.offer_b.items, vec![(7, 3)]);
    assert_eq!(s.offer_b.strands, 12);
    assert!(s.offer_a.items.is_empty());
    assert_eq!(s.get_offer(B).unwrap().strands, 12);
    let mut o = TradeOffer::new();
    o.items.push((1, 2));
    o.strands = 5;
    o.clear();
    assert!(o.items.is_empty());
    assert_eq!(o.strands, 0);
}

fn session(items_a: Vec<(u128, i32)>, strands_a: i64, items_b: Vec<(u128, i32)>, strands_b: i64) -> TradeSession {
    let mut s = TradeSession::create(42, A, B, 0);
    s.offer_a = TradeOffer { items: items_a, strands: strands_a };
    s.offer_b = TradeOffer { items: items_b, strands: strands_b };
    s
}

#[test]
fn trade_plan_moves_items_and_strands() {
    let s = session(vec![(1, 5), (2, 3)], 10, vec![(3, 1)], 25);
    let p = plan_trade_execution(&s, &vec![Some(5), Some(8)], &vec![Some(1)], 100, 50).unwrap();
    assert_eq!(p.a_to_b, vec![
        ItemTransfer { item_id: 1, quantity: 5, whole_stack: true },
        ItemTransfer { item_id: 2, quantity: 3, whole_stack: false },
    ]);
    assert_eq!(p.b_to_a, vec![ItemTransfer { item_id: 3, quantity: 1, whole_stack: true }]);
    assert_eq!(p.balance_a_after, 115);
    assert_eq!(p.balance_b_after, 35);
    assert_eq!(p.balance_a_after + p.balance_b_after, 150);
}

#[test]
fn trade_plan_errors() {
    let s = session(vec![(1, 5)], 10, vec![(3, 1)], 25);
    assert_eq!(plan_trade_execution(&s, &vec![Some(4)], &vec![Some(1)], 100, 50).unwrap_err(), "Item no longer available");
    assert_eq!(plan_trade_execution(&s, &vec![Some(5)], &vec![None], 100, 50).unwrap_err(), "Item no longer available");
    assert_eq!(plan_trade_execution(&s, &vec![Some(5)], &vec![Some(1)], 9, 50).unwrap_err(), "Player A has insufficient strands");
    assert_eq!(plan_trade_execution(&s, &vec![Some(5)], &vec![Some(1)], 10, 24).unwrap_err(), "Player B has insufficient strands");
}

#[test]
fn default_manager_is_empty() {
    let m = TradeManager::default();
    assert!(!m.is_in_trade(A));
    assert_eq!(m.has_pending_request(A), None);
    assert!(m.get_player_trade(B).is_none());
}

#[test]
fn trade_session_changed_in_place() {
    let mut m = TradeManager::new();
    m.request_trade_at(A, B, 7, 0).unwrap();
    m.accept_request_at(B, 8, 0).unwrap();
    assert!(m.get_player_trade_mut(C).is_none());
    if let Some(s) = m.get_player_trade_mut(B) {
        s.set_accepted(B, true);
    }
    let s = m.get_player_trade(A).unwrap();
    assert!(s.has_accepted(B) && !s.has_accepted(A));
}

#[test]
fn trade_plan_reads_a_repeated_item_again() {
    let s = session(vec![(1, 2), (1, 3)], 0, vec![], 0);
    let p = plan_trade_execution(&s, &vec![Some(5), Some(5)], &vec![], 0, 0).unwrap();
    assert_eq!(p.a_to_b, vec![
        ItemTransfer { item_id: 1, quantity: 2, whole_stack: false },
        ItemTransfer { item_id: 1, quantity: 3, whole_stack: true },
    ]);
    let s = session(vec![(1, 5), (1, 2)], 0, vec![(3, 3), (4, 1), (3, 3)], 0);
    let p = plan_trade_execution(&s, &vec![Some(5), Some(5)], &vec![Some(5), Some(1), Some(5)], 0, 0).unwrap();
    assert_eq!(p.a_to_b, vec![
        ItemTransfer { item_id: 1, quantity: 5, whole_stack: true },
        ItemTransfer { item_id: 1, quantity: 2, whole_stack: false },
    ]);
    assert_eq!(p.b_to_a, vec![
        ItemTransfer { item_id: 3, quantity: 3, whole_stack: false },
        ItemTransfer { item_id: 4, quantity: 1, whole_stack: true },
        ItemTransfer { item_id: 3, quantity: 3, whole_stack: false },
    ]);
}
