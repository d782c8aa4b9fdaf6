use std::collections::HashMap;
use vstd::prelude::*;

use crate::keys::keys_u128;
use crate::random::new_random_id;
use crate::trading::{
    fresh_session, in_session, session_both_accepted, session_set_accepted, session_update_offer,
    current_time_millis, SessionView, TradeOffer, TradeSession,
    TRADE_REQUEST_TIMEOUT_SECS,
};

verus! {

broadcast use vstd::std_specs::hash::group_hash_axioms;

/// The active trades, which trade each player is in, and the pending requests.
pub struct TradeManager {
    /// Active sessions by trade id.
    pub active_trades: HashMap<u128, TradeSession>,
    /// The trade each trading player is in.
    pub player_trades: HashMap<u128, u128>,
    /// Pending requests: target player -> (initiator, time of the request in ms).
    pub pending_requests: HashMap<u128, (u128, u64)>,
}

/// The mathematical content of a trade manager.
#[verifier::ext_equal]
pub struct ManagerView {
    pub active: Map<u128, SessionView>,
    pub players: Map<u128, u128>,
    pub pending: Map<u128, (u128, u64)>,
}

impl View for TradeManager {
    type V = ManagerView;

    open spec fn view(&self) -> ManagerView {
        ManagerView {
            active: self.active_trades@.map_values(|s: TradeSession| s@),
            players: self.player_trades@,
            pending: self.pending_requests@,
        }
    }
}

/// The bookkeeping agrees: every trading player points at an active trade they belong to,
/// and every active trade is stored under its own id and is pointed at by both its players.
pub open spec fn manager_wf(m: ManagerView) -> bool {
    &&& forall|p: u128| #[trigger]
        m.players.contains_key(p) ==> m.active.contains_key(m.players[p]) && in_session(
            m.active[m.players[p]],
            p,
        )
    &&& forall|t: u128| #[trigger]
        m.active.contains_key(t) ==> {
            let s = m.active[t];
            &&& s.id == t
            &&& m.players.contains_key(s.player_a) && m.players[s.player_a] == t
            &&& m.players.contains_key(s.player_b) && m.players[s.player_b] == t
        }
}

/// The outcome of a trade request from `initiator` to `target`, given the id and time that a new
/// session would get.
pub open spec fn request_next(
    m: ManagerView,
    initiator: u128,
    target: u128,
    id: u128,
    now: u64,
) -> (ManagerView, Result<(), Seq<char>>) {
    if m.players.contains_key(initiator) {
        (m, Err("You are already in a trade"@))
    } else if m.players.contains_key(target) {
        (m, Err("Target player is already in a trade"@))
    } else if m.pending.contains_key(target) && m.pending[target].0 == initiator {
        (m, Err("Trade request already pending"@))
    } else if m.pending.contains_key(initiator) && m.pending[initiator].0 == target {
        (
            ManagerView {
                active: m.active.insert(id, fresh_session(id, target, initiator, now)),
                players: m.players.insert(initiator, id).insert(target, id),
                pending: m.pending.remove(initiator),
            },
            Ok(()),
        )
    } else if m.pending.contains_key(initiator) {
        (
            ManagerView {
                pending: m.pending.insert(initiator, (m.pending[initiator].0, now)).insert(
                    target,
                    (initiator, now),
                ),
                ..m
            },
            Ok(()),
        )
    } else {
        (ManagerView { pending: m.pending.insert(target, (initiator, now)), ..m }, Ok(()))
    }
}

/// The outcome of `player` accepting the request addressed to them.
pub open spec fn accept_next(m: ManagerView, player: u128, id: u128, now: u64) -> (
    ManagerView,
    Result<SessionView, Seq<char>>,
) {
    if !m.pending.contains_key(player) {
        (m, Err("No pending trade request"@))
    } else {
        let initiator = m.pending[player].0;
        let m1 = ManagerView { pending: m.pending.remove(player), ..m };
        if m.players.contains_key(player) {
            (m1, Err("You are already in a trade"@))
        } else if m.players.contains_key(initiator) {
            (m1, Err("Other player is now in a trade"@))
        } else {
            let s = fresh_session(id, initiator, player, now);
            (
                ManagerView {
                    active: m.active.insert(id, s),
                    players: m.players.insert(player, id).insert(initiator, id),
                    ..m1
                },
                Ok(s),
            )
        }
    }
}

/// The outcome of `player` declining the request addressed to them.
pub open spec fn decline_next(m: ManagerView, player: u128) -> (ManagerView, Result<
    u128,
    Seq<char>,
>) {
    if !m.pending.contains_key(player) {
        (m, Err("No pending trade request"@))
    } else {
        (ManagerView { pending: m.pending.remove(player), ..m }, Ok(m.pending[player].0))
    }
}

/// `player` is in a trade whose session exists.
pub open spec fn trading(m: ManagerView, player: u128) -> bool {
    m.players.contains_key(player) && m.active.contains_key(m.players[player])
}

/// The outcome of `player` replacing their offer.
pub open spec fn update_offer_next(
    m: ManagerView,
    player: u128,
    items: Seq<(u128, i32)>,
    strands: i64,
) -> (ManagerView, Result<(), Seq<char>>) {
    if !trading(m, player) {
        (m, Err("Not in a trade"@))
    } else {
        let t = m.players[player];
        (
            ManagerView {
                active: m.active.insert(
                    t,
                    session_update_offer(m.active[t], player, items, strands),
                ),
                ..m
            },
            Ok(()),
        )
    }
}

/// The outcome of `player` setting their accepted flag; the result says whether both accepted.
pub open spec fn set_accepted_next(m: ManagerView, player: u128, accepted: bool) -> (
    ManagerView,
    Result<bool, Seq<char>>,
) {
    if !trading(m, player) {
        (m, Err("Not in a trade"@))
    } else {
        let t = m.players[player];
        let s = session_set_accepted(m.active[t], player, accepted);
        (ManagerView { active: m.active.insert(t, s), ..m }, Ok(session_both_accepted(s)))
    }
}

/// The outcome of `player` cancelling their trade; the result names both traders.
pub open spec fn cancel_next(m: ManagerView, player: u128) -> (ManagerView, Result<
    (u128, u128),
    Seq<char>,
>) {
    if !m.players.contains_key(player) {
        (m, Err("Not in a trade"@))
    } else {
        let t = m.players[player];
        if !m.active.contains_key(t) {
            (ManagerView { players: m.players.remove(player), ..m }, Err("Trade session not found"@))
        } else {
            let s = m.active[t];
            (
                ManagerView {
                    active: m.active.remove(t),
                    players: m.players.remove(player).remove(s.player_a).remove(s.player_b),
                    ..m
                },
                Ok((s.player_a, s.player_b)),
            )
        }
    }
}

/// The outcome of `player` completing their trade; the result is the finished session.
pub open spec fn complete_next(m: ManagerView, player: u128) -> (ManagerView, Result<
    SessionView,
    Seq<char>,
>) {
    if !m.players.contains_key(player) {
        (m, Err("Not in a trade"@))
    } else if !m.active.contains_key(m.players[player]) {
        (m, Err("Trade session not found"@))
    } else {
        let t = m.players[player];
        let s = m.active[t];
        if !session_both_accepted(s) {
            (m, Err("Both players must accept"@))
        } else {
            (
                ManagerView {
                    active: m.active.remove(t),
                    players: m.players.remove(s.player_a).remove(s.player_b),
                    ..m
                },
                Ok(s),
            )
        }
    }
}

/// A request made at `created` has lapsed at `now`: more than the timeout in whole seconds has
/// passed (no time has passed if the clock reads earlier than `created`).
pub open spec fn request_stale(created: u64, now: u64) -> bool {
    now >= created && (now - created) / 1000 > TRADE_REQUEST_TIMEOUT_SECS
}

/// The pending requests that are still fresh at `now`.
pub open spec fn fresh_requests(pending: Map<u128, (u128, u64)>, now: u64) -> Map<
    u128,
    (u128, u64),
> {
    pending.restrict(pending.dom().filter(|k: u128| !request_stale(pending[k].1, now)))
}

/// `expired` lists, once each, (initiator, target) for exactly the requests that lapsed at `now`.
pub open spec fn lists_expired(
    pending: Map<u128, (u128, u64)>,
    now: u64,
    expired: Seq<(u128, u128)>,
) -> bool {
    &&& expired.no_duplicates()
    &&& forall|i: int|
        0 <= i < expired.len() ==> {
            let (init, target) = #[trigger] expired[i];
            &&& pending.contains_key(target)
            &&& request_stale(pending[target].1, now)
            &&& pending[target].0 == init
        }
    &&& forall|target: u128| #[trigger]
        pending.contains_key(target) && request_stale(pending[target].1, now) ==> expired.contains(
            (pending[target].0, target),
        )
}

/// Result view of an operation that returns nothing.
pub open spec fn unit_result(r: Result<(), String>) -> Result<(), Seq<char>> {
    match r {
        Ok(()) => Ok(()),
        Err(e) => Err(e@),
    }
}

/// Wrapper: the value stored under `k`, to change in place.
/// Trusted: calls `std::collections::HashMap::get_mut`, which finds the value under `k` (or
/// none); changing the value through the reference is the only change to the map.
#[verifier::external_body]
fn map_get_mut<'a, V>(m: &'a mut HashMap<u128, V>, k: u128) -> (r: Option<&'a mut V>)
    ensures
        match r {
            Some(v) => old(m)@.contains_key(k) && *v == old(m)@[k] && final(m)@ == old(m)@.insert(
                k,
                *final(v),
            ),
            None => !old(m)@.contains_key(k) && final(m)@ == old(m)@,
        },
{
    m.get_mut(&k)
}

impl TradeManager {
    /// No trades and no requests.
    pub fn new() -> (r: TradeManager)
        ensures
            r@.active == Map::<u128, SessionView>::empty(),
            r@.players == Map::<u128, u128>::empty(),
            r@.pending == Map::<u128, (u128, u64)>::empty(),
            manager_wf(r@),
    {
        let r = TradeManager {
            active_trades: HashMap::new(),
            player_trades: HashMap::new(),
            pending_requests: HashMap::new(),
        };
        assert(r@.active =~= Map::<u128, SessionView>::empty());
        r
    }

    /// `initiator` asks `target` to trade; a new session (if the two requests meet) gets `id` and
    /// both the session and the request are stamped with `now`.
    pub fn request_trade_at(&mut self, initiator: u128, target: u128, id: u128, now: u64) -> (r:
        Result<(), String>)
        ensures
            final(self)@ == request_next(old(self)@, initiator, target, id, now).0,
            unit_result(r) == request_next(old(self)@, initiator, target, id, now).1,
    {
        if self.player_trades.contains_key(&initiator) {
            return Err("You are already in a trade".to_owned());
        }
        if self.player_trades.contains_key(&target) {
            return Err("Target player is already in a trade".to_owned());
        }
        if let Some(existing) = self.pending_requests.get(&target) {
            if existing.0 == initiator {
                return Err("Trade request already pending".to_owned());
            }
        }
        if let Some(pending) = self.pending_requests.remove(&initiator) {
            if pending.0 == target {
                let session = TradeSession::create(id, target, initiator, now);
                self.active_trades.insert(id, session);
                self.player_trades.insert(initiator, id);
                self.player_trades.insert(target, id);
                assert(self@.active =~= old(self)@.active.insert(
                    id,
                    fresh_session(id, target, initiator, now),
                ));
                return Ok(());
            }
            self.pending_requests.insert(initiator, (pending.0, now));
        }
        self.pending_requests.insert(target, (initiator, now));
        Ok(())
    }

    /// `initiator` asks `target` to trade, with a fresh random id and the current time for a
    /// session that starts at once because `target` had already asked `initiator`.
    pub fn request_trade(&mut self, initiator: u128, target: u128) -> (r: Result<(), String>)
        ensures
            exists|id: u128, now: u64|
                {
                    &&& final(self)@ == #[trigger] request_next(
                        old(self)@,
                        initiator,
                        target,
                        id,
                        now,
                    ).0
                    &&& unit_result(r) == request_next(old(self)@, initiator, target, id, now).1
                },
    {
        let id = new_random_id();
        let now = current_time_millis();
        self.request_trade_at(initiator, target, id, now)
    }

    /// `player` accepts the request addressed to them; the new session gets `id` and time `now`.
    pub fn accept_request_at(&mut self, player_id: u128, id: u128, now: u64) -> (r: Result<
        TradeSession,
        String,
    >)
        ensures
            final(self)@ == accept_next(old(self)@, player_id, id, now).0,
            match r {
                Ok(s) => accept_next(old(self)@, player_id, id, now).1 == Ok::<
                    SessionView,
                    Seq<char>,
                >(s@),
                Err(e) => accept_next(old(self)@, player_id, id, now).1 == Err::<
                    SessionView,
                    Seq<char>,
                >(e@),
            },
    {
        let initiator = match self.pending_requests.remove(&player_id) {
            Some(p) => p.0,
            None => {
                return Err("No pending trade request".to_owned());
            },
        };
        if self.player_trades.contains_key(&player_id) {
            return Err("You are already in a trade".to_owned());
        }
        if self.player_trades.contains_key(&initiator) {
            return Err("Other player is now in a trade".to_owned());
        }
        let session = TradeSession::create(id, initiator, player_id, now);
        let stored = session.duplicate();
        self.active_trades.insert(id, stored);
        self.player_trades.insert(player_id, id);
        self.player_trades.insert(initiator, id);
        assert(self@.active =~= old(self)@.active.insert(id, session@));
        Ok(session)
    }

    /// `player` accepts the request addressed to them; the session gets a fresh random id and the
    /// current time.
    pub fn accept_request(&mut self, player_id: u128) -> (r: Result<TradeSession, String>)
        ensures
            exists|id: u128, now: u64|
                {
                    &&& final(self)@ == #[trigger] accept_next(old(self)@, player_id, id, now).0
                    &&& match r {
                        Ok(s) => accept_next(old(self)@, player_id, id, now).1 == Ok::<
                            SessionView,
                            Seq<char>,
                        >(s@),
                        Err(e) => accept_next(old(self)@, player_id, id, now).1 == Err::<
                            SessionView,
                            Seq<char>,
                        >(e@),
                    }
                },
    {
        let id = new_random_id();
        let now = current_time_millis();
        self.accept_request_at(player_id, id, now)
    }

    /// `player` declines the request addressed to them; the result names its initiator.
    pub fn decline_request(&mut self, player_id: u128) -> (r: Result<u128, String>)
        ensures
            final(self)@ == decline_next(old(self)@, player_id).0,
            match r {
                Ok(i) => decline_next(old(self)@, player_id).1 == Ok::<u128, Seq<char>>(i),
                Err(e) => decline_next(old(self)@, player_id).1 == Err::<u128, Seq<char>>(e@),
            },
    {
        match self.pending_requests.remove(&player_id) {
            Some(p) => Ok(p.0),
            None => Err("No pending trade request".to_owned()),
        }
    }

    /// The session of the trade a player is in, if any.
    pub fn get_player_trade(&self, player_id: u128) -> (r: Option<&TradeSession>)
        ensures
            match r {
                Some(s) => trading(self@, player_id) && s@ == self@.active[self@.players[player_id]],
                None => !trading(self@, player_id),
            },
    {
        match self.player_trades.get(&player_id) {
            Some(trade_id) => self.active_trades.get(trade_id),
            None => None,
        }
    }

    /// The session of the trade a player is in, if any, to change in place; nothing else
    /// changes.
    pub fn get_player_trade_mut(&mut self, player_id: u128) -> (r: Option<&mut TradeSession>)
        ensures
            final(self).player_trades@ == old(self).player_trades@,
            final(self).pending_requests@ == old(self).pending_requests@,
            match r {
                Some(s) => {
                    let t = old(self).player_trades@[player_id];
                    &&& trading(old(self)@, player_id)
                    &&& *s == old(self).active_trades@[t]
                    &&& final(self).active_trades@ == old(self).active_trades@.insert(t, *final(s))
                },
                None => !trading(old(self)@, player_id) && final(self).active_trades@ == old(
                    self,
                ).active_trades@,
            },
    {
        let trade_id = match self.player_trades.get(&player_id) {
            Some(t) => *t,
            None => {
                return None;
            },
        };
        map_get_mut(&mut self.active_trades, trade_id)
    }

    /// `player` replaces their offer; both acceptances are withdrawn.
    pub fn update_offer(&mut self, player_id: u128, items: Vec<(u128, i32)>, strands: i64) -> (r:
        Result<(), String>)
        ensures
            final(self)@ == update_offer_next(old(self)@, player_id, items@, strands).0,
            unit_result(r) == update_offer_next(old(self)@, player_id, items@, strands).1,
    {
        let trade_id = match self.player_trades.get(&player_id) {
            Some(t) => *t,
            None => {
                return Err("Not in a trade".to_owned());
            },
        };
        let mut session = match self.active_trades.get(&trade_id) {
            Some(s) => s.duplicate(),
            None => {
                return Err("Not in a trade".to_owned());
            },
        };
        if player_id == session.player_a {
            session.offer_a = TradeOffer { items, strands };
        } else if player_id == session.player_b {
            session.offer_b = TradeOffer { items, strands };
        }
        session.reset_accepted();
        let ghost sv = session@;
        self.active_trades.insert(trade_id, session);
        assert(self@.active =~= old(self)@.active.insert(trade_id, sv));
        Ok(())
    }

    /// `player` sets their accepted flag; the result says whether both traders have accepted.
    pub fn set_accepted(&mut self, player_id: u128, accepted: bool) -> (r: Result<bool, String>)
        ensures
            final(self)@ == set_accepted_next(old(self)@, player_id, accepted).0,
            match r {
                Ok(b) => set_accepted_next(old(self)@, player_id, accepted).1 == Ok::<
                    bool,
                    Seq<char>,
                >(b),
                Err(e) => set_accepted_next(old(self)@, player_id, accepted).1 == Err::<
                    bool,
                    Seq<char>,
                >(e@),
            },
    {
        let trade_id = match self.player_trades.get(&player_id) {
            Some(t) => *t,
            None => {
                return Err("Not in a trade".to_owned());
            },
        };
        let mut session = match self.active_trades.get(&trade_id) {
            Some(s) => s.duplicate(),
            None => {
                return Err("Not in a trade".to_owned());
            },
        };
        session.set_accepted(player_id, accepted);
        let both = session.both_accepted();
        let ghost sv = session@;
        self.active_trades.insert(trade_id, session);
        assert(self@.active =~= old(self)@.active.insert(trade_id, sv));
        Ok(both)
    }

    /// `player` cancels their trade; both traders leave it and the result names them.
    pub fn cancel_trade(&mut self, player_id: u128) -> (r: Result<(u128, u128), String>)
        ensures
            final(self)@ == cancel_next(old(self)@, player_id).0,
            match r {
                Ok(pair) => cancel_next(old(self)@, player_id).1 == Ok::<(u128, u128), Seq<char>>(
                    pair,
                ),
                Err(e) => cancel_next(old(self)@, player_id).1 == Err::<(u128, u128), Seq<char>>(
                    e@,
                ),
            },
    {
        let trade_id = match self.player_trades.remove(&player_id) {
            Some(t) => t,
            None => {
                return Err("Not in a trade".to_owned());
            },
        };
        let session = match self.active_trades.remove(&trade_id) {
            Some(s) => s,
            None => {
                return Err("Trade session not found".to_owned());
            },
        };
        self.player_trades.remove(&session.player_a);
        self.player_trades.remove(&session.player_b);
        assert(self@.active =~= old(self)@.active.remove(trade_id));
        Ok((session.player_a, session.player_b))
    }

    /// `player` completes their trade, which both traders must have accepted; the trade ends
    /// and its session is handed back for execution.
    pub fn complete_trade(&mut self, player_id: u128) -> (r: Result<TradeSession, String>)
        ensures
            final(self)@ == complete_next(old(self)@, player_id).0,
            match r {
                Ok(s) => complete_next(old(self)@, player_id).1 == Ok::<SessionView, Seq<char>>(
                    s@,
                ),
                Err(e) => complete_next(old(self)@, player_id).1 == Err::<SessionView, Seq<char>>(
                    e@,
                ),
            },
    {
        let trade_id = match self.player_trades.get(&player_id) {
            Some(t) => *t,
            None => {
                return Err("Not in a trade".to_owned());
            },
        };
        let (player_a, player_b) = match self.active_trades.get(&trade_id) {
            Some(s) => {
                if !s.both_accepted() {
                    return Err("Both players must accept".to_owned());
                }
                (s.player_a, s.player_b)
            },
            None => {
                return Err("Trade session not found".to_owned());
            },
        };
        self.player_trades.remove(&player_a);
        self.player_trades.remove(&player_b);
        let session = match self.active_trades.remove(&trade_id) {
            Some(s) => s,
            None => {
                return Err("Trade session not found".to_owned());
            },
        };
        assert(self@.active =~= old(self)@.active.remove(trade_id));
        Ok(session)
    }

    /// The initiator of the request addressed to a player, if any.
    pub fn has_pending_request(&self, player_id: u128) -> (r: Option<u128>)
        ensures
            r == (if self@.pending.contains_key(player_id) {
                Some(self@.pending[player_id].0)
            } else {
                None::<u128>
            }),
    {
        match self.pending_requests.get(&player_id) {
            Some(p) => Some(p.0),
            None => None,
        }
    }

    /// Drops the requests that have lapsed at `now` and lists them as (initiator, target).
    pub fn cleanup_stale_requests_at(&mut self, now: u64) -> (r: Vec<(u128, u128)>)
        ensures
            final(self)@.active == old(self)@.active,
            final(self)@.players == old(self)@.players,
            final(self)@.pending == fresh_requests(old(self)@.pending, now),
            lists_expired(old(self)@.pending, now, r@),
    {
        let keys = keys_u128(&self.pending_requests);
        let ghost old_p = self.pending_requests@;
        let mut expired: Vec<(u128, u128)> = Vec::new();
        let mut n: usize = 0;
        while n < keys.len()
            invariant
                keys@.to_set() == old_p.dom(),
                keys@.no_duplicates(),
                n <= keys@.len(),
                self.active_trades@ == old(self).active_trades@,
                self.player_trades@ == old(self).player_trades@,
                forall|k: u128| #[trigger]
                    self.pending_requests@.contains_key(k) <==> (old_p.contains_key(k) && !(
                    keys@.subrange(0, n as int).contains(k) && request_stale(old_p[k].1, now))),
                forall|k: u128| #[trigger]
                    self.pending_requests@.contains_key(k) ==> self.pending_requests@[k]
                        == old_p[k],
                expired@.no_duplicates(),
                forall|i: int|
                    0 <= i < expired@.len() ==> {
                        let (init, target) = #[trigger] expired@[i];
                        &&& old_p.contains_key(target)
                        &&& request_stale(old_p[target].1, now)
                        &&& old_p[target].0 == init
                        &&& keys@.subrange(0, n as int).contains(target)
                    },
                forall|j: int|
                    0 <= j < n && request_stale(old_p[keys@[j]].1, now) ==> expired@.contains(
                        (old_p[keys@[j]].0, #[trigger] keys@[j]),
                    ),
            decreases keys.len() - n,
        {
            let k = keys[n];
            assert(keys@.to_set().contains(k));
            assert(!keys@.subrange(0, n as int).contains(k)) by {
                if keys@.subrange(0, n as int).contains(k) {
                    let j = choose|j: int| 0 <= j < n && #[trigger] keys@.subrange(0, n as int)[j] == k;
                    assert(keys@[j] == keys@[n as int]);
                }
            }
            let entry = *self.pending_requests.get(&k).unwrap();
            let initiator = entry.0;
            let created = entry.1;
            let ghost before = expired@;
            if now >= created && (now - created) / 1000 > TRADE_REQUEST_TIMEOUT_SECS {
                self.pending_requests.remove(&k);
                expired.push((initiator, k));
                assert(expired@[expired@.len() - 1] == (initiator, k));
                assert forall|x: (u128, u128)| before.contains(x) implies expired@.contains(x) by {
                    let i = choose|i: int| 0 <= i < before.len() && #[trigger] before[i] == x;
                    assert(expired@[i] == x);
                }
                assert forall|i: int, m: int|
                    0 <= i < expired@.len() && 0 <= m < expired@.len() && i != m implies expired@[i]
                    != expired@[m] by {
                    if i < before.len() && m < before.len() {
                    } else if i == before.len() {
                        assert(keys@.subrange(0, n as int).contains(expired@[m].1));
                    } else {
                        assert(keys@.subrange(0, n as int).contains(expired@[i].1));
                    }
                }
            }
            assert forall|x: u128| keys@.subrange(0, n as int).contains(x) implies keys@.subrange(
                0,
                n + 1,
            ).contains(x) by {
                let j = choose|j: int| 0 <= j < n && #[trigger] keys@.subrange(0, n as int)[j] == x;
                assert(keys@.subrange(0, n + 1)[j] == x);
            }
            assert(keys@.subrange(0, n + 1)[n as int] == k);
            assert forall|x: u128| keys@.subrange(0, n + 1).contains(x) implies (keys@.subrange(
                0,
                n as int,
            ).contains(x) || x == k) by {
                let j = choose|j: int| 0 <= j < n + 1 && #[trigger] keys@.subrange(0, n + 1)[j] == x;
                if j < n {
                    assert(keys@.subrange(0, n as int)[j] == x);
                }
            }
            n = n + 1;
        }
        assert forall|k: u128| old_p.contains_key(k) implies keys@.subrange(
            0,
            n as int,
        ).contains(k) by {
            assert(keys@.to_set().contains(k));
            assert(keys@.subrange(0, n as int) =~= keys@);
        }
        assert(self.pending_requests@ =~= fresh_requests(old_p, now));
        assert forall|target: u128| #[trigger]
            old_p.contains_key(target) && request_stale(old_p[target].1, now) implies expired@.contains(
            (old_p[target].0, target),
        ) by {
            assert(keys@.to_set().contains(target));
            let j = keys@.index_of(target);
        }
        expired
    }

    /// Drops the requests older than the timeout at the current time and lists them as
    /// (initiator, target).
    pub fn cleanup_stale_requests(&mut self) -> (r: Vec<(u128, u128)>)
        ensures
            final(self)@.active == old(self)@.active,
            final(self)@.players == old(self)@.players,
            exists|now: u64|
                {
                    &&& final(self)@.pending == #[trigger] fresh_requests(old(self)@.pending, now)
                    &&& lists_expired(old(self)@.pending, now, r@)
                },
    {
        let now = current_time_millis();
        self.cleanup_stale_requests_at(now)
    }

    /// The two traders of an active trade, if it is open.
    pub fn trade_participants(&self, trade_id: u128) -> (r: Option<(u128, u128)>)
        ensures
            r == (if self@.active.contains_key(trade_id) {
                Some((self@.active[trade_id].player_a, self@.active[trade_id].player_b))
            } else {
                None::<(u128, u128)>
            }),
    {
        match self.active_trades.get(&trade_id) {
            Some(s) => Some((s.player_a, s.player_b)),
            None => None,
        }
    }

    /// Whether a player is in an active trade.
    pub fn is_in_trade(&self, player_id: u128) -> (r: bool)
        ensures
            r == self@.players.contains_key(player_id),
    {
        self.player_trades.contains_key(&player_id)
    }
}

impl Default for TradeManager {
    /// No trades and no requests.
    fn default() -> (r: TradeManager)
        ensures
            r@.active == Map::<u128, SessionView>::empty(),
            r@.players == Map::<u128, u128>::empty(),
            r@.pending == Map::<u128, (u128, u64)>::empty(),
            manager_wf(r@),
    {
        TradeManager::new()
    }
}

/// A trade request keeps the bookkeeping consistent, provided the id a new session would get is
/// not already in use.
pub proof fn lemma_request_preserves_wf(
    m: ManagerView,
    initiator: u128,
    target: u128,
    id: u128,
    now: u64,
)
    requires
        manager_wf(m),
        !m.active.contains_key(id),
    ensures
        manager_wf(request_next(m, initiator, target, id, now).0),
{
}

/// Accepting a request keeps the bookkeeping consistent, provided the id of the new session is
/// not already in use.
pub proof fn lemma_accept_preserves_wf(m: ManagerView, player: u128, id: u128, now: u64)
    requires
        manager_wf(m),
        !m.active.contains_key(id),
    ensures
        manager_wf(accept_next(m, player, id, now).0),
{
}

/// Declining a request keeps the bookkeeping consistent.
pub proof fn lemma_decline_preserves_wf(m: ManagerView, player: u128)
    requires
        manager_wf(m),
    ensures
        manager_wf(decline_next(m, player).0),
{
}

/// Changing an offer keeps the bookkeeping consistent.
pub proof fn lemma_update_offer_preserves_wf(
    m: ManagerView,
    player: u128,
    items: Seq<(u128, i32)>,
    strands: i64,
)
    requires
        manager_wf(m),
    ensures
        manager_wf(update_offer_next(m, player, items, strands).0),
{
}

/// Accepting or withdrawing acceptance keeps the bookkeeping consistent.
pub proof fn lemma_set_accepted_preserves_wf(m: ManagerView, player: u128, accepted: bool)
    requires
        manager_wf(m),
    ensures
        manager_wf(set_accepted_next(m, player, accepted).0),
{
}

/// Cancelling keeps the bookkeeping consistent.
pub proof fn lemma_cancel_preserves_wf(m: ManagerView, player: u128)
    requires
        manager_wf(m),
    ensures
        manager_wf(cancel_next(m, player).0),
{
}

/// Completing keeps the bookkeeping consistent.
pub proof fn lemma_complete_preserves_wf(m: ManagerView, player: u128)
    requires
        manager_wf(m),
    ensures
        manager_wf(complete_next(m, player).0),
{
}

/// Dropping lapsed requests keeps the bookkeeping consistent.
pub proof fn lemma_cleanup_preserves_wf(m: ManagerView, now: u64)
    requires
        manager_wf(m),
    ensures
        manager_wf(ManagerView { pending: fresh_requests(m.pending, now), ..m }),
{
}

/// Once a request is accepted, both players are in the new trade, it is stored under its id,
/// and no request to the accepting player remains.
pub proof fn lemma_accept_starts_trade_for_both(m: ManagerView, player: u128, id: u128, now: u64)
    requires
        accept_next(m, player, id, now).1 is Ok,
    ensures
        ({
            let m2 = accept_next(m, player, id, now).0;
            let s = accept_next(m, player, id, now).1->Ok_0;
            &&& s.id == id
            &&& s.player_b == player
            &&& s.player_a == m.pending[player].0
            &&& m2.players[player] == id
            &&& m2.players[s.player_a] == id
            &&& m2.active[id] == s
            &&& !m2.pending.contains_key(player)
        }),
{
}

/// Cancelling a trade takes both traders out of it and ends the session.
pub proof fn lemma_cancel_releases_both(m: ManagerView, player: u128)
    requires
        manager_wf(m),
        cancel_next(m, player).1 is Ok,
    ensures
        ({
            let m2 = cancel_next(m, player).0;
            let (a, b) = cancel_next(m, player).1->Ok_0;
            &&& !m2.players.contains_key(a)
            &&& !m2.players.contains_key(b)
            &&& !m2.players.contains_key(player)
            &&& !m2.active.contains_key(m.players[player])
        }),
{
}

/// Any change of an offer withdraws both acceptances of the trade.
pub proof fn lemma_offer_change_resets_acceptance(
    m: ManagerView,
    player: u128,
    items: Seq<(u128, i32)>,
    strands: i64,
)
    requires
        update_offer_next(m, player, items, strands).1 is Ok,
    ensures
        ({
            let m2 = update_offer_next(m, player, items, strands).0;
            let s = m2.active[m.players[player]];
            !s.accepted_a && !s.accepted_b
        }),
{
}

/// A trade completes exactly when the player is in a trade and both traders have accepted it.
pub proof fn lemma_complete_iff_both_accepted(m: ManagerView, player: u128)
    requires
        manager_wf(m),
    ensures
        (complete_next(m, player).1 is Ok) <==> (m.players.contains_key(player)
            && session_both_accepted(m.active[m.players[player]])),
{
}

/// Between two different players, accepting in either order leaves the trade accepted by both.
pub proof fn lemma_both_acceptances_complete(s: SessionView)
    requires
        s.player_a != s.player_b,
    ensures
        session_both_accepted(
            session_set_accepted(session_set_accepted(s, s.player_a, true), s.player_b, true),
        ),
        session_both_accepted(
            session_set_accepted(session_set_accepted(s, s.player_b, true), s.player_a, true),
        ),
{
}

/// A refused request leaves the trade manager as it was.
pub proof fn lemma_refused_request_changes_nothing(
    m: ManagerView,
    initiator: u128,
    target: u128,
    id: u128,
    now: u64,
)
    requires
        request_next(m, initiator, target, id, now).1 is Err,
    ensures
        request_next(m, initiator, target, id, now).0 == m,
{
}

} // verus!
