use vstd::prelude::*;

use crate::random::new_random_id;

verus! {

/// Seconds after which an unanswered trade request lapses.
pub const TRADE_REQUEST_TIMEOUT_SECS: u64 = 30;

/// A player's side of a trade: items as (item id, quantity) and an amount of strands.
#[derive(Debug, Clone)]
pub struct TradeOffer {
    pub items: Vec<(u128, i32)>,
    pub strands: i64,
}

/// The mathematical content of an offer.
#[verifier::ext_equal]
pub struct OfferView {
    pub items: Seq<(u128, i32)>,
    pub strands: i64,
}

impl View for TradeOffer {
    type V = OfferView;

    open spec fn view(&self) -> OfferView {
        OfferView { items: self.items@, strands: self.strands }
    }
}

/// The empty offer.
pub open spec fn empty_offer() -> OfferView {
    OfferView { items: Seq::empty(), strands: 0 }
}

/// A trade between two players. Times are milliseconds since the Unix epoch.
#[derive(Debug, Clone)]
pub struct TradeSession {
    pub id: u128,
    pub player_a: u128,
    pub player_b: u128,
    pub offer_a: TradeOffer,
    pub offer_b: TradeOffer,
    pub accepted_a: bool,
    pub accepted_b: bool,
    pub created_at: u64,
}

/// The mathematical content of a trade session.
#[verifier::ext_equal]
pub struct SessionView {
    pub id: u128,
    pub player_a: u128,
    pub player_b: u128,
    pub offer_a: OfferView,
    pub offer_b: OfferView,
    pub accepted_a: bool,
    pub accepted_b: bool,
    pub created_at: u64,
}

impl View for TradeSession {
    type V = SessionView;

    open spec fn view(&self) -> SessionView {
        SessionView {
            id: self.id,
            player_a: self.player_a,
            player_b: self.player_b,
            offer_a: self.offer_a@,
            offer_b: self.offer_b@,
            accepted_a: self.accepted_a,
            accepted_b: self.accepted_b,
            created_at: self.created_at,
        }
    }
}

/// A fresh session: empty offers, nobody has accepted.
pub open spec fn fresh_session(id: u128, a: u128, b: u128, now: u64) -> SessionView {
    SessionView {
        id,
        player_a: a,
        player_b: b,
        offer_a: empty_offer(),
        offer_b: empty_offer(),
        accepted_a: false,
        accepted_b: false,
        created_at: now,
    }
}

/// `p` is one of the two traders.
pub open spec fn in_session(s: SessionView, p: u128) -> bool {
    p == s.player_a || p == s.player_b
}

/// Sets `p`'s accepted flag (player A is checked first); other players change nothing.
pub open spec fn session_set_accepted(s: SessionView, p: u128, accepted: bool) -> SessionView {
    if p == s.player_a {
        SessionView { accepted_a: accepted, ..s }
    } else if p == s.player_b {
        SessionView { accepted_b: accepted, ..s }
    } else {
        s
    }
}

/// Replaces `p`'s offer and withdraws both acceptances.
pub open spec fn session_update_offer(
    s: SessionView,
    p: u128,
    items: Seq<(u128, i32)>,
    strands: i64,
) -> SessionView {
    let o = OfferView { items, strands };
    let s1 = if p == s.player_a {
        SessionView { offer_a: o, ..s }
    } else if p == s.player_b {
        SessionView { offer_b: o, ..s }
    } else {
        s
    };
    SessionView { accepted_a: false, accepted_b: false, ..s1 }
}

/// Both traders have accepted.
pub open spec fn session_both_accepted(s: SessionView) -> bool {
    s.accepted_a && s.accepted_b
}

/// Wrapper: the current time in milliseconds since the Unix epoch (0 if the clock reads earlier).
/// Trusted: calls `std::time::SystemTime::elapsed` on the epoch; the time is not stated.
#[verifier::external_body]
pub(crate) fn current_time_millis() -> u64 {
    match std::time::UNIX_EPOCH.elapsed() {
        Ok(d) => d.as_millis() as u64,
        Err(_) => 0,
    }
}

impl TradeOffer {
    /// The empty offer.
    pub fn new() -> (r: TradeOffer)
        ensures
            r@ == empty_offer(),
    {
        TradeOffer { items: Vec::new(), strands: 0 }
    }

    /// Withdraws all items and strands from the offer.
    pub fn clear(&mut self)
        ensures
            final(self)@ == empty_offer(),
    {
        self.items.clear();
        self.strands = 0;
    }

    /// An element-by-element copy of the offer.
    pub fn duplicate(&self) -> (r: TradeOffer)
        ensures
            r@ == self@,
    {
        let mut items: Vec<(u128, i32)> = Vec::new();
        let mut n: usize = 0;
        while n < self.items.len()
            invariant
                n <= self.items@.len(),
                items@ == self.items@.subrange(0, n as int),
            decreases self.items.len() - n,
        {
            items.push(self.items[n]);
            n = n + 1;
            assert(items@ =~= self.items@.subrange(0, n as int));
        }
        assert(items@ =~= self.items@);
        TradeOffer { items, strands: self.strands }
    }
}

impl TradeSession {
    /// A new session between two players, with a fresh random id and the current time.
    pub fn new(player_a: u128, player_b: u128) -> (r: TradeSession)
        ensures
            r@ == fresh_session(r.id, player_a, player_b, r.created_at),
    {
        let id = new_random_id();
        let now = current_time_millis();
        TradeSession::create(id, player_a, player_b, now)
    }

    /// A new session with the given id and creation time.
    pub fn create(id: u128, player_a: u128, player_b: u128, created_at: u64) -> (r: TradeSession)
        ensures
            r@ == fresh_session(id, player_a, player_b, created_at),
    {
        TradeSession {
            id,
            player_a,
            player_b,
            offer_a: TradeOffer::new(),
            offer_b: TradeOffer::new(),
            accepted_a: false,
            accepted_b: false,
            created_at,
        }
    }

    /// A field-by-field copy of the session.
    pub fn duplicate(&self) -> (r: TradeSession)
        ensures
            r@ == self@,
    {
        TradeSession {
            id: self.id,
            player_a: self.player_a,
            player_b: self.player_b,
            offer_a: self.offer_a.duplicate(),
            offer_b: self.offer_b.duplicate(),
            accepted_a: self.accepted_a,
            accepted_b: self.accepted_b,
            created_at: self.created_at,
        }
    }

    /// The offer of a trader; `None` for anyone else.
    pub fn get_offer(&self, player_id: u128) -> (r: Option<&TradeOffer>)
        ensures
            player_id == self.player_a ==> r == Some(&self.offer_a),
            player_id != self.player_a && player_id == self.player_b ==> r == Some(&self.offer_b),
            !in_session(self@, player_id) ==> r is None,
    {
        if player_id == self.player_a {
            Some(&self.offer_a)
        } else if player_id == self.player_b {
            Some(&self.offer_b)
        } else {
            None
        }
    }

    /// The offer of a trader, to change in place; `None` for anyone else.
    pub fn get_offer_mut(&mut self, player_id: u128) -> (r: Option<&mut TradeOffer>)
        ensures
            player_id == old(self).player_a ==> match r {
                Some(o) => *o == old(self).offer_a && *final(self) == (TradeSession {
                    offer_a: *final(o),
                    ..*old(self)
                }),
                None => false,
            },
            player_id != old(self).player_a && player_id == old(self).player_b ==> match r {
                Some(o) => *o == old(self).offer_b && *final(self) == (TradeSession {
                    offer_b: *final(o),
                    ..*old(self)
                }),
                None => false,
            },
            !in_session(old(self)@, player_id) ==> r is None && *final(self) == *old(self),
    {
        if player_id == self.player_a {
            Some(&mut self.offer_a)
        } else if player_id == self.player_b {
            Some(&mut self.offer_b)
        } else {
            None
        }
    }

    /// Records whether a trader accepts the current offers.
    pub fn set_accepted(&mut self, player_id: u128, accepted: bool)
        ensures
            final(self)@ == session_set_accepted(old(self)@, player_id, accepted),
    {
        if player_id == self.player_a {
            self.accepted_a = accepted;
        } else if player_id == self.player_b {
            self.accepted_b = accepted;
        }
    }

    /// Whether a trader has accepted; `false` for anyone else.
    pub fn has_accepted(&self, player_id: u128) -> (r: bool)
        ensures
            r == (if player_id == self.player_a {
                self.accepted_a
            } else if player_id == self.player_b {
                self.accepted_b
            } else {
                false
            }),
    {
        if player_id == self.player_a {
            self.accepted_a
        } else if player_id == self.player_b {
            self.accepted_b
        } else {
            false
        }
    }

    /// Whether both traders have accepted.
    pub fn both_accepted(&self) -> (r: bool)
        ensures
            r == session_both_accepted(self@),
    {
        self.accepted_a && self.accepted_b
    }

    /// Withdraws both acceptances (done whenever an offer changes).
    pub fn reset_accepted(&mut self)
        ensures
            final(self)@ == (SessionView { accepted_a: false, accepted_b: false, ..old(self)@ }),
    {
        self.accepted_a = false;
        self.accepted_b = false;
    }

    /// The trading partner of a trader; `None` for anyone else.
    pub fn other_player(&self, player_id: u128) -> (r: Option<u128>)
        ensures
            r == (if player_id == self.player_a {
                Some(self.player_b)
            } else if player_id == self.player_b {
                Some(self.player_a)
            } else {
                None::<u128>
            }),
    {
        if player_id == self.player_a {
            Some(self.player_b)
        } else if player_id == self.player_b {
            Some(self.player_a)
        } else {
            None
        }
    }

    /// Whether a player is one of the two traders.
    pub fn has_player(&self, player_id: u128) -> (r: bool)
        ensures
            r == in_session(self@, player_id),
    {
        player_id == self.player_a || player_id == self.player_b
    }
}

} // verus!
