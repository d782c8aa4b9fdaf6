use vstd::prelude::*;

use crate::text::str_eq;

verus! {

/// The concentric rings of the world, from the Capitol at the centre outwards.
#[derive(Debug, Clone, Copy, PartialEq, Eq, Structural)]
pub enum Zone {
    Capitol,
    TradeDistrict,
    GuildDistrict,
    Urban,
    Suburban,
    Rural,
    Wilderness,
}

/// A player's move from one zone into another.
#[derive(Debug, Clone)]
pub struct ZoneTransition {
    pub from_zone: String,
    pub to_zone: String,
}

/// The identifier under which a zone is stored.
pub open spec fn zone_id(z: Zone) -> Seq<char> {
    match z {
        Zone::Capitol => "capitol"@,
        Zone::TradeDistrict => "trade_district"@,
        Zone::GuildDistrict => "guild_district"@,
        Zone::Urban => "urban"@,
        Zone::Suburban => "suburban"@,
        Zone::Rural => "rural"@,
        Zone::Wilderness => "wilderness"@,
    }
}

/// The zone whose identifier is `s`, if any.
pub open spec fn zone_from_id(s: Seq<char>) -> Option<Zone> {
    if s == "capitol"@ {
        Some(Zone::Capitol)
    } else if s == "trade_district"@ {
        Some(Zone::TradeDistrict)
    } else if s == "guild_district"@ {
        Some(Zone::GuildDistrict)
    } else if s == "urban"@ {
        Some(Zone::Urban)
    } else if s == "suburban"@ {
        Some(Zone::Suburban)
    } else if s == "rural"@ {
        Some(Zone::Rural)
    } else if s == "wilderness"@ {
        Some(Zone::Wilderness)
    } else {
        None
    }
}

/// The name shown to players.
pub open spec fn zone_display_name(z: Zone) -> Seq<char> {
    match z {
        Zone::Capitol => "The Capitol"@,
        Zone::TradeDistrict => "Trade District"@,
        Zone::GuildDistrict => "Guild District"@,
        Zone::Urban => "Urban Zone"@,
        Zone::Suburban => "Suburban Zone"@,
        Zone::Rural => "Rural Zone"@,
        Zone::Wilderness => "Wilderness"@,
    }
}

/// Position of a zone counted from the centre (the Capitol is ring 0).
pub open spec fn zone_ring(z: Zone) -> nat {
    match z {
        Zone::Capitol => 0,
        Zone::TradeDistrict => 1,
        Zone::GuildDistrict => 2,
        Zone::Urban => 3,
        Zone::Suburban => 4,
        Zone::Rural => 5,
        Zone::Wilderness => 6,
    }
}

/// Inner and outer radius of a zone's ring, in world units.
pub open spec fn zone_radii(z: Zone) -> (int, int) {
    match z {
        Zone::Capitol => (0, 200),
        Zone::TradeDistrict => (200, 600),
        Zone::GuildDistrict => (600, 1000),
        Zone::Urban => (1000, 1600),
        Zone::Suburban => (1600, 2400),
        Zone::Rural => (2400, 3400),
        Zone::Wilderness => (3400, 4000),
    }
}

/// Whether private plots can be bought in a zone.
pub open spec fn zone_has_plots(z: Zone) -> bool {
    match z {
        Zone::GuildDistrict | Zone::Urban | Zone::Suburban | Zone::Rural => true,
        _ => false,
    }
}

/// All zones, from the centre to the edge of the world.
pub open spec fn zones_in_order() -> Seq<Zone> {
    seq![
        Zone::Capitol,
        Zone::TradeDistrict,
        Zone::GuildDistrict,
        Zone::Urban,
        Zone::Suburban,
        Zone::Rural,
        Zone::Wilderness,
    ]
}

impl Zone {
    /// The zone identifier as stored in the database.
    pub fn as_str(&self) -> (r: &'static str)
        ensures
            r@ == zone_id(*self),
    {
        match self {
            Zone::Capitol => "capitol",
            Zone::TradeDistrict => "trade_district",
            Zone::GuildDistrict => "guild_district",
            Zone::Urban => "urban",
            Zone::Suburban => "suburban",
            Zone::Rural => "rural",
            Zone::Wilderness => "wilderness",
        }
    }

    /// Parses a zone identifier; unknown identifiers give `None`.
    pub fn from_str(s: &str) -> (r: Option<Zone>)
        ensures
            r == zone_from_id(s@),
    {
        if str_eq(s, "capitol") {
            Some(Zone::Capitol)
        } else if str_eq(s, "trade_district") {
            Some(Zone::TradeDistrict)
        } else if str_eq(s, "guild_district") {
            Some(Zone::GuildDistrict)
        } else if str_eq(s, "urban") {
            Some(Zone::Urban)
        } else if str_eq(s, "suburban") {
            Some(Zone::Suburban)
        } else if str_eq(s, "rural") {
            Some(Zone::Rural)
        } else if str_eq(s, "wilderness") {
            Some(Zone::Wilderness)
        } else {
            None
        }
    }

    /// The name shown to players.
    pub fn display_name(&self) -> (r: &'static str)
        ensures
            r@ == zone_display_name(*self),
    {
        match self {
            Zone::Capitol => "The Capitol",
            Zone::TradeDistrict => "Trade District",
            Zone::GuildDistrict => "Guild District",
            Zone::Urban => "Urban Zone",
            Zone::Suburban => "Suburban Zone",
            Zone::Rural => "Rural Zone",
            Zone::Wilderness => "Wilderness",
        }
    }

    /// Whether private plots can be bought in this zone.
    pub fn has_plots(&self) -> (r: bool)
        ensures
            r == zone_has_plots(*self),
    {
        match self {
            Zone::GuildDistrict | Zone::Urban | Zone::Suburban | Zone::Rural => true,
            _ => false,
        }
    }

    /// Ring position counted from the centre (0 is the Capitol).
    pub fn ring_order(&self) -> (r: u8)
        ensures
            r == zone_ring(*self),
    {
        match self {
            Zone::Capitol => 0,
            Zone::TradeDistrict => 1,
            Zone::GuildDistrict => 2,
            Zone::Urban => 3,
            Zone::Suburban => 4,
            Zone::Rural => 5,
            Zone::Wilderness => 6,
        }
    }

    /// Inner and outer radius of this zone's ring, in world units.
    pub fn radii(&self) -> (r: (u32, u32))
        ensures
            r.0 == zone_radii(*self).0,
            r.1 == zone_radii(*self).1,
    {
        match self {
            Zone::Capitol => (0, 200),
            Zone::TradeDistrict => (200, 600),
            Zone::GuildDistrict => (600, 1000),
            Zone::Urban => (1000, 1600),
            Zone::Suburban => (1600, 2400),
            Zone::Rural => (2400, 3400),
            Zone::Wilderness => (3400, 4000),
        }
    }

    /// All zones in order from the centre to the edge.
    pub fn all() -> (r: Vec<Zone>)
        ensures
            r@ == zones_in_order(),
    {
        let mut v: Vec<Zone> = Vec::new();
        v.push(Zone::Capitol);
        v.push(Zone::TradeDistrict);
        v.push(Zone::GuildDistrict);
        v.push(Zone::Urban);
        v.push(Zone::Suburban);
        v.push(Zone::Rural);
        v.push(Zone::Wilderness);
        v
    }
}

/// Every zone's identifier parses back to that zone, so no two zones share an identifier.
pub proof fn lemma_zone_id_round_trip(z: Zone)
    ensures
        zone_from_id(zone_id(z)) == Some(z),
{
    reveal_strlit("capitol");
    reveal_strlit("trade_district");
    reveal_strlit("guild_district");
    reveal_strlit("urban");
    reveal_strlit("suburban");
    reveal_strlit("rural");
    reveal_strlit("wilderness");
    assert("capitol"@.len() == 7 && "trade_district"@.len() == 14 && "guild_district"@.len()
        == 14);
    assert("urban"@.len() == 5 && "suburban"@.len() == 8 && "rural"@.len() == 5);
    assert("wilderness"@.len() == 10);
    assert("trade_district"@[0] != "guild_district"@[0]);
    assert("urban"@[0] != "rural"@[0]);
}

/// Any identifier that parses names a zone whose identifier is exactly that text.
pub proof fn lemma_zone_from_id_sound(s: Seq<char>)
    ensures
        zone_from_id(s) matches Some(z) ==> zone_id(z) == s,
{
}

/// The list of zones runs from the centre outwards: the zone at position `i` is ring `i`,
/// and each ring begins where the previous one ends.
pub proof fn lemma_zones_ordered_and_contiguous()
    ensures
        zones_in_order().len() == 7,
        forall|i: int| 0 <= i < 7 ==> zone_ring(#[trigger] zones_in_order()[i]) == i,
        forall|i: int|
            0 <= i < 6 ==> zone_radii(#[trigger] zones_in_order()[i]).1 == zone_radii(
                zones_in_order()[i + 1],
            ).0,
        zone_radii(zones_in_order()[0]).0 == 0,
{
}

/// Plots exist exactly in the four middle rings (Guild District to Rural).
pub proof fn lemma_plots_in_middle_rings(z: Zone)
    ensures
        zone_has_plots(z) <==> (2 <= zone_ring(z) && zone_ring(z) <= 5),
{
}

/// The rings' boundaries from the centre outwards are 0, 200, 600, 1000, 1600, 2400, 3400 and
/// 4000 world units: the zone `i`-th from the centre spans from the `i`-th boundary to the next.
pub proof fn lemma_zone_ring_boundaries()
    ensures
        forall|z: Zone|
            #![trigger zone_radii(z)]
            zone_radii(z) == ({
                let b = seq![0int, 200, 600, 1000, 1600, 2400, 3400, 4000];
                (b[zone_ring(z) as int], b[zone_ring(z) as int + 1])
            }),
        forall|i: int|
            0 <= i < 7 ==> #[trigger] zone_radii(zones_in_order()[i]) == ({
                let b = seq![0int, 200, 600, 1000, 1600, 2400, 3400, 4000];
                (b[i], b[i + 1])
            }),
{
    assert forall|z: Zone|
        #![trigger zone_radii(z)]
        zone_radii(z) == ({
            let b = seq![0int, 200, 600, 1000, 1600, 2400, 3400, 4000];
            (b[zone_ring(z) as int], b[zone_ring(z) as int + 1])
        }) by {
        match z {
            Zone::Capitol => {},
            Zone::TradeDistrict => {},
            Zone::GuildDistrict => {},
            Zone::Urban => {},
            Zone::Suburban => {},
            Zone::Rural => {},
            Zone::Wilderness => {},
        }
    }
}

} // verus!
