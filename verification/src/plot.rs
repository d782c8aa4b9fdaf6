use vstd::prelude::*;

use crate::text::str_eq;

verus! {

/// Who may do something on a plot.
#[derive(Debug, Clone, Copy, PartialEq, Eq, Structural)]
pub enum PermissionLevel {
    Public,
    Friends,
    Guild,
    Owner,
}

/// The stored name of a permission level.
pub open spec fn permission_name(l: PermissionLevel) -> Seq<char> {
    match l {
        PermissionLevel::Public => "public"@,
        PermissionLevel::Friends => "friends"@,
        PermissionLevel::Guild => "guild"@,
        PermissionLevel::Owner => "owner"@,
    }
}

/// The permission level stored under a name, if any.
pub open spec fn permission_from_name(s: Seq<char>) -> Option<PermissionLevel> {
    if s == "public"@ {
        Some(PermissionLevel::Public)
    } else if s == "friends"@ {
        Some(PermissionLevel::Friends)
    } else if s == "guild"@ {
        Some(PermissionLevel::Guild)
    } else if s == "owner"@ {
        Some(PermissionLevel::Owner)
    } else {
        None
    }
}

impl PermissionLevel {
    /// The stored name of this level.
    pub fn as_str(&self) -> (r: &'static str)
        ensures
            r@ == permission_name(*self),
    {
        match self {
            PermissionLevel::Public => "public",
            PermissionLevel::Friends => "friends",
            PermissionLevel::Guild => "guild",
            PermissionLevel::Owner => "owner",
        }
    }

    /// Parses a stored level name; unknown names give `None`.
    pub fn from_str(s: &str) -> (r: Option<PermissionLevel>)
        ensures
            r == permission_from_name(s@),
    {
        if str_eq(s, "public") {
            Some(PermissionLevel::Public)
        } else if str_eq(s, "friends") {
            Some(PermissionLevel::Friends)
        } else if str_eq(s, "guild") {
            Some(PermissionLevel::Guild)
        } else if str_eq(s, "owner") {
            Some(PermissionLevel::Owner)
        } else {
            None
        }
    }
}

/// Every level's name parses back to that level.
pub proof fn lemma_permission_round_trip(l: PermissionLevel)
    ensures
        permission_from_name(permission_name(l)) == Some(l),
{
    reveal_strlit("public");
    reveal_strlit("friends");
    reveal_strlit("guild");
    reveal_strlit("owner");
    assert("public"@.len() == 6 && "friends"@.len() == 7 && "guild"@.len() == 5 && "owner"@.len()
        == 5);
    assert("guild"@[0] != "owner"@[0]);
}

/// Who may enter a plot, see, use and modify what is on it.
#[derive(Debug, Clone)]
pub struct PlotPermissions {
    pub plot_id: u128,
    pub entry_level: String,
    pub visibility_level: String,
    pub station_use_level: String,
    pub modify_level: String,
}

impl Default for PlotPermissions {
    /// The permissions a newly claimed plot starts with: anyone may enter and look, only the
    /// owner may use stations or modify it.
    fn default() -> (r: PlotPermissions)
        ensures
            r.plot_id == 0,
            r.entry_level@ == "public"@,
            r.visibility_level@ == "public"@,
            r.station_use_level@ == "owner"@,
            r.modify_level@ == "owner"@,
    {
        PlotPermissions {
            plot_id: 0,
            entry_level: "public".to_owned(),
            visibility_level: "public".to_owned(),
            station_use_level: "owner".to_owned(),
            modify_level: "owner".to_owned(),
        }
    }
}

/// A change to a plot's permissions: each level that is given replaces the current one.
#[derive(Debug, Clone)]
pub struct UpdatePermissionsRequest {
    pub entry_level: Option<String>,
    pub visibility_level: Option<String>,
    pub station_use_level: Option<String>,
    pub modify_level: Option<String>,
}

/// The level after an update: the new one where given, the current one otherwise.
pub open spec fn updated_level(current: String, new: Option<String>) -> String {
    match new {
        Some(l) => l,
        None => current,
    }
}

/// The level after an update.
fn update_level(current: &String, new: &Option<String>) -> (r: String)
    ensures
        r == updated_level(*current, *new),
{
    match new {
        Some(l) => l.clone(),
        None => current.clone(),
    }
}

impl PlotPermissions {
    /// The permissions after an update: each level given in `req` replaces the current one.
    pub fn with_updates(&self, req: &UpdatePermissionsRequest) -> (r: PlotPermissions)
        ensures
            r.plot_id == self.plot_id,
            r.entry_level == updated_level(self.entry_level, req.entry_level),
            r.visibility_level == updated_level(self.visibility_level, req.visibility_level),
            r.station_use_level == updated_level(self.station_use_level, req.station_use_level),
            r.modify_level == updated_level(self.modify_level, req.modify_level),
    {
        PlotPermissions {
            plot_id: self.plot_id,
            entry_level: update_level(&self.entry_level, &req.entry_level),
            visibility_level: update_level(&self.visibility_level, &req.visibility_level),
            station_use_level: update_level(&self.station_use_level, &req.station_use_level),
            modify_level: update_level(&self.modify_level, &req.modify_level),
        }
    }
}

/// Whether a plot with this owner is owned at all.
pub fn is_owned(owner_id: Option<u128>) -> (r: bool)
    ensures
        r == owner_id is Some,
{
    owner_id.is_some()
}

/// Whether a plot with this owner belongs to `player_id`.
pub fn is_owned_by(owner_id: Option<u128>, player_id: u128) -> (r: bool)
    ensures
        r == (owner_id == Some(player_id)),
{
    owner_id == Some(player_id)
}

/// Checks a plot claim: the plot must be unclaimed and its zone must sell deeds; the result is
/// the deed price.
pub fn check_claim(owner_id: Option<u128>, deed_cost: Option<i32>) -> (r: Result<i32, String>)
    ensures
        r is Ok <==> (owner_id is None && deed_cost is Some),
        r matches Ok(c) ==> deed_cost == Some(c),
        owner_id is Some ==> (r matches Err(e) && e@ == "Plot is already claimed"@),
        owner_id is None && deed_cost is None ==> (r matches Err(e) && e@
            == "This zone does not allow plot ownership"@),
{
    if owner_id.is_some() {
        return Err("Plot is already claimed".to_owned());
    }
    match deed_cost {
        Some(c) => Ok(c),
        None => Err("This zone does not allow plot ownership".to_owned()),
    }
}

} // verus!
