use vstd::prelude::*;

verus! {

/// The letter grade shown for a quality value.
pub open spec fn grade_of(quality: int) -> Seq<char> {
    if 90 <= quality <= 100 {
        "A"@
    } else if 75 <= quality <= 89 {
        "B"@
    } else if 55 <= quality <= 74 {
        "C"@
    } else if 35 <= quality <= 54 {
        "D"@
    } else {
        "F"@
    }
}

/// Rank of the grade of a quality value: 4 for A down to 0 for F.
pub open spec fn grade_rank(quality: int) -> int {
    if 90 <= quality <= 100 {
        4
    } else if 75 <= quality <= 89 {
        3
    } else if 55 <= quality <= 74 {
        2
    } else if 35 <= quality <= 54 {
        1
    } else {
        0
    }
}

/// Converts a quality (0-100) to its letter grade.
pub fn quality_to_grade(quality: i32) -> (r: String)
    ensures
        r@ == grade_of(quality as int),
{
    if 90 <= quality && quality <= 100 {
        "A".to_owned()
    } else if 75 <= quality && quality <= 89 {
        "B".to_owned()
    } else if 55 <= quality && quality <= 74 {
        "C".to_owned()
    } else if 35 <= quality && quality <= 54 {
        "D".to_owned()
    } else {
        "F".to_owned()
    }
}

/// Within the quality scale 0-100 a higher quality never earns a lower grade.
pub proof fn lemma_grade_monotone(q1: int, q2: int)
    requires
        0 <= q1 <= q2 <= 100,
    ensures
        grade_rank(q1) <= grade_rank(q2),
{
}

/// The grade letter is determined by the grade rank, and distinct ranks give distinct letters.
pub proof fn lemma_grade_follows_rank(q1: int, q2: int)
    ensures
        (grade_of(q1) == grade_of(q2)) <==> (grade_rank(q1) == grade_rank(q2)),
{
    reveal_strlit("A");
    reveal_strlit("B");
    reveal_strlit("C");
    reveal_strlit("D");
    reveal_strlit("F");
    assert("A"@[0] != "B"@[0] && "A"@[0] != "C"@[0] && "A"@[0] != "D"@[0] && "A"@[0] != "F"@[0]);
    assert("B"@[0] != "C"@[0] && "B"@[0] != "D"@[0] && "B"@[0] != "F"@[0]);
    assert("C"@[0] != "D"@[0] && "C"@[0] != "F"@[0] && "D"@[0] != "F"@[0]);
}

/// An item instance as stored: what the inventory logic reads of it.
#[derive(Debug, Clone)]
pub struct Item {
    pub id: u128,
    pub item_type: String,
    pub quality: i32,
    pub quantity: i32,
    pub owner_id: Option<u128>,
    pub container_id: Option<u128>,
    pub slot_index: Option<i32>,
}

/// An inventory entry as shown to a player.
#[derive(Debug, Clone)]
pub struct InventoryItem {
    pub id: u128,
    pub item_type: String,
    pub name: String,
    pub quality: i32,
    pub quality_grade: String,
    pub quantity: i32,
}

impl InventoryItem {
    /// Builds the player-facing entry for an item, with its display name and grade.
    pub fn from_item(item: &Item, item_type_name: &str) -> (r: InventoryItem)
        ensures
            r.id == item.id,
            r.item_type == item.item_type,
            r.name@ == item_type_name@,
            r.quality == item.quality,
            r.quality_grade@ == grade_of(item.quality as int),
            r.quantity == item.quantity,
    {
        InventoryItem {
            id: item.id,
            item_type: item.item_type.clone(),
            name: item_type_name.to_owned(),
            quality: item.quality,
            quality_grade: quality_to_grade(item.quality),
            quantity: item.quantity,
        }
    }
}

/// A kind of item: what the logic reads of an item type definition.
#[derive(Debug, Clone)]
pub struct ItemType {
    pub id: String,
    pub name: String,
    pub category: String,
    pub stackable: bool,
}

/// The display name of an item type: the name of the first definition with that id, or the id
/// itself when there is none.
pub open spec fn item_type_name(types: Seq<ItemType>, id: Seq<char>) -> Seq<char>
    decreases types.len(),
{
    if types.len() == 0 {
        id
    } else if types[0].id@ == id {
        types[0].name@
    } else {
        item_type_name(types.drop_first(), id)
    }
}

/// The display name of an item type (its id where no definition has it).
pub fn lookup_item_name(types: &Vec<ItemType>, id: &String) -> (r: String)
    ensures
        r@ == item_type_name(types@, id@),
{
    let mut n: usize = 0;
    assert(types@.subrange(0, types@.len() as int) =~= types@);
    while n < types.len()
        invariant
            n <= types@.len(),
            item_type_name(types@, id@) == item_type_name(
                types@.subrange(n as int, types@.len() as int),
                id@,
            ),
        decreases types.len() - n,
    {
        assert(types@.subrange(n as int, types@.len() as int).drop_first() =~= types@.subrange(
            n + 1,
            types@.len() as int,
        ));
        if types[n].id == *id {
            return types[n].name.clone();
        }
        n = n + 1;
    }
    id.clone()
}

} // verus!
