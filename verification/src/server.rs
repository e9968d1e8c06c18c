//! The two reducers of the game's module, as operations on the player table.
//!
//! The table is a plain list of rows in which no entity occurs twice.

use vstd::prelude::*;

verus! {

/// One row of the player table.
#[derive(Debug, Clone, PartialEq, Eq)]
pub struct PlayerComponent {
    pub entity_id: u64,
    pub owner_id: Vec<u8>,
    /// The input encodes all the moves/fire state of the player
    pub input: u8,
}

pub struct PlayerComponentView {
    pub entity_id: u64,
    pub owner_id: Seq<u8>,
    pub input: u8,
}

impl View for PlayerComponent {
    type V = PlayerComponentView;

    open spec fn view(&self) -> PlayerComponentView {
        PlayerComponentView { entity_id: self.entity_id, owner_id: self.owner_id@, input: self.input }
    }
}

/// The views of the rows of a table, in order.
pub open spec fn rows(table: Seq<PlayerComponent>) -> Seq<PlayerComponentView> {
    table.map_values(|row: PlayerComponent| row@)
}

/// No entity occurs twice.
pub open spec fn unique_entities(table: Seq<PlayerComponentView>) -> bool {
    forall|i: int, j: int|
        0 <= i < j < table.len() ==> (#[trigger] table[i]).entity_id != (
        #[trigger] table[j]).entity_id
}

/// Whether the table has a row for `entity_id`.
pub open spec fn has_entity(table: Seq<PlayerComponentView>, entity_id: u64) -> bool {
    exists|i: int| 0 <= i < table.len() && (#[trigger] table[i]).entity_id == entity_id
}

/// Where the row of `entity_id` stands in the table.
pub fn filter_by_entity_id(table: &Vec<PlayerComponent>, entity_id: u64) -> (r: Option<usize>)
    ensures
        match r {
            Some(i) => i < table.len() && table[i as int].entity_id == entity_id,
            None => !has_entity(rows(table@), entity_id),
        },
        r is Some <==> has_entity(rows(table@), entity_id),
{
    let mut i: usize = 0;
    while i < table.len()
        invariant
            i <= table.len(),
            forall|k: int| 0 <= k < i ==> (#[trigger] rows(table@)[k]).entity_id != entity_id,
        decreases table.len() - i,
    {
        if table[i].entity_id == entity_id {
            assert(rows(table@)[i as int].entity_id == entity_id);
            return Some(i);
        }
        i += 1;
    }
    None
}

/// Adds a player, unless the table has its entity already. Says whether the
/// player was added.
pub fn create_new_player(
    table: &mut Vec<PlayerComponent>,
    identity: Vec<u8>,
    _timestamp: u64,
    entity_id: u64,
    input: u8,
) -> (created: bool)
    requires
        unique_entities(rows(old(table)@)),
    ensures
        unique_entities(rows(final(table)@)),
        created == !has_entity(rows(old(table)@), entity_id),
        !created ==> rows(final(table)@) == rows(old(table)@),
        created ==> rows(final(table)@) == rows(old(table)@).push(
            PlayerComponentView { entity_id, owner_id: identity@, input },
        ),
{
    // Make sure this player doesn't already exist
    if filter_by_entity_id(table, entity_id).is_some() {
        false
    } else {
        let ghost before = rows(table@);
        table.push(PlayerComponent { entity_id, owner_id: identity, input });
        assert(rows(table@) =~= before.push(
            PlayerComponentView { entity_id, owner_id: identity@, input },
        ));
        true
    }
}

fn same_bytes(a: &Vec<u8>, b: &Vec<u8>) -> (r: bool)
    ensures
        r == (a@ == b@),
{
    if a.len() != b.len() {
        return false;
    }
    let mut i: usize = 0;
    while i < a.len()
        invariant
            i <= a.len(),
            a.len() == b.len(),
            forall|k: int| 0 <= k < i ==> a[k] == b[k],
        decreases a.len() - i,
    {
        if a[i] != b[i] {
            return false;
        }
        i += 1;
    }
    assert(a@ =~= b@);
    true
}

/// Sets the input of a player, and makes `identity` its owner whoever owned
/// it before. Says whether `identity` owned it before.
///
/// This is a game of two players: the entity must be at most 2, and it must
/// be in the table.
pub fn move_player(
    table: &mut Vec<PlayerComponent>,
    identity: Vec<u8>,
    entity_id: u64,
    input: u8,
) -> (owned: bool)
    requires
        entity_id <= 2,
        has_entity(rows(old(table)@), entity_id),
        unique_entities(rows(old(table)@)),
    ensures
        unique_entities(rows(final(table)@)),
        final(table).len() == old(table).len(),
        forall|i: int|
            0 <= i < old(table).len() ==> #[trigger] rows(final(table)@)[i] == (if rows(
                old(table)@,
            )[i].entity_id == entity_id {
                PlayerComponentView { entity_id, owner_id: identity@, input }
            } else {
                rows(old(table)@)[i]
            }),
        exists|i: int|
            0 <= i < old(table).len() && (#[trigger] rows(old(table)@)[i]).entity_id == entity_id
                && owned == (rows(old(table)@)[i].owner_id == identity@),
{
    let found = filter_by_entity_id(table, entity_id);
    let i = found.unwrap();
    let ghost before = rows(table@);
    // Make sure this identity owns this player
    let owned = same_bytes(&table[i].owner_id, &identity);
    table[i] = PlayerComponent { entity_id, owner_id: identity, input };
    proof {
        let after = rows(table@);
        assert(before[i as int].entity_id == entity_id);
        assert forall|k: int| 0 <= k < before.len() implies #[trigger] after[k] == (if before[k].entity_id
            == entity_id {
            PlayerComponentView { entity_id, owner_id: identity@, input }
        } else {
            before[k]
        }) by {
            if k != i {
                if k < i {
                    assert(before[k].entity_id != before[i as int].entity_id);
                } else {
                    assert(before[i as int].entity_id != before[k].entity_id);
                }
            }
        }
        assert forall|a: int, b: int| 0 <= a < b < after.len() implies (#[trigger] after[a]).entity_id
            != (#[trigger] after[b]).entity_id by {
            assert(after[a].entity_id == before[a].entity_id);
            assert(after[b].entity_id == before[b].entity_id);
        }
    }
    owned
}

} // verus!
