//! Entities and the table that holds them.
//!
//! Every simulated object, a segment of a snake or a food, is an entity: a
//! role and a cell, stored in a slot of one table and known to the rest of
//! the world by the number of that slot. The predicates below say when a
//! table and the lists of entity numbers kept beside it fit together.

use vstd::prelude::*;
use crate::grid::{PlayerId, Position};

verus! {

/// What an entity is.
#[derive(Clone, Copy, PartialEq, Eq, Debug, Hash, Structural)]
pub enum Role {
    /// The head of a player's snake.
    Head(PlayerId),
    /// Any other segment of a player's snake.
    Body(PlayerId),
    /// A food.
    Food,
}

impl Role {
    /// Side of the square that shows an entity of this role, in hundredths
    /// of a cell: 80 for a head and for a food, 65 for a body segment.
    pub open spec fn spec_size_percent(self) -> u32 {
        match self {
            Role::Head(_) => 80,
            Role::Body(_) => 65,
            Role::Food => 80,
        }
    }

    /// Side of the square that shows an entity of this role, in hundredths
    /// of a cell.
    #[verifier::when_used_as_spec(spec_size_percent)]
    pub fn size_percent(self) -> (side: u32)
        ensures
            side == self.spec_size_percent(),
            0 < side <= 100,
    {
        match self {
            Role::Head(_) => 80,
            Role::Body(_) => 65,
            Role::Food => 80,
        }
    }
}

/// An entity: its role and the cell it occupies.
#[derive(Clone, Copy, PartialEq, Eq, Debug, Hash, Structural)]
pub struct Entity {
    pub role: Role,
    pub position: Position,
}

/// Signals that a snake has eaten a food.
#[derive(Clone, Copy, PartialEq, Eq, Debug, Hash, Structural)]
pub struct GrowthEvent;

/// Signals that a snake has died.
#[derive(Clone, Copy, PartialEq, Eq, Debug, Hash, Structural)]
pub struct GameOverEvent;

/// Slot `id` of the table holds an entity.
pub open spec fn live(table: Seq<Option<Entity>>, id: usize) -> bool {
    id < table.len() && table[id as int] is Some
}

/// Slot `id` of the table can take a new entity: it is empty, or it is the
/// slot right after the last.
pub open spec fn vacant(table: Seq<Option<Entity>>, id: usize) -> bool {
    id <= table.len() && !live(table, id)
}

/// The table after `entity` has been put into the vacant slot `id`.
pub open spec fn occupy(table: Seq<Option<Entity>>, id: usize, entity: Entity) -> Seq<
    Option<Entity>,
> {
    if id < table.len() {
        table.update(id as int, Some(entity))
    } else {
        table.push(Some(entity))
    }
}

pub open spec fn role_at(table: Seq<Option<Entity>>, id: usize) -> Role {
    table[id as int]->0.role
}

pub open spec fn cell_at(table: Seq<Option<Entity>>, id: usize) -> Position {
    table[id as int]->0.position
}

/// The cells of the entities `ids`, in the order of `ids`.
pub open spec fn cells(table: Seq<Option<Entity>>, ids: Seq<usize>) -> Seq<Position> {
    Seq::new(ids.len(), |i: int| cell_at(table, ids[i]))
}

/// The slot holds a segment of `player`'s snake.
pub open spec fn owned_by(slot: Option<Entity>, player: PlayerId) -> bool {
    slot is Some && (slot->0.role == Role::Head(player) || slot->0.role == Role::Body(player))
}

/// The slot holds a food.
pub open spec fn holds_food(slot: Option<Entity>) -> bool {
    slot is Some && slot->0.role == Role::Food
}

/// The role of the segment at place `i` of `player`'s snake.
pub open spec fn segment_role(player: PlayerId, i: int) -> Role {
    if i == 0 {
        Role::Head(player)
    } else {
        Role::Body(player)
    }
}

/// `ids` lists segments of `player`'s snake, head first: each is live and
/// has the role of its place, and none occurs twice.
pub open spec fn segments_ok(table: Seq<Option<Entity>>, ids: Seq<usize>, player: PlayerId) -> bool {
    &&& forall|i: int|
        0 <= i < ids.len() ==> live(table, #[trigger] ids[i]) && role_at(table, ids[i])
            == segment_role(player, i)
    &&& ids.no_duplicates()
}

/// `ids` lists foods: each is live, is a food and lies inside the arena,
/// and none occurs twice.
pub open spec fn food_ok(table: Seq<Option<Entity>>, ids: Seq<usize>) -> bool {
    &&& forall|i: int|
        0 <= i < ids.len() ==> live(table, #[trigger] ids[i]) && role_at(table, ids[i])
            == Role::Food && cell_at(table, ids[i]).in_arena()
    &&& ids.no_duplicates()
}

/// Every live entity is listed where its role says: a segment of `player`
/// in `mine`, a segment of the other player in `theirs`, a food in `food`.
pub open spec fn all_listed(
    table: Seq<Option<Entity>>,
    player: PlayerId,
    mine: Seq<usize>,
    theirs: Seq<usize>,
    food: Seq<usize>,
) -> bool {
    forall|id: usize| #[trigger]
        live(table, id) ==> {
            &&& owned_by(table[id as int], player) ==> mine.contains(id)
            &&& owned_by(table[id as int], player.spec_other()) ==> theirs.contains(id)
            &&& holds_food(table[id as int]) ==> food.contains(id)
        }
}

/// The table and the three lists fit together: the live entities are
/// exactly the listed ones, each with the role of its list, and no entity is
/// listed twice.
pub open spec fn table_ok(
    table: Seq<Option<Entity>>,
    player: PlayerId,
    mine: Seq<usize>,
    theirs: Seq<usize>,
    food: Seq<usize>,
) -> bool {
    &&& segments_ok(table, mine, player)
    &&& segments_ok(table, theirs, player.spec_other())
    &&& food_ok(table, food)
    &&& all_listed(table, player, mine, theirs, food)
}

/// Which player is called "mine" does not matter.
pub proof fn lemma_table_ok_symmetric(
    table: Seq<Option<Entity>>,
    player: PlayerId,
    mine: Seq<usize>,
    theirs: Seq<usize>,
    food: Seq<usize>,
)
    requires
        table_ok(table, player, mine, theirs, food),
    ensures
        table_ok(table, player.spec_other(), theirs, mine, food),
{
    assert(player.spec_other().spec_other() == player);
}

/// The entities of one list are not in another.
pub proof fn lemma_lists_disjoint(
    table: Seq<Option<Entity>>,
    player: PlayerId,
    mine: Seq<usize>,
    theirs: Seq<usize>,
    food: Seq<usize>,
)
    requires
        table_ok(table, player, mine, theirs, food),
    ensures
        forall|i: int, j: int|
            0 <= i < mine.len() && 0 <= j < theirs.len() ==> #[trigger] mine[i]
                != #[trigger] theirs[j],
        forall|i: int, j: int|
            0 <= i < mine.len() && 0 <= j < food.len() ==> #[trigger] mine[i]
                != #[trigger] food[j],
        forall|i: int, j: int|
            0 <= i < theirs.len() && 0 <= j < food.len() ==> #[trigger] theirs[i]
                != #[trigger] food[j],
{
}

/// Putting a new segment of `player` into a vacant slot and appending it to
/// `mine` keeps table and lists fitting, if the segment has the role of the
/// place it is appended at.
pub proof fn lemma_occupy_segment(
    table: Seq<Option<Entity>>,
    player: PlayerId,
    mine: Seq<usize>,
    theirs: Seq<usize>,
    food: Seq<usize>,
    id: usize,
    entity: Entity,
)
    requires
        table_ok(table, player, mine, theirs, food),
        vacant(table, id),
        entity.role == segment_role(player, mine.len() as int),
    ensures
        table_ok(occupy(table, id, entity), player, mine.push(id), theirs, food),
        cells(occupy(table, id, entity), mine.push(id)) == cells(table, mine).push(
            entity.position,
        ),
        cells(occupy(table, id, entity), theirs) == cells(table, theirs),
        cells(occupy(table, id, entity), food) == cells(table, food),
{
    let after = occupy(table, id, entity);
    let grown = mine.push(id);
    assert forall|i: int| 0 <= i < mine.len() implies mine[i] != id by {
        assert(live(table, mine[i]));
    }
    assert forall|i: int| 0 <= i < theirs.len() implies theirs[i] != id by {
        assert(live(table, theirs[i]));
    }
    assert forall|i: int| 0 <= i < food.len() implies food[i] != id by {
        assert(live(table, food[i]));
    }
    assert forall|i: int| 0 <= i < grown.len() implies live(after, #[trigger] grown[i])
        && role_at(after, grown[i]) == segment_role(player, i) by {
        if i < mine.len() {
            assert(grown[i] == mine[i]);
            assert(live(table, mine[i]));
        }
    }
    assert forall|i: int| 0 <= i < theirs.len() implies live(after, #[trigger] theirs[i])
        && role_at(after, theirs[i]) == segment_role(player.spec_other(), i) by {
        assert(live(table, theirs[i]));
    }
    assert forall|i: int| 0 <= i < food.len() implies live(after, #[trigger] food[i]) && role_at(
        after,
        food[i],
    ) == Role::Food && cell_at(after, food[i]).in_arena() by {
        assert(live(table, food[i]));
    }
    assert forall|id2: usize| #[trigger] live(after, id2) implies {
        &&& owned_by(after[id2 as int], player) ==> grown.contains(id2)
        &&& owned_by(after[id2 as int], player.spec_other()) ==> theirs.contains(id2)
        &&& holds_food(after[id2 as int]) ==> food.contains(id2)
    } by {
        if id2 == id {
            assert(grown[mine.len() as int] == id);
        } else {
            assert(live(table, id2));
            assert(after[id2 as int] == table[id2 as int]);
            if owned_by(table[id2 as int], player) {
                let k = choose|k: int| 0 <= k < mine.len() && mine[k] == id2;
                assert(grown[k] == id2);
            }
        }
    }
    assert(cells(after, grown) =~= cells(table, mine).push(entity.position));
    assert(cells(after, theirs) =~= cells(table, theirs));
    assert(cells(after, food) =~= cells(table, food));
}

/// Putting a new food that lies inside the arena into a vacant slot and
/// appending it to `food` keeps table and lists fitting.
pub proof fn lemma_occupy_food(
    table: Seq<Option<Entity>>,
    player: PlayerId,
    mine: Seq<usize>,
    theirs: Seq<usize>,
    food: Seq<usize>,
    id: usize,
    entity: Entity,
)
    requires
        table_ok(table, player, mine, theirs, food),
        vacant(table, id),
        entity.role == Role::Food,
        entity.position.in_arena(),
    ensures
        table_ok(occupy(table, id, entity), player, mine, theirs, food.push(id)),
        cells(occupy(table, id, entity), food.push(id)) == cells(table, food).push(
            entity.position,
        ),
        cells(occupy(table, id, entity), mine) == cells(table, mine),
        cells(occupy(table, id, entity), theirs) == cells(table, theirs),
{
    let after = occupy(table, id, entity);
    let more = food.push(id);
    assert forall|i: int| 0 <= i < mine.len() implies mine[i] != id by {
        assert(live(table, mine[i]));
    }
    assert forall|i: int| 0 <= i < theirs.len() implies theirs[i] != id by {
        assert(live(table, theirs[i]));
    }
    assert forall|i: int| 0 <= i < food.len() implies food[i] != id by {
        assert(live(table, food[i]));
    }
    assert forall|i: int| 0 <= i < mine.len() implies live(after, #[trigger] mine[i]) && role_at(
        after,
        mine[i],
    ) == segment_role(player, i) by {
        assert(live(table, mine[i]));
    }
    assert forall|i: int| 0 <= i < theirs.len() implies live(after, #[trigger] theirs[i])
        && role_at(after, theirs[i]) == segment_role(player.spec_other(), i) by {
        assert(live(table, theirs[i]));
    }
    assert forall|i: int| 0 <= i < more.len() implies live(after, #[trigger] more[i]) && role_at(
        after,
        more[i],
    ) == Role::Food && cell_at(after, more[i]).in_arena() by {
        if i < food.len() {
            assert(more[i] == food[i]);
            assert(live(table, food[i]));
        }
    }
    assert forall|id2: usize| #[trigger] live(after, id2) implies {
        &&& owned_by(after[id2 as int], player) ==> mine.contains(id2)
        &&& owned_by(after[id2 as int], player.spec_other()) ==> theirs.contains(id2)
        &&& holds_food(after[id2 as int]) ==> more.contains(id2)
    } by {
        if id2 == id {
            assert(more[food.len() as int] == id);
        } else {
            assert(live(table, id2));
            assert(after[id2 as int] == table[id2 as int]);
            if holds_food(table[id2 as int]) {
                let k = choose|k: int| 0 <= k < food.len() && food[k] == id2;
                assert(more[k] == id2);
            }
        }
    }
    assert(cells(after, more) =~= cells(table, food).push(entity.position));
    assert(cells(after, mine) =~= cells(table, mine));
    assert(cells(after, theirs) =~= cells(table, theirs));
}

/// Moving the segments of `player` to the cells `target`, with nothing else
/// in the table touched, keeps table and lists fitting and moves no other
/// entity.
pub proof fn lemma_rewrite_segments(
    table: Seq<Option<Entity>>,
    after: Seq<Option<Entity>>,
    player: PlayerId,
    mine: Seq<usize>,
    theirs: Seq<usize>,
    food: Seq<usize>,
    target: Seq<Position>,
)
    requires
        table_ok(table, player, mine, theirs, food),
        after.len() == table.len(),
        forall|id: int|
            0 <= id < table.len() && !owned_by(table[id], player) ==> #[trigger] after[id]
                == table[id],
        forall|id: int|
            0 <= id < table.len() && owned_by(table[id], player) ==> (#[trigger] after[id])
                is Some && after[id]->0.role == table[id]->0.role,
        target.len() == mine.len(),
        forall|j: int| 0 <= j < mine.len() ==> cell_at(after, #[trigger] mine[j]) == target[j],
    ensures
        table_ok(after, player, mine, theirs, food),
        cells(after, mine) == target,
        cells(after, theirs) == cells(table, theirs),
        cells(after, food) == cells(table, food),
{
    assert forall|i: int| 0 <= i < mine.len() implies live(after, #[trigger] mine[i]) && role_at(
        after,
        mine[i],
    ) == segment_role(player, i) by {
        assert(live(table, mine[i]));
        assert(owned_by(table[mine[i] as int], player));
    }
    assert forall|i: int| 0 <= i < theirs.len() implies live(after, #[trigger] theirs[i])
        && role_at(after, theirs[i]) == segment_role(player.spec_other(), i) && after[theirs[i] as int]
        == table[theirs[i] as int] by {
        assert(live(table, theirs[i]));
        assert(!owned_by(table[theirs[i] as int], player));
    }
    assert forall|i: int| 0 <= i < food.len() implies live(after, #[trigger] food[i]) && role_at(
        after,
        food[i],
    ) == Role::Food && cell_at(after, food[i]).in_arena() && after[food[i] as int]
        == table[food[i] as int] by {
        assert(live(table, food[i]));
        assert(!owned_by(table[food[i] as int], player));
    }
    assert forall|id: usize| #[trigger] live(after, id) implies {
        &&& owned_by(after[id as int], player) ==> mine.contains(id)
        &&& owned_by(after[id as int], player.spec_other()) ==> theirs.contains(id)
        &&& holds_food(after[id as int]) ==> food.contains(id)
    } by {
        if owned_by(table[id as int], player) {
            assert(live(table, id));
        } else {
            assert(after[id as int] == table[id as int]);
            assert(live(table, id));
        }
    }
    assert(cells(after, mine) =~= target);
    assert(cells(after, theirs) =~= cells(table, theirs));
    assert(cells(after, food) =~= cells(table, food));
}

/// Taking out of the table every food that lies on `cell`, and keeping in
/// `kept` the others, keeps table and lists fitting and moves no entity.
pub proof fn lemma_remove_food_on(
    table: Seq<Option<Entity>>,
    after: Seq<Option<Entity>>,
    player: PlayerId,
    mine: Seq<usize>,
    theirs: Seq<usize>,
    food: Seq<usize>,
    kept: Seq<usize>,
    cell: Position,
)
    requires
        table_ok(table, player, mine, theirs, food),
        after.len() == table.len(),
        forall|id: int|
            0 <= id < table.len() && !holds_food(table[id]) ==> #[trigger] after[id] == table[id],
        forall|j: int|
            0 <= j < food.len() ==> after[(#[trigger] food[j]) as int] == (if cell_at(
                table,
                food[j],
            ) == cell {
                None
            } else {
                table[food[j] as int]
            }),
        forall|k: int|
            0 <= k < kept.len() ==> food.contains(#[trigger] kept[k]) && cell_at(table, kept[k])
                != cell,
        forall|j: int|
            0 <= j < food.len() && cell_at(table, #[trigger] food[j]) != cell ==> kept.contains(
                food[j],
            ),
        kept.no_duplicates(),
    ensures
        table_ok(after, player, mine, theirs, kept),
        cells(after, mine) == cells(table, mine),
        cells(after, theirs) == cells(table, theirs),
        cells(after, kept) == cells(table, kept),
{
    assert forall|i: int| 0 <= i < mine.len() implies live(after, #[trigger] mine[i]) && after[mine[i] as int]
        == table[mine[i] as int] by {
        assert(live(table, mine[i]));
    }
    assert forall|i: int| 0 <= i < theirs.len() implies live(after, #[trigger] theirs[i])
        && after[theirs[i] as int] == table[theirs[i] as int] by {
        assert(live(table, theirs[i]));
    }
    assert forall|k: int| 0 <= k < kept.len() implies live(after, #[trigger] kept[k]) && after[kept[k] as int]
        == table[kept[k] as int] && role_at(table, kept[k]) == Role::Food && cell_at(
        table,
        kept[k],
    ).in_arena() by {
        let j = choose|j: int| 0 <= j < food.len() && food[j] == kept[k];
        assert(live(table, food[j]));
    }
    assert forall|id: usize| #[trigger] live(after, id) implies {
        &&& owned_by(after[id as int], player) ==> mine.contains(id)
        &&& owned_by(after[id as int], player.spec_other()) ==> theirs.contains(id)
        &&& holds_food(after[id as int]) ==> kept.contains(id)
    } by {
        if holds_food(table[id as int]) {
            assert(live(table, id));
            let j = choose|j: int| 0 <= j < food.len() && food[j] == id;
            assert(after[food[j] as int] is Some);
        } else {
            assert(after[id as int] == table[id as int]);
            assert(live(table, id));
        }
    }
    assert(cells(after, mine) =~= cells(table, mine));
    assert(cells(after, theirs) =~= cells(table, theirs));
    assert(cells(after, kept) =~= cells(table, kept));
}

/// Taking out of the table every food and every segment of `player` leaves
/// a table that fits the other player's list alone, and moves no segment of
/// the other player.
pub proof fn lemma_purge(
    table: Seq<Option<Entity>>,
    after: Seq<Option<Entity>>,
    player: PlayerId,
    mine: Seq<usize>,
    theirs: Seq<usize>,
    food: Seq<usize>,
)
    requires
        table_ok(table, player, mine, theirs, food),
        after.len() == table.len(),
        forall|id: int|
            0 <= id < table.len() ==> #[trigger] after[id] == (if holds_food(table[id])
                || owned_by(table[id], player) {
                None
            } else {
                table[id]
            }),
    ensures
        table_ok(after, player, Seq::empty(), theirs, Seq::empty()),
        cells(after, theirs) == cells(table, theirs),
        forall|i: int| 0 <= i < mine.len() ==> !live(after, #[trigger] mine[i]),
        forall|i: int| 0 <= i < food.len() ==> !live(after, #[trigger] food[i]),
{
    assert forall|i: int| 0 <= i < theirs.len() implies live(after, #[trigger] theirs[i])
        && after[theirs[i] as int] == table[theirs[i] as int] by {
        assert(live(table, theirs[i]));
    }
    assert forall|i: int| 0 <= i < mine.len() implies !live(after, #[trigger] mine[i]) by {
        assert(live(table, mine[i]));
    }
    assert forall|i: int| 0 <= i < food.len() implies !live(after, #[trigger] food[i]) by {
        assert(live(table, food[i]));
    }
    assert forall|id: usize| #[trigger] live(after, id) implies {
        &&& owned_by(after[id as int], player) ==> Seq::<usize>::empty().contains(id)
        &&& owned_by(after[id as int], player.spec_other()) ==> theirs.contains(id)
        &&& holds_food(after[id as int]) ==> Seq::<usize>::empty().contains(id)
    } by {
        assert(after[id as int] == table[id as int]);
        assert(live(table, id));
    }
    assert(cells(after, theirs) =~= cells(table, theirs));
}

} // verus!
