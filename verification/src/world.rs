//! Making a world and asking it for its entities.

use vstd::prelude::*;
use crate::components::{Components, Entity};
use crate::grid::Position;
use crate::laws::player_is_unique;
use crate::model::{fit, game_of, is_player, marks, player_cell, vacant, wf, Game};
use crate::resources::{initial_resources, Resources};
use crate::store::{
    create, empty_world, entity_table, lists_table, no_entities, put_resources, read_resources,
    records, relocate, storages_ready, CAPACITY,
};
use crate::systems::{find_player, in_cells};

verus! {

/// Which components an entity is asked to hold, beside its position.
#[derive(Clone, Copy, Debug, PartialEq, Eq, Structural)]
pub struct Query {
    pub renderable: bool,
    pub player: bool,
    pub movable: bool,
    pub spot: bool,
    pub wall: bool,
}

/// Whether the components are all that the query asks for, or more.
pub open spec fn answers(components: Components, wanted: Query) -> bool {
    &&& wanted.renderable ==> components.renderable is Some
    &&& wanted.player ==> components.player is Some
    &&& wanted.movable ==> components.movable is Some
    &&& wanted.spot ==> components.spot is Some
    &&& wanted.wall ==> components.wall is Some
}

/// The entities of a table that answer a query.
pub open spec fn answering(table: Map<int, Components>, wanted: Query) -> Map<int, Components> {
    Map::new(|id: int| table.contains_key(id) && answers(table[id], wanted), |id: int| table[id])
}

/// The game of a world that was just made.
pub open spec fn initial_game() -> Game {
    Game {
        entities: no_entities(),
        cells: initial_resources().cells,
        keys: initial_resources().keys,
        gameplay: initial_resources().gameplay,
        time: initial_resources().time,
        events: initial_resources().events,
    }
}

impl Query {
    /// The query that every entity answers.
    pub fn any() -> (wanted: Query)
        ensures
            wanted == (Query {
                renderable: false,
                player: false,
                movable: false,
                spot: false,
                wall: false,
            }),
    {
        Query { renderable: false, player: false, movable: false, spot: false, wall: false }
    }

    /// Whether the components are all that the query asks for, or more.
    pub fn admits(&self, components: &Components) -> (yes: bool)
        ensures
            yes == answers(*components, *self),
    {
        (!self.renderable || components.renderable.is_some()) && (!self.player
            || components.player.is_some()) && (!self.movable || components.movable.is_some())
            && (!self.spot || components.spot.is_some()) && (!self.wall
            || components.wall.is_some())
    }
}

/// A world that is fit for play: it has no entity yet, and its resources are
/// in their initial state.
pub fn new_world() -> (world: specs::World)
    ensures
        wf(world),
        vacant(world),
        game_of(world) == initial_game(),
{
    let mut world = empty_world();
    put_resources(&mut world, Resources::default());
    world
}

/// The entities of the world that hold every component that is asked for,
/// each once and with all that it holds, in no particular order.
pub fn query(world: &specs::World, wanted: Query) -> (found: Vec<Entity>)
    requires
        storages_ready(*world),
    ensures
        lists_table(found@, answering(entity_table(*world), wanted)),
{
    let list = records(world);
    let ghost table = entity_table(*world);
    let mut found: Vec<Entity> = Vec::new();
    let ghost mut from: Seq<int> = Seq::empty();
    let mut i: usize = 0;
    while i < list.len()
        invariant
            0 <= i <= list.len(),
            lists_table(list@, table),
            from.len() == found.len(),
            forall|k: int| 0 <= k < from.len() ==> 0 <= #[trigger] from[k] < i,
            forall|k: int, l: int|
                0 <= k < l < from.len() ==> #[trigger] from[k] < #[trigger] from[l],
            forall|k: int|
                0 <= k < found.len() ==> (#[trigger] found[k]) == list[from[k]] && answers(
                    found[k].components,
                    wanted,
                ),
            forall|j: int|
                0 <= j < i && answers((#[trigger] list[j]).components, wanted) ==> exists|k: int|
                    0 <= k < found.len() && #[trigger] from[k] == j,
        decreases list.len() - i,
    {
        if wanted.admits(&list[i].components) {
            let ghost before = from;
            found.push(list[i]);
            proof {
                from = from.push(i as int);
                assert forall|j: int|
                    0 <= j < i + 1 && answers(
                        (#[trigger] list[j]).components,
                        wanted,
                    ) implies exists|k: int| 0 <= k < found.len() && #[trigger] from[k] == j by {
                    if j < i {
                        let k = choose|k: int| 0 <= k < before.len() && #[trigger] before[k] == j;
                        assert(from[k] == j);
                    } else {
                        assert(from[found.len() - 1] == j);
                    }
                }
            }
        }
        i += 1;
    }
    proof {
        let part = answering(table, wanted);
        assert forall|k: int| 0 <= k < found.len() implies #[trigger] part.contains_key(
            found[k].id as int,
        ) && part[found[k].id as int] == found[k].components by {
            assert(found[k] == list[from[k]]);
        }
        assert forall|id: int| #[trigger] part.contains_key(id) implies exists|k: int|
            0 <= k < found.len() && #[trigger] found[k].id as int == id by {
            let j = choose|j: int| 0 <= j < list.len() && #[trigger] list[j].id as int == id;
            let k = choose|k: int| 0 <= k < found.len() && #[trigger] from[k] == j;
            assert(found[k] == list[from[k]]);
        }
        assert forall|k: int, l: int| 0 <= k < l < found.len() implies #[trigger] found[k].id
            != #[trigger] found[l].id by {
            assert(found[k] == list[from[k]] && found[l] == list[from[l]]);
        }
    }
    found
}

/// The entities of the world, each once and with all that it holds, in no
/// particular order.
pub fn snapshot(world: &specs::World) -> (list: Vec<Entity>)
    requires
        storages_ready(*world),
    ensures
        lists_table(list@, entity_table(*world)),
{
    let wanted = Query::any();
    let list = query(world, wanted);
    assert(answering(entity_table(*world), wanted) =~= entity_table(*world));
    list
}

/// Whether the entity exists, occupies its cell, and stands on the given cell.
pub open spec fn is_occupant(table: Map<int, Components>, id: int, cell: Position) -> bool {
    table.contains_key(id) && table[id].solid() && table[id].position == cell
}

/// Whether the cell holds an entity that occupies it.
pub open spec fn occupied(game: Game, cell: Position) -> bool {
    exists|id: int| is_occupant(game.entities, id, cell)
}

/// Whether a game has room for an entity with these components: they hold at
/// most one mark, the cell is one of the grid, an occupant finds its cell
/// free of occupants, a player finds no player, and the game holds fewer than
/// `CAPACITY` entities.
pub open spec fn admits(game: Game, components: Components) -> bool {
    &&& marks(components) <= 1
    &&& game.cells.contains(components.position)
    &&& components.solid() ==> !occupied(game, components.position)
    &&& components.player is Some ==> player_cell(game) is None
    &&& game.entities.len() < CAPACITY
}

/// Whether an entity of a game can be put on a cell: it exists, it is neither
/// a wall nor a spot, the cell is one of the grid, and if the entity occupies
/// its cell, no other occupant stands there.
pub open spec fn can_stand(game: Game, id: int, cell: Position) -> bool {
    &&& game.entities.contains_key(id)
    &&& game.entities[id].wall is None
    &&& game.entities[id].spot is None
    &&& game.cells.contains(cell)
    &&& game.entities[id].solid() ==> forall|other: int|
        is_occupant(game.entities, other, cell) ==> other == id
}

/// The game with one entity added or replaced.
pub open spec fn with_entity(game: Game, id: int, components: Components) -> Game {
    Game { entities: game.entities.insert(id, components), ..game }
}

/// A list of the entities of a finite table is as long as the table is large.
pub proof fn list_counts_table(list: Seq<Entity>, table: Map<int, Components>)
    requires
        lists_table(list, table),
        table.dom().finite(),
    ensures
        list.len() == table.len(),
    decreases list.len(),
{
    if list.len() == 0 {
        assert(table.dom() =~= Set::<int>::empty());
    } else {
        let last = list.last().id as int;
        let rest = table.remove(last);
        assert(table.contains_key(list[list.len() - 1].id as int));
        assert forall|id: int| #[trigger] rest.contains_key(id) implies exists|i: int|
            0 <= i < list.drop_last().len() && #[trigger] list.drop_last()[i].id as int == id by {
            let i = choose|i: int| 0 <= i < list.len() && #[trigger] list[i].id as int == id;
            assert(list.drop_last()[i].id as int == id);
        }
        assert forall|i: int| 0 <= i < list.drop_last().len() implies #[trigger] rest.contains_key(
            list.drop_last()[i].id as int,
        ) && rest[list.drop_last()[i].id as int] == list.drop_last()[i].components by {
            assert(table.contains_key(list[i].id as int));
            assert(list[i].id != list[list.len() - 1].id);
        }
        list_counts_table(list.drop_last(), rest);
    }
}

/// The place in the list of the first entity that occupies the cell, but for
/// the entity with the given id.
fn occupant_but(list: &Vec<Entity>, cell: Position, but: Option<u32>) -> (found: Option<usize>)
    ensures
        found is Some ==> found->Some_0 < list.len() && Some(list[found->Some_0 as int].id) != but
            && list[found->Some_0 as int].components.solid()
            && list[found->Some_0 as int].components.position == cell,
        found is None ==> forall|i: int|
            0 <= i < list.len() && Some((#[trigger] list[i]).id) != but
                && list[i].components.solid() ==> list[i].components.position != cell,
{
    let mut i: usize = 0;
    while i < list.len()
        invariant
            0 <= i <= list.len(),
            forall|k: int|
                0 <= k < i && Some((#[trigger] list[k]).id) != but
                    && list[k].components.solid() ==> list[k].components.position != cell,
        decreases list.len() - i,
    {
        let held = &list[i].components;
        let solid = held.player.is_some() || held.movable.is_some() || held.wall.is_some();
        let skipped = match but {
            Some(id) => list[i].id == id,
            None => false,
        };
        if solid && !skipped && held.position == cell {
            return Some(i);
        }
        i += 1;
    }
    None
}

/// Spawns an entity with the given components, if the game admits it; if not,
/// the world is left as it is. Returns the id of the new entity.
pub fn spawn(world: &mut specs::World, components: Components) -> (id: Option<u32>)
    requires
        fit(*old(world)),
    ensures
        fit(*final(world)),
        wf(*old(world)) ==> wf(*final(world)),
        admits(game_of(*old(world)), components) ==> id is Some && !entity_table(
            *old(world),
        ).contains_key(id->Some_0 as int) && game_of(*final(world)) == with_entity(
            game_of(*old(world)),
            id->Some_0 as int,
            components,
        ),
        !admits(game_of(*old(world)), components) ==> id is None && *final(world) == *old(world),
{
    let ghost game = game_of(*world);
    let list = records(world);
    let cells = read_resources(world).2;
    proof {
        list_counts_table(list@, game.entities);
    }
    let count: u8 = (if components.player.is_some() {
        1u8
    } else {
        0u8
    }) + (if components.movable.is_some() {
        1u8
    } else {
        0u8
    }) + (if components.spot.is_some() {
        1u8
    } else {
        0u8
    }) + (if components.wall.is_some() {
        1u8
    } else {
        0u8
    });
    let solid = components.player.is_some() || components.movable.is_some()
        || components.wall.is_some();
    if count > 1 || !in_cells(&cells, components.position) || list.len() >= CAPACITY as usize {
        return None;
    }
    if solid {
        match occupant_but(&list, components.position, None) {
            Some(at) => {
                proof {
                    let other = list[at as int].id as int;
                    assert(game.entities.contains_key(other));
                    assert(is_occupant(game.entities, other, components.position));
                }
                return None;
            },
            None => {
                proof {
                    assert forall|id: int|
                        !is_occupant(game.entities, id, components.position) by {
                        if is_occupant(game.entities, id, components.position) {
                            let i = choose|i: int|
                                0 <= i < list.len() && #[trigger] list[i].id as int == id;
                            assert(list[i].components.solid());
                        }
                    }
                }
            },
        }
    }
    if components.player.is_some() {
        match find_player(&list) {
            Some(at) => {
                proof {
                    assert(game.entities.contains_key(list[at as int].id as int));
                    player_is_unique(game, list[at as int].id as int);
                }
                return None;
            },
            None => {
                proof {
                    assert forall|id: int| !is_player(game.entities, id) by {
                        if is_player(game.entities, id) {
                            let i = choose|i: int|
                                0 <= i < list.len() && #[trigger] list[i].id as int == id;
                            assert(list[i].components.player is Some);
                        }
                    }
                }
            },
        }
    }
    let id = create(world, components);
    proof {
        let after = game_of(*world);
        assert forall|a: int, b: int|
            #![trigger after.entities[a], after.entities[b]]
            after.entities.contains_key(a) && after.entities.contains_key(b) && a != b
                && after.entities[a].solid()
                && after.entities[b].solid() implies after.entities[a].position
            != after.entities[b].position by {
            if a == id as int {
                assert(!is_occupant(game.entities, b, components.position));
            } else if b == id as int {
                assert(!is_occupant(game.entities, a, components.position));
            }
        }
        assert forall|a: int, b: int|
            #[trigger] is_player(after.entities, a) && #[trigger] is_player(
                after.entities,
                b,
            ) implies a == b by {
            if a != id as int {
                assert(is_player(game.entities, a));
            }
            if b != id as int {
                assert(is_player(game.entities, b));
            }
        }
    }
    Some(id)
}

/// The place in the list of the entity with the given id.
fn find_entity(list: &Vec<Entity>, id: u32) -> (found: Option<usize>)
    ensures
        found is Some ==> found->Some_0 < list.len() && list[found->Some_0 as int].id == id,
        found is None ==> forall|i: int| 0 <= i < list.len() ==> (#[trigger] list[i]).id != id,
{
    let mut i: usize = 0;
    while i < list.len()
        invariant
            0 <= i <= list.len(),
            forall|k: int| 0 <= k < i ==> (#[trigger] list[k]).id != id,
        decreases list.len() - i,
    {
        if list[i].id == id {
            return Some(i);
        }
        i += 1;
    }
    None
}

/// Puts an entity on another cell, if it can stand there; if not, the world is
/// left as it is. Walls and spots are never moved. Returns whether the entity
/// was put there.
pub fn set_position(world: &mut specs::World, id: u32, position: Position) -> (done: bool)
    requires
        fit(*old(world)),
    ensures
        fit(*final(world)),
        wf(*old(world)) ==> wf(*final(world)),
        done == can_stand(game_of(*old(world)), id as int, position),
        done ==> game_of(*final(world)) == with_entity(
            game_of(*old(world)),
            id as int,
            entity_table(*old(world))[id as int].at(position),
        ),
        !done ==> *final(world) == *old(world),
{
    let ghost game = game_of(*world);
    let list = records(world);
    let cells = read_resources(world).2;
    let at = match find_entity(&list, id) {
        Some(at) => at,
        None => {
            proof {
                if game.entities.contains_key(id as int) {
                    let i = choose|i: int|
                        0 <= i < list.len() && #[trigger] list[i].id as int == id as int;
                    assert(list[i].id == id);
                }
            }
            return false;
        },
    };
    let held = list[at].components;
    assert(game.entities.contains_key(list[at as int].id as int));
    if held.wall.is_some() || held.spot.is_some() || !in_cells(&cells, position) {
        return false;
    }
    if held.player.is_some() || held.movable.is_some() {
        match occupant_but(&list, position, Some(id)) {
            Some(other) => {
                proof {
                    assert(game.entities.contains_key(list[other as int].id as int));
                    assert(is_occupant(game.entities, list[other as int].id as int, position));
                }
                return false;
            },
            None => {
                proof {
                    assert forall|other: int|
                        is_occupant(game.entities, other, position) implies other == id as int by {
                        let i = choose|i: int|
                            0 <= i < list.len() && #[trigger] list[i].id as int == other;
                        assert(list[i].components.solid());
                    }
                }
            },
        }
    }
    relocate(world, id, position);
    proof {
        let after = game_of(*world);
        assert(after.entities.dom() =~= game.entities.dom());
        assert forall|a: int, b: int|
            #![trigger after.entities[a], after.entities[b]]
            after.entities.contains_key(a) && after.entities.contains_key(b) && a != b
                && after.entities[a].solid()
                && after.entities[b].solid() implies after.entities[a].position
            != after.entities[b].position by {
            if a == id as int {
                assert(is_occupant(game.entities, b, position) ==> b == id as int);
            } else if b == id as int {
                assert(is_occupant(game.entities, a, position) ==> a == id as int);
            }
        }
        assert forall|a: int, b: int|
            #[trigger] is_player(after.entities, a) && #[trigger] is_player(
                after.entities,
                b,
            ) implies a == b by {
            assert(is_player(game.entities, a) && is_player(game.entities, b));
        }
    }
    true
}

} // verus!
