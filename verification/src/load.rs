//! Loading a level into a world.

use vstd::prelude::*;
use vstd::string::StringSliceAdditionalSpecFns;
use crate::components::{components_of, Components, EntityKind};
use crate::grid::Position;
use crate::level::{
    decode, decoded, in_reading_order, no_later, occupies, placeable, MalformedLevel, Spawn,
};
use crate::model::{board_ok, fit, game_of, is_player, marks, player_cell, vacant, wf, Game};
use crate::store::{
    create, entity_table, put_resources, spare_ids, storages_ready, stored_resources,
    take_resources, CAPACITY,
};

verus! {

/// The level that a game starts with.
pub const FIRST_LEVEL: &'static str = "
        W W W W W N
        W BS . . W W
        W P BB BB . W
        W W . . . W
        N W W . . W
        N N W W BS W
        N N N W W W
        ";

/// How many of the directives place a player.
pub open spec fn players(spawns: Seq<Spawn>) -> nat
    decreases spawns.len(),
{
    if spawns.len() == 0 {
        0
    } else {
        players(spawns.drop_last()) + if spawns.last().kind == EntityKind::Player {
            1nat
        } else {
            0nat
        }
    }
}

/// The component sets of the entities that the directives ask for, in order:
/// one for each directive but those for open floor.
pub open spec fn entities_of(spawns: Seq<Spawn>) -> Seq<Components>
    decreases spawns.len(),
{
    if spawns.len() == 0 {
        Seq::empty()
    } else if spawns.last().kind == EntityKind::Floor {
        entities_of(spawns.drop_last())
    } else {
        entities_of(spawns.drop_last()).push(
            components_of(spawns.last().position, spawns.last().kind),
        )
    }
}

/// The cells that the directives name, in order: one for each run of
/// directives on the same cell.
pub open spec fn cells_of(spawns: Seq<Spawn>) -> Seq<Position>
    decreases spawns.len(),
{
    if spawns.len() == 0 {
        Seq::empty()
    } else if spawns.len() >= 2 && spawns[spawns.len() - 2].position == spawns.last().position {
        cells_of(spawns.drop_last())
    } else {
        cells_of(spawns.drop_last()).push(spawns.last().position)
    }
}

/// Whether the cells stand in reading order, none twice.
pub open spec fn strictly_ordered(cells: Seq<Position>) -> bool {
    forall|k: int, l: int|
        #![trigger cells[k], cells[l]]
        0 <= k < l < cells.len() ==> no_later(cells[k], cells[l]) && cells[k] != cells[l]
}

/// The level that a text describes: what it decodes to, if that has exactly
/// one player and no more directives than a world can hold entities.
pub open spec fn level_of(text: Seq<u8>) -> Result<Seq<Spawn>, MalformedLevel> {
    match decoded(text) {
        Err(error) => Err(error),
        Ok(spawns) => if players(spawns) != 1 {
            Err(MalformedLevel::PlayerCount { found: players(spawns) as usize })
        } else if spawns.len() > CAPACITY {
            Err(MalformedLevel::TooLarge)
        } else {
            Ok(spawns)
        },
    }
}

/// Whether the ids name the entities of the table, all of them and each once,
/// and the entity of the k-th id holds the k-th component set.
pub open spec fn names(ids: Seq<int>, table: Map<int, Components>, sets: Seq<Components>) -> bool {
    &&& ids.len() == sets.len()
    &&& ids.no_duplicates()
    &&& forall|id: int| #[trigger] table.contains_key(id) <==> ids.contains(id)
    &&& forall|k: int| 0 <= k < ids.len() ==> table[#[trigger] ids[k]] == sets[k]
}

/// Whether the table holds one entity for each of the component sets, and no
/// other.
pub open spec fn holds_exactly(table: Map<int, Components>, sets: Seq<Components>) -> bool {
    exists|ids: Seq<int>| names(ids, table, sets)
}

/// Whether a game is what loading the directives makes of another: its
/// entities are those that the directives ask for, its cells are those that
/// they name, and its resources are as before.
pub open spec fn loaded(before: Game, after: Game, spawns: Seq<Spawn>) -> bool {
    &&& holds_exactly(after.entities, entities_of(spawns))
    &&& after.cells == cells_of(spawns)
    &&& after.keys == before.keys
    &&& after.gameplay == before.gameplay
    &&& after.time == before.time
    &&& after.events == before.events
}

/// A player among the directives counts, on top of those before it.
proof fn players_at_least(spawns: Seq<Spawn>, i: int)
    requires
        0 <= i < spawns.len(),
        spawns[i].kind == EntityKind::Player,
    ensures
        players(spawns) >= 1 + players(spawns.take(i)),
    decreases spawns.len(),
{
    if i == spawns.len() - 1 {
    } else {
        players_at_least(spawns.drop_last(), i);
        assert(spawns.drop_last().take(i) =~= spawns.take(i));
    }
}

/// Directives that place a player at all hold one that does.
proof fn some_player(spawns: Seq<Spawn>) -> (at: int)
    requires
        players(spawns) >= 1,
    ensures
        0 <= at < spawns.len(),
        spawns[at].kind == EntityKind::Player,
    decreases spawns.len(),
{
    if spawns.last().kind == EntityKind::Player {
        spawns.len() - 1
    } else {
        some_player(spawns.drop_last())
    }
}

/// Where the directives place one player, they place it once.
proof fn one_player(spawns: Seq<Spawn>, i: int, j: int)
    requires
        players(spawns) == 1,
        0 <= i < spawns.len(),
        0 <= j < spawns.len(),
        spawns[i].kind == EntityKind::Player,
        spawns[j].kind == EntityKind::Player,
    ensures
        i == j,
{
    if i < j {
        players_at_least(spawns, j);
        players_at_least(spawns.take(j), i);
    } else if j < i {
        players_at_least(spawns, i);
        players_at_least(spawns.take(i), j);
    }
}

/// How many of the directives place a player.
fn count_players(spawns: &Vec<Spawn>) -> (found: usize)
    ensures
        found == players(spawns@),
{
    let mut found: usize = 0;
    let mut i: usize = 0;
    while i < spawns.len()
        invariant
            0 <= i <= spawns.len(),
            found <= i,
            found == players(spawns@.take(i as int)),
        decreases spawns.len() - i,
    {
        assert(spawns@.take(i + 1).drop_last() =~= spawns@.take(i as int));
        match spawns[i].kind {
            EntityKind::Player => {
                found += 1;
            },
            _ => {},
        }
        i += 1;
    }
    assert(spawns@.take(spawns.len() as int) =~= spawns@);
    found
}

/// The cells that the directives name, in order, each once.
fn named_cells(spawns: &Vec<Spawn>) -> (cells: Vec<Position>)
    requires
        in_reading_order(spawns@),
    ensures
        cells@ == cells_of(spawns@),
        cells@.no_duplicates(),
        forall|j: int| 0 <= j < spawns.len() ==> cells@.contains(#[trigger] spawns[j].position),
{
    let mut cells: Vec<Position> = Vec::new();
    let mut i: usize = 0;
    assert(spawns@.take(0) =~= Seq::<Spawn>::empty());
    while i < spawns.len()
        invariant
            0 <= i <= spawns.len(),
            in_reading_order(spawns@),
            cells@ == cells_of(spawns@.take(i as int)),
            strictly_ordered(cells@),
            i > 0 ==> cells.len() > 0 && cells[cells.len() - 1] == spawns[i - 1].position,
            forall|j: int| 0 <= j < i ==> cells@.contains(#[trigger] spawns[j].position),
        decreases spawns.len() - i,
    {
        let cell = spawns[i].position;
        let ghost before = cells@;
        assert(spawns@.take(i + 1).drop_last() =~= spawns@.take(i as int));
        if i == 0 || spawns[i - 1].position != cell {
            cells.push(cell);
            proof {
                assert forall|k: int, l: int|
                    #![trigger cells[k], cells[l]]
                    0 <= k < l < cells.len() implies no_later(cells[k], cells[l]) && cells[k]
                    != cells[l] by {
                    if l == before.len() {
                        assert(before[k] == cells[k]);
                        let last = before[before.len() - 1];
                        assert(k < before.len() - 1 ==> no_later(before[k], last));
                        assert(no_later(spawns[i - 1].position, spawns[i as int].position));
                    } else {
                        assert(before[k] == cells[k] && before[l] == cells[l]);
                    }
                }
                assert forall|j: int| 0 <= j < i + 1 implies cells@.contains(
                    #[trigger] spawns[j].position,
                ) by {
                    if j < i {
                        let k = choose|k: int|
                            0 <= k < before.len() && before[k] == spawns[j].position;
                        assert(cells[k] == spawns[j].position);
                    } else {
                        assert(cells[before.len() as int] == cell);
                    }
                }
            }
        }
        i += 1;
    }
    assert(spawns@.take(spawns.len() as int) =~= spawns@);
    cells
}

/// Whether the ids name the entities made for the first `upto` directives:
/// the k-th id names the entity made for the directive at place `from[k]`,
/// the places go up, and every directive but those for open floor has one.
spec fn made_from(
    ids: Seq<int>,
    from: Seq<int>,
    table: Map<int, Components>,
    spawns: Seq<Spawn>,
    upto: int,
) -> bool {
    &&& names(ids, table, entities_of(spawns.take(upto)))
    &&& from.len() == ids.len()
    &&& forall|k: int| 0 <= k < from.len() ==> 0 <= #[trigger] from[k] < upto
    &&& forall|k: int, l: int|
        0 <= k < l < from.len() ==> #[trigger] from[k] < #[trigger] from[l]
    &&& forall|k: int|
        0 <= k < from.len() ==> spawns[#[trigger] from[k]].kind != EntityKind::Floor
            && table[ids[k]] == components_of(spawns[from[k]].position, spawns[from[k]].kind)
    &&& forall|j: int|
        0 <= j < upto && (#[trigger] spawns[j]).kind != EntityKind::Floor ==> exists|k: int|
            0 <= k < from.len() && #[trigger] from[k] == j
}

/// One more directive for open floor makes no entity.
proof fn floor_makes_nothing(
    ids: Seq<int>,
    from: Seq<int>,
    table: Map<int, Components>,
    spawns: Seq<Spawn>,
    upto: int,
)
    requires
        0 <= upto < spawns.len(),
        spawns[upto].kind == EntityKind::Floor,
        made_from(ids, from, table, spawns, upto),
    ensures
        made_from(ids, from, table, spawns, upto + 1),
{
    assert(spawns.take(upto + 1).drop_last() =~= spawns.take(upto));
    assert(spawns.take(upto + 1).last() == spawns[upto]);
}

/// One more directive, not for open floor, and the entity made for it.
proof fn entity_is_made(
    ids: Seq<int>,
    from: Seq<int>,
    table: Map<int, Components>,
    spawns: Seq<Spawn>,
    upto: int,
    id: int,
)
    requires
        0 <= upto < spawns.len(),
        spawns[upto].kind != EntityKind::Floor,
        made_from(ids, from, table, spawns, upto),
        !table.contains_key(id),
    ensures
        made_from(
            ids.push(id),
            from.push(upto),
            table.insert(id, components_of(spawns[upto].position, spawns[upto].kind)),
            spawns,
            upto + 1,
        ),
{
    let set = components_of(spawns[upto].position, spawns[upto].kind);
    let sets = entities_of(spawns.take(upto));
    let longer = ids.push(id);
    let further = from.push(upto);
    let larger = table.insert(id, set);
    assert(spawns.take(upto + 1).drop_last() =~= spawns.take(upto));
    assert(spawns.take(upto + 1).last() == spawns[upto]);
    assert(entities_of(spawns.take(upto + 1)) == sets.push(set));
    assert(!ids.contains(id));
    assert forall|other: int| #[trigger] larger.contains_key(other) <==> longer.contains(
        other,
    ) by {
        if table.contains_key(other) {
            assert(ids.contains(other));
            let k = choose|k: int| 0 <= k < ids.len() && ids[k] == other;
            assert(longer[k] == other);
        }
        if other == id {
            assert(longer[ids.len() as int] == other);
        }
        if longer.contains(other) && other != id {
            let k = choose|k: int| 0 <= k < longer.len() && longer[k] == other;
            assert(ids[k] == other);
            assert(ids.contains(other));
        }
    }
    assert forall|k: int| 0 <= k < longer.len() implies larger[#[trigger] longer[k]]
        == sets.push(set)[k] by {
        if k < ids.len() {
            assert(ids[k] == longer[k]);
            assert(ids.contains(ids[k]));
        }
    }
    assert forall|k: int| 0 <= k < further.len() implies spawns[#[trigger] further[k]].kind
        != EntityKind::Floor && larger[longer[k]] == components_of(
        spawns[further[k]].position,
        spawns[further[k]].kind,
    ) by {
        if k < from.len() {
            assert(further[k] == from[k]);
            assert(ids.contains(ids[k]));
        }
    }
    assert forall|j: int|
        0 <= j < upto + 1 && (#[trigger] spawns[j]).kind != EntityKind::Floor implies exists|
        k: int,
    | 0 <= k < further.len() && #[trigger] further[k] == j by {
        if j < upto {
            let k = choose|k: int| 0 <= k < from.len() && #[trigger] from[k] == j;
            assert(further[k] == j);
        } else {
            assert(further[further.len() - 1] == j);
        }
    }
}

/// The entities made for directives that give no cell two occupants and place
/// one player keep the invariant of the game, and one of them is the player.
proof fn made_board_is_ok(ids: Seq<int>, from: Seq<int>, after: Game, spawns: Seq<Spawn>)
    requires
        made_from(ids, from, after.entities, spawns, spawns.len() as int),
        placeable(spawns),
        players(spawns) == 1,
        after.entities.dom().finite(),
        after.cells.no_duplicates(),
        forall|j: int|
            0 <= j < spawns.len() ==> after.cells.contains(#[trigger] spawns[j].position),
    ensures
        board_ok(after),
        player_cell(after) is Some,
{
    let table = after.entities;
    assert forall|id: int| #[trigger] table.contains_key(id) implies after.cells.contains(
        table[id].position,
    ) && marks(table[id]) <= 1 by {
        assert(ids.contains(id));
        let k = choose|k: int| 0 <= k < ids.len() && ids[k] == id;
        assert(table[ids[k]] == components_of(spawns[from[k]].position, spawns[from[k]].kind));
        assert(after.cells.contains(spawns[from[k]].position));
    }
    assert forall|a: int, b: int|
        #![trigger table[a], table[b]]
        table.contains_key(a) && table.contains_key(b) && a != b && table[a].solid()
            && table[b].solid() implies table[a].position != table[b].position by {
        assert(ids.contains(a) && ids.contains(b));
        let k = choose|k: int| 0 <= k < ids.len() && ids[k] == a;
        let l = choose|l: int| 0 <= l < ids.len() && ids[l] == b;
        assert(table[ids[k]] == components_of(spawns[from[k]].position, spawns[from[k]].kind));
        assert(table[ids[l]] == components_of(spawns[from[l]].position, spawns[from[l]].kind));
        assert(occupies(spawns[from[k]].kind) && occupies(spawns[from[l]].kind));
        if k < l {
            assert(from[k] < from[l]);
        } else {
            assert(from[l] < from[k]);
        }
    }
    assert forall|a: int, b: int|
        #[trigger] is_player(table, a) && #[trigger] is_player(table, b) implies a == b by {
        assert(ids.contains(a) && ids.contains(b));
        let k = choose|k: int| 0 <= k < ids.len() && ids[k] == a;
        let l = choose|l: int| 0 <= l < ids.len() && ids[l] == b;
        assert(table[ids[k]] == components_of(spawns[from[k]].position, spawns[from[k]].kind));
        assert(table[ids[l]] == components_of(spawns[from[l]].position, spawns[from[l]].kind));
        one_player(spawns, from[k], from[l]);
    }
    let j = some_player(spawns);
    assert(spawns[j].kind != EntityKind::Floor);
    let k = choose|k: int| 0 <= k < from.len() && #[trigger] from[k] == j;
    assert(ids.contains(ids[k]));
    assert(is_player(table, ids[k]));
}

/// Makes the grid of the world the cells that the directives name, and creates
/// the entities that they ask for.
fn load_spawns(world: &mut specs::World, spawns: &Vec<Spawn>)
    requires
        fit(*old(world)),
        vacant(*old(world)),
        placeable(spawns@),
        in_reading_order(spawns@),
        players(spawns@) == 1,
        spawns.len() <= CAPACITY,
    ensures
        fit(*final(world)),
        wf(*old(world)) ==> wf(*final(world)),
        loaded(game_of(*old(world)), game_of(*final(world)), spawns@),
        player_cell(game_of(*final(world))) is Some,
{
    let mut resources = take_resources(world);
    resources.grid.cells = named_cells(spawns);
    let ghost kept = resources@;
    put_resources(world, resources);
    let ghost mut ids: Seq<int> = Seq::empty();
    let ghost mut from: Seq<int> = Seq::empty();
    let mut i: usize = 0;
    proof {
        assert(entity_table(*world).dom() =~= Set::<int>::empty());
        assert(spawns@.take(0) =~= Seq::<Spawn>::empty());
    }
    while i < spawns.len()
        invariant
            0 <= i <= spawns.len() <= CAPACITY,
            storages_ready(*world),
            stored_resources(*world) == Some(kept),
            ids.len() <= i,
            spare_ids(*world) >= CAPACITY - ids.len(),
            entity_table(*world).dom().finite(),
            entity_table(*world).len() == ids.len(),
            made_from(ids, from, entity_table(*world), spawns@, i as int),
        decreases spawns.len() - i,
    {
        let spawn = spawns[i];
        let ghost table = entity_table(*world);
        match spawn.kind {
            EntityKind::Floor => {
                proof {
                    floor_makes_nothing(ids, from, table, spawns@, i as int);
                }
            },
            _ => {
                let id = create(world, Components::of_kind(spawn.position, spawn.kind));
                proof {
                    entity_is_made(ids, from, table, spawns@, i as int, id as int);
                    ids = ids.push(id as int);
                    from = from.push(i as int);
                }
            },
        }
        i += 1;
    }
    proof {
        assert(spawns@.take(spawns.len() as int) =~= spawns@);
        made_board_is_ok(ids, from, game_of(*world), spawns@);
    }
}

/// Loads the level that a text describes into a world that has no entity yet.
///
/// The text is decoded first. A text that does not decode, a level without
/// a player or with several, and a level with more than `CAPACITY` directives
/// are refused, and the world is left as it was. Otherwise the cells that the
/// level names become the grid, and each directive but those for open floor
/// becomes an entity with the components of its kind; one of them, and one
/// only, is the player.
pub fn load_map(world: &mut specs::World, map_string: &str) -> (result: Result<
    (),
    MalformedLevel,
>)
    requires
        fit(*old(world)),
        vacant(*old(world)),
    ensures
        fit(*final(world)),
        wf(*old(world)) ==> wf(*final(world)),
        level_of(map_string.spec_bytes()) is Err ==> result == Err::<(), MalformedLevel>(
            level_of(map_string.spec_bytes())->Err_0,
        ) && *final(world) == *old(world),
        level_of(map_string.spec_bytes()) is Ok ==> result is Ok && loaded(
            game_of(*old(world)),
            game_of(*final(world)),
            level_of(map_string.spec_bytes())->Ok_0,
        ) && player_cell(game_of(*final(world))) is Some,
{
    match decode(map_string) {
        Err(error) => Err(error),
        Ok(spawns) => {
            let found = count_players(&spawns);
            if found != 1 {
                Err(MalformedLevel::PlayerCount { found })
            } else if spawns.len() > CAPACITY as usize {
                Err(MalformedLevel::TooLarge)
            } else {
                load_spawns(world, &spawns);
                Ok(())
            }
        },
    }
}

/// Loads the level that a game starts with.
pub fn initialize_level(world: &mut specs::World) -> (result: Result<(), MalformedLevel>)
    requires
        fit(*old(world)),
        vacant(*old(world)),
    ensures
        fit(*final(world)),
        wf(*old(world)) ==> wf(*final(world)),
        level_of(FIRST_LEVEL.spec_bytes()) is Err ==> result == Err::<(), MalformedLevel>(
            level_of(FIRST_LEVEL.spec_bytes())->Err_0,
        ) && *final(world) == *old(world),
        level_of(FIRST_LEVEL.spec_bytes()) is Ok ==> result is Ok && loaded(
            game_of(*old(world)),
            game_of(*final(world)),
            level_of(FIRST_LEVEL.spec_bytes())->Ok_0,
        ) && player_cell(game_of(*final(world))) is Some,
{
    load_map(world, FIRST_LEVEL)
}

} // verus!
