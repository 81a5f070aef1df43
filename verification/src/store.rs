//! The entity-component world that holds a game.
//!
//! The world is a `specs::World`. Nothing in this module is proved: it states
//! what the calls into `specs` do, and the rest of the library is verified
//! against these statements.

use vstd::prelude::*;
use specs::{Builder, Join, WorldExt};
use std::collections::VecDeque;
use crate::components::{BoxSpot, Components, Entity, Movable, Player, Renderable, Wall};
use crate::grid::Position;
use crate::resources::{
    EventQueue, Gameplay, Grid, InputQueue, KeyCode, Resources, ResourcesView, Time,
};

verus! {

/// `specs::World`, of which the verifier sees nothing but the four names
/// below.
#[verifier::external_type_specification]
#[verifier::external_body]
pub struct ExWorld(specs::World);

/// `specs::VecStorage`, the storage in which each component type is kept.
#[verifier::external_type_specification]
#[verifier::external_body]
#[verifier::reject_recursive_types(T)]
pub struct ExVecStorage<T>(specs::VecStorage<T>);

/// The living entities of the world that hold a `Position`, by entity id, each
/// with the components of this library that it holds.
pub uninterp spec fn entity_table(world: specs::World) -> Map<int, Components>;

/// The table of a world without entities.
pub open spec fn no_entities() -> Map<int, Components> {
    Map::empty()
}

/// The resources of this library that the world holds, or `None` where one of
/// them is missing.
pub uninterp spec fn stored_resources(world: specs::World) -> Option<ResourcesView>;

/// Whether the world holds the entity allocator and a storage for each
/// component type of this library.
pub uninterp spec fn storages_ready(world: specs::World) -> bool;

/// How many more entities can be created in the world: the ids that its bit
/// sets can hold and that its allocator has not handed out yet.
pub uninterp spec fn spare_ids(world: specs::World) -> nat;

/// How many entities a world can hold on every target. The bit sets in which
/// `specs` keeps the living entities and the entities of each storage
/// (`hibitset::BitSet`) take ids below 2^20 where a `usize` has 32 bits and
/// below 2^24 where it has 64, and panic beyond.
pub const CAPACITY: u32 = 1_048_576;

/// `specs::WorldExt::new`, followed by `specs::WorldExt::register` for each
/// component type of this library. The new world has no entity and none of the
/// library's resources, and it is ready for entities. Its allocator counts ids
/// up from zero, and its bit sets hold every id below `CAPACITY`, so at least
/// that many entities can be created.
#[verifier::external_body]
pub(crate) fn empty_world() -> (world: specs::World)
    ensures
        entity_table(world) == no_entities(),
        stored_resources(world) is None,
        storages_ready(world),
        spare_ids(world) >= CAPACITY,
{
    let mut world = specs::World::new();
    world.register::<Position>();
    world.register::<Renderable>();
    world.register::<Player>();
    world.register::<Movable>();
    world.register::<BoxSpot>();
    world.register::<Wall>();
    world
}

/// `specs::WorldExt::create_entity`, `specs::Builder::with` and `maybe_with`
/// for the components, then `specs::Builder::build`. The new entity gets an id
/// that no living entity has, and holds exactly the given components; nothing
/// else changes, but that one id may be used up. The call panics when the id
/// is beyond what the bit set of the living entities holds, which is well
/// before the counter of the allocator runs out; `with` panics when a storage
/// is missing.
#[verifier::external_body]
pub(crate) fn create(world: &mut specs::World, components: Components) -> (id: u32)
    requires
        storages_ready(*old(world)),
        spare_ids(*old(world)) > 0,
    ensures
        !entity_table(*old(world)).contains_key(id as int),
        entity_table(*final(world)) == entity_table(*old(world)).insert(id as int, components),
        stored_resources(*final(world)) == stored_resources(*old(world)),
        storages_ready(*final(world)),
        spare_ids(*final(world)) >= spare_ids(*old(world)) - 1,
{
    world
        .create_entity()
        .with(components.position)
        .maybe_with(components.renderable)
        .maybe_with(components.player)
        .maybe_with(components.movable)
        .maybe_with(components.spot)
        .maybe_with(components.wall)
        .build()
        .id()
}

/// Whether a list names each entity of a table once, with its components, and
/// nothing else.
pub open spec fn lists_table(list: Seq<Entity>, table: Map<int, Components>) -> bool {
    &&& forall|i: int|
        0 <= i < list.len() ==> #[trigger] table.contains_key(list[i].id as int)
            && table[list[i].id as int] == list[i].components
    &&& forall|id: int| #[trigger]
        table.contains_key(id) ==> exists|i: int|
            0 <= i < list.len() && #[trigger] list[i].id as int == id
    &&& forall|i: int, j: int|
        0 <= i < j < list.len() ==> #[trigger] list[i].id != #[trigger] list[j].id
}

/// `specs::Join::join` over the entities and the storage of `Position`, with
/// every other storage of this library joined by `maybe`. The join visits each
/// living entity that holds a `Position` once; the result lists them with what
/// they hold. The storages panic when they are not registered.
#[verifier::external_body]
pub(crate) fn records(world: &specs::World) -> (list: Vec<Entity>)
    requires
        storages_ready(*world),
    ensures
        lists_table(list@, entity_table(*world)),
{
    let (ids, cells) = (world.entities(), world.read_storage::<Position>());
    let (looks, players) = (world.read_storage::<Renderable>(), world.read_storage::<Player>());
    let (boxes, spots) = (world.read_storage::<Movable>(), world.read_storage::<BoxSpot>());
    let walls = world.read_storage::<Wall>();
    (&ids, &cells, looks.maybe(), players.maybe(), boxes.maybe(), spots.maybe(), walls.maybe())
        .join()
        .map(|row| Entity::assemble(row.0.id(), row.1, row.2, row.3, row.4, row.5, row.6))
        .collect()
}

/// `specs::world::EntitiesRes::entity` for the id, then `specs::Storage::insert`
/// into the storage of `Position`. For a living entity that holds a `Position`
/// the insert replaces it; nothing else changes. The storage panics when it is
/// not registered.
#[verifier::external_body]
pub(crate) fn relocate(world: &mut specs::World, id: u32, position: Position)
    requires
        storages_ready(*old(world)),
        entity_table(*old(world)).contains_key(id as int),
    ensures
        entity_table(*final(world)) == entity_table(*old(world)).insert(
            id as int,
            entity_table(*old(world))[id as int].at(position),
        ),
        stored_resources(*final(world)) == stored_resources(*old(world)),
        storages_ready(*final(world)),
        spare_ids(*final(world)) == spare_ids(*old(world)),
{
    let entity = world.entities().entity(id);
    let _ = world.write_storage::<Position>().insert(entity, position);
}

/// `shred::World::remove` for each resource of this library. Where the world
/// holds them all, they are handed out and the world holds none of them
/// afterwards; nothing else changes. Where one is missing, there is nothing
/// to hand out, and the call panics.
#[verifier::external_body]
pub(crate) fn take_resources(world: &mut specs::World) -> (resources: Resources)
    requires
        stored_resources(*old(world)) is Some,
    ensures
        stored_resources(*old(world)) == Some(resources@),
        stored_resources(*final(world)) is None,
        entity_table(*final(world)) == entity_table(*old(world)),
        storages_ready(*final(world)) == storages_ready(*old(world)),
        spare_ids(*final(world)) == spare_ids(*old(world)),
{
    Resources {
        input: world.remove::<InputQueue>().unwrap(),
        gameplay: world.remove::<Gameplay>().unwrap(),
        time: world.remove::<Time>().unwrap(),
        events: world.remove::<EventQueue>().unwrap(),
        grid: world.remove::<Grid>().unwrap(),
    }
}

/// `shred::World::insert` for each resource of this library. The world holds
/// the given resources afterwards, in place of any that it held; nothing else
/// changes.
#[verifier::external_body]
pub(crate) fn put_resources(world: &mut specs::World, resources: Resources)
    ensures
        stored_resources(*final(world)) == Some(resources@),
        entity_table(*final(world)) == entity_table(*old(world)),
        storages_ready(*final(world)) == storages_ready(*old(world)),
        spare_ids(*final(world)) == spare_ids(*old(world)),
{
    world.insert(resources.input);
    world.insert(resources.gameplay);
    world.insert(resources.time);
    world.insert(resources.events);
    world.insert(resources.grid);
}

/// `shred::World::fetch` for the state of play, for the clock, for the grid
/// and for the pending keys, each copied out. A fetch panics where the
/// resource is missing; the world is left as it is.
#[verifier::external_body]
pub(crate) fn read_resources(world: &specs::World) -> (copy: (
    Gameplay,
    Time,
    Vec<Position>,
    VecDeque<KeyCode>,
))
    requires
        stored_resources(*world) is Some,
    ensures
        copy.0 == stored_resources(*world)->Some_0.gameplay,
        copy.1 == stored_resources(*world)->Some_0.time,
        copy.2@ == stored_resources(*world)->Some_0.cells,
        copy.3@ == stored_resources(*world)->Some_0.keys,
{
    let (gameplay, time) = (*world.fetch::<Gameplay>(), *world.fetch::<Time>());
    let keys = world.fetch::<InputQueue>().keys_pressed.clone();
    (gameplay, time, world.fetch::<Grid>().cells.clone(), keys)
}

} // verus!
