//! The components that an entity of the world can hold.

use vstd::prelude::*;
use crate::grid::Position;

verus! {

/// What a spawn directive places on a cell.
#[derive(Clone, Copy, Debug, PartialEq, Eq, Structural)]
pub enum EntityKind {
    /// Open floor: a walkable cell, not an entity.
    Floor,
    /// An impassable cell.
    Wall,
    /// The entity that the keys move.
    Player,
    /// A box that the player can push.
    Box,
    /// A cell that a box has to reach.
    BoxSpot,
}

/// How an entity is shown: which picture, and how late it is painted.
#[derive(Clone, Copy, Debug, PartialEq, Eq, Structural)]
pub struct Renderable {
    pub tag: EntityKind,
    pub priority: u8,
}

/// Marks the entity that the keys move.
#[derive(Clone, Copy, Debug, PartialEq, Eq, Structural)]
pub struct Player;

/// Marks a box that the player can push.
#[derive(Clone, Copy, Debug, PartialEq, Eq, Structural)]
pub struct Movable;

/// Marks a cell that a box has to reach.
#[derive(Clone, Copy, Debug, PartialEq, Eq, Structural)]
pub struct BoxSpot;

/// Marks an impassable cell.
#[derive(Clone, Copy, Debug, PartialEq, Eq, Structural)]
pub struct Wall;

impl specs::Component for Position {
    type Storage = specs::VecStorage<Self>;
}

impl specs::Component for Renderable {
    type Storage = specs::VecStorage<Self>;
}

impl specs::Component for Player {
    type Storage = specs::VecStorage<Self>;
}

impl specs::Component for Movable {
    type Storage = specs::VecStorage<Self>;
}

impl specs::Component for BoxSpot {
    type Storage = specs::VecStorage<Self>;
}

impl specs::Component for Wall {
    type Storage = specs::VecStorage<Self>;
}

/// The components of one entity that has a position.
#[derive(Clone, Copy, Debug)]
pub struct Components {
    pub position: Position,
    pub renderable: Option<Renderable>,
    pub player: Option<Player>,
    pub movable: Option<Movable>,
    pub spot: Option<BoxSpot>,
    pub wall: Option<Wall>,
}

/// An entity of the world: its id and what it holds.
#[derive(Clone, Copy, Debug)]
pub struct Entity {
    pub id: u32,
    pub components: Components,
}

/// What a borrowed component holds, where there is one.
pub open spec fn held<T>(component: Option<&T>) -> Option<T> {
    match component {
        Some(value) => Some(*value),
        None => None,
    }
}

impl Entity {
    /// The entity with the given id that holds copies of the given components.
    pub fn assemble(
        id: u32,
        position: &Position,
        renderable: Option<&Renderable>,
        player: Option<&Player>,
        movable: Option<&Movable>,
        spot: Option<&BoxSpot>,
        wall: Option<&Wall>,
    ) -> (entity: Entity)
        ensures
            entity.id == id,
            entity.components.position == *position,
            entity.components.renderable == held(renderable),
            entity.components.player == held(player),
            entity.components.movable == held(movable),
            entity.components.spot == held(spot),
            entity.components.wall == held(wall),
    {
        Entity {
            id,
            components: Components {
                position: *position,
                renderable: match renderable {
                    Some(value) => Some(*value),
                    None => None,
                },
                player: match player {
                    Some(value) => Some(*value),
                    None => None,
                },
                movable: match movable {
                    Some(value) => Some(*value),
                    None => None,
                },
                spot: match spot {
                    Some(value) => Some(*value),
                    None => None,
                },
                wall: match wall {
                    Some(value) => Some(*value),
                    None => None,
                },
            },
        }
    }
}

/// Where in the paint order a kind stands: floor first, then walls, spots,
/// boxes and the player last.
pub open spec fn paint_priority(kind: EntityKind) -> u8 {
    match kind {
        EntityKind::Floor => 0,
        EntityKind::Wall => 1,
        EntityKind::BoxSpot => 2,
        EntityKind::Box => 3,
        EntityKind::Player => 4,
    }
}

/// The component set with which an entity of the given kind is spawned.
pub open spec fn components_of(position: Position, kind: EntityKind) -> Components {
    Components {
        position,
        renderable: Some(Renderable { tag: kind, priority: paint_priority(kind) }),
        player: if kind == EntityKind::Player { Some(Player) } else { None },
        movable: if kind == EntityKind::Box { Some(Movable) } else { None },
        spot: if kind == EntityKind::BoxSpot { Some(BoxSpot) } else { None },
        wall: if kind == EntityKind::Wall { Some(Wall) } else { None },
    }
}

impl Components {
    /// The same components on another cell.
    pub open spec fn at(self, position: Position) -> Components {
        Components { position, ..self }
    }

    /// Whether the entity stops others from sharing its cell.
    pub open spec fn solid(self) -> bool {
        self.player is Some || self.movable is Some || self.wall is Some
    }

    /// The component set of an entity of the given kind on the given cell.
    pub fn of_kind(position: Position, kind: EntityKind) -> (set: Components)
        ensures
            set == components_of(position, kind),
    {
        let priority: u8 = match kind {
            EntityKind::Floor => 0,
            EntityKind::Wall => 1,
            EntityKind::BoxSpot => 2,
            EntityKind::Box => 3,
            EntityKind::Player => 4,
        };
        Components {
            position,
            renderable: Some(Renderable { tag: kind, priority }),
            player: match kind {
                EntityKind::Player => Some(Player),
                _ => None,
            },
            movable: match kind {
                EntityKind::Box => Some(Movable),
                _ => None,
            },
            spot: match kind {
                EntityKind::BoxSpot => Some(BoxSpot),
                _ => None,
            },
            wall: match kind {
                EntityKind::Wall => Some(Wall),
                _ => None,
            },
        }
    }
}

} // verus!
