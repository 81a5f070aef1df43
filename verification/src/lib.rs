//! The gameplay core of a box-pushing puzzle on a grid.
//!
//! A level is written as text, decoded into spawn directives and loaded into an
//! entity-component world. Each tick consumes one pending key, resolves the
//! move and its push, evaluates the win condition, advances the clock and hands
//! the events of the tick to the caller.

pub mod components;
pub mod events;
pub mod grid;
pub mod laws;
pub mod level;
pub mod load;
pub mod model;
pub mod render;
pub mod resources;
pub mod store;
pub mod systems;
pub mod world;

pub use specs::World;

pub use components::{BoxSpot, Components, Entity, EntityKind, Movable, Player, Renderable, Wall};
pub use events::Event;
pub use grid::{Direction, Position};
pub use level::{decode, MalformedLevel, Spawn};
pub use load::{initialize_level, load_map, FIRST_LEVEL};
pub use render::{paint, paint_list, Sprite};
pub use resources::{
    register_resources, EventQueue, Gameplay, GameplayState, Grid, InputQueue, KeyCode, Resources,
    Time,
};
pub use store::CAPACITY;
pub use world::{new_world, query, set_position, snapshot, spawn, Query};
pub use systems::{
    advance_clock, drain_events, gameplay, next_move_counts, press_key, run_gameplay_state,
    run_input, time, try_update, update,
};
