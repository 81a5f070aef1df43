//! The shared state of a game that belongs to no single entity.

use vstd::prelude::*;
use std::collections::VecDeque;
use crate::events::Event;
use crate::grid::{Direction, Position};
use crate::model::{fit, vacant, wf};
use crate::store::{
    entity_table, put_resources, spare_ids, storages_ready, stored_resources,
};

verus! {

/// A key as the game sees it: the four arrows, and everything else.
#[derive(Clone, Copy, Debug, PartialEq, Eq, Structural)]
pub enum KeyCode {
    Up,
    Down,
    Left,
    Right,
    Other,
}

/// The direction that a key asks for, if it asks for one.
pub open spec fn direction_of(key: KeyCode) -> Option<Direction> {
    match key {
        KeyCode::Up => Some(Direction::Up),
        KeyCode::Down => Some(Direction::Down),
        KeyCode::Left => Some(Direction::Left),
        KeyCode::Right => Some(Direction::Right),
        KeyCode::Other => None,
    }
}

impl KeyCode {
    /// The direction that this key asks for, if it asks for one.
    pub fn direction(self) -> (toward: Option<Direction>)
        ensures
            toward == direction_of(self),
    {
        match self {
            KeyCode::Up => Some(Direction::Up),
            KeyCode::Down => Some(Direction::Down),
            KeyCode::Left => Some(Direction::Left),
            KeyCode::Right => Some(Direction::Right),
            KeyCode::Other => None,
        }
    }
}

/// The keys that were pressed and not yet consumed, oldest first.
pub struct InputQueue {
    pub keys_pressed: VecDeque<KeyCode>,
}

impl Default for InputQueue {
    fn default() -> (queue: Self)
        ensures
            queue.keys_pressed@ == Seq::<KeyCode>::empty(),
    {
        InputQueue { keys_pressed: VecDeque::new() }
    }
}

/// Whether the puzzle is still being played.
#[derive(Clone, Copy, Debug, PartialEq, Eq, Structural)]
pub enum GameplayState {
    Playing,
    Won,
}

impl Default for GameplayState {
    fn default() -> (state: Self)
        ensures
            state == GameplayState::Playing,
    {
        Self::Playing
    }
}

impl GameplayState {
    /// The name of the state as it is shown to the player.
    pub open spec fn label(self) -> Seq<char> {
        match self {
            GameplayState::Playing => "Playing"@,
            GameplayState::Won => "Won"@,
        }
    }

    /// The state as text: `Playing` or `Won`.
    pub fn to_string(&self) -> (text: String)
        ensures
            text@ == self.label(),
    {
        match self {
            GameplayState::Playing => "Playing".to_owned(),
            GameplayState::Won => "Won".to_owned(),
        }
    }
}

/// The state of play and the number of moves made so far.
#[derive(Clone, Copy, Debug, PartialEq, Eq, Structural)]
pub struct Gameplay {
    pub state: GameplayState,
    pub moves_count: u32,
}

impl Default for Gameplay {
    fn default() -> (gameplay: Self)
        ensures
            gameplay == (Gameplay { state: GameplayState::Playing, moves_count: 0 }),
    {
        Gameplay { state: GameplayState::Playing, moves_count: 0 }
    }
}

/// The time that has passed over all ticks, in nanoseconds.
#[derive(Clone, Copy, Debug, PartialEq, Eq, Structural)]
pub struct Time {
    pub delta: u128,
}

impl Default for Time {
    fn default() -> (time: Self)
        ensures
            time == (Time { delta: 0 }),
    {
        Time { delta: 0 }
    }
}

/// The events of the current tick, oldest first.
pub struct EventQueue {
    pub events: Vec<Event>,
}

impl Default for EventQueue {
    fn default() -> (queue: Self)
        ensures
            queue.events@ == Seq::<Event>::empty(),
    {
        EventQueue { events: Vec::new() }
    }
}

/// The cells that belong to the level, each once.
pub struct Grid {
    pub cells: Vec<Position>,
}

impl Default for Grid {
    fn default() -> (grid: Self)
        ensures
            grid.cells@ == Seq::<Position>::empty(),
    {
        Grid { cells: Vec::new() }
    }
}

/// All resources of a world, taken together.
pub struct Resources {
    pub input: InputQueue,
    pub gameplay: Gameplay,
    pub time: Time,
    pub events: EventQueue,
    pub grid: Grid,
}

/// What a set of resources holds.
pub struct ResourcesView {
    pub keys: Seq<KeyCode>,
    pub gameplay: Gameplay,
    pub time: Time,
    pub events: Seq<Event>,
    pub cells: Seq<Position>,
}

impl View for Resources {
    type V = ResourcesView;

    open spec fn view(&self) -> ResourcesView {
        ResourcesView {
            keys: self.input.keys_pressed@,
            gameplay: self.gameplay,
            time: self.time,
            events: self.events.events@,
            cells: self.grid.cells@,
        }
    }
}

/// The resources of a world in which nothing has happened yet.
pub open spec fn initial_resources() -> ResourcesView {
    ResourcesView {
        keys: Seq::empty(),
        gameplay: Gameplay { state: GameplayState::Playing, moves_count: 0 },
        time: Time { delta: 0 },
        events: Seq::empty(),
        cells: Seq::empty(),
    }
}

impl Default for Resources {
    fn default() -> (resources: Self)
        ensures
            resources@ == initial_resources(),
    {
        Resources {
            input: InputQueue::default(),
            gameplay: Gameplay::default(),
            time: Time::default(),
            events: EventQueue::default(),
            grid: Grid::default(),
        }
    }
}

/// Gives the world its resources, each in its initial state: no pending key,
/// play in progress with no move made, no time passed, no event, and a grid
/// without cells. Resources that the world held before are replaced; entities
/// are not touched. A world without entities that was fit for play is fit for
/// play afterwards, and ready for a level.
pub fn register_resources(world: &mut specs::World)
    ensures
        stored_resources(*final(world)) == Some(initial_resources()),
        entity_table(*final(world)) == entity_table(*old(world)),
        storages_ready(*final(world)) == storages_ready(*old(world)),
        spare_ids(*final(world)) == spare_ids(*old(world)),
        fit(*old(world)) && vacant(*old(world)) ==> wf(*final(world)) && vacant(*final(world)),
{
    put_resources(world, Resources::default());
}

} // verus!
