//! What a world holds, as mathematics, and what each phase of a tick makes of
//! it.

use vstd::prelude::*;
use crate::components::Components;
use crate::events::Event;
use crate::grid::{neighbour, Direction, Position};
use crate::resources::{direction_of, Gameplay, GameplayState, KeyCode, ResourcesView, Time};
use crate::store::{entity_table, spare_ids, storages_ready, stored_resources, CAPACITY};

verus! {

/// A game: the entities by id, the cells of the grid, and the resources.
pub struct Game {
    pub entities: Map<int, Components>,
    pub cells: Seq<Position>,
    pub keys: Seq<KeyCode>,
    pub gameplay: Gameplay,
    pub time: Time,
    pub events: Seq<Event>,
}

/// The game made of the entities of a world and the given resources.
pub open spec fn game_with(world: specs::World, resources: ResourcesView) -> Game {
    Game {
        entities: entity_table(world),
        cells: resources.cells,
        keys: resources.keys,
        gameplay: resources.gameplay,
        time: resources.time,
        events: resources.events,
    }
}

/// The game that a world holds.
pub open spec fn game_of(world: specs::World) -> Game
    recommends
        stored_resources(world) is Some,
{
    game_with(world, stored_resources(world)->Some_0)
}

/// Whether the entity exists and is the player.
pub open spec fn is_player(table: Map<int, Components>, id: int) -> bool {
    table.contains_key(id) && table[id].player is Some
}

/// Whether the entity exists and is a wall on the cell.
pub open spec fn is_wall_on(table: Map<int, Components>, id: int, cell: Position) -> bool {
    table.contains_key(id) && table[id].wall is Some && table[id].position == cell
}

/// Whether the entity exists and is a box on the cell.
pub open spec fn is_box_on(table: Map<int, Components>, id: int, cell: Position) -> bool {
    table.contains_key(id) && table[id].movable is Some && table[id].position == cell
}

/// Whether the entity exists and is a spot on the cell.
pub open spec fn is_spot_on(table: Map<int, Components>, id: int, cell: Position) -> bool {
    table.contains_key(id) && table[id].spot is Some && table[id].position == cell
}

/// Whether the cell holds a wall.
pub open spec fn wall_at(game: Game, cell: Position) -> bool {
    exists|id: int| is_wall_on(game.entities, id, cell)
}

/// Whether the cell holds a box.
pub open spec fn box_at(game: Game, cell: Position) -> bool {
    exists|id: int| is_box_on(game.entities, id, cell)
}

/// Whether the cell holds a spot.
pub open spec fn spot_at(game: Game, cell: Position) -> bool {
    exists|id: int| is_spot_on(game.entities, id, cell)
}

/// The cell of the player, if the game has one.
pub open spec fn player_cell(game: Game) -> Option<Position> {
    if exists|id: int| is_player(game.entities, id) {
        Some(game.entities[choose|id: int| is_player(game.entities, id)].position)
    } else {
        None
    }
}

/// How many of the four marks an entity holds.
pub open spec fn marks(components: Components) -> nat {
    (if components.player is Some { 1nat } else { 0 })
        + (if components.movable is Some { 1nat } else { 0 })
        + (if components.spot is Some { 1nat } else { 0 })
        + (if components.wall is Some { 1nat } else { 0 })
}

/// The invariant of a game: the grid holds each of its cells once; the
/// entities are finitely many, each stands on a cell of the grid and holds at
/// most one mark, no two of those that occupy their cell share one, and at
/// most one is the player.
pub open spec fn board_ok(game: Game) -> bool {
    &&& game.cells.no_duplicates()
    &&& game.entities.dom().finite()
    &&& forall|id: int| #[trigger]
        game.entities.contains_key(id) ==> game.cells.contains(game.entities[id].position)
            && marks(game.entities[id]) <= 1
    &&& forall|a: int, b: int|
        #![trigger game.entities[a], game.entities[b]]
        game.entities.contains_key(a) && game.entities.contains_key(b) && a != b
            && game.entities[a].solid() && game.entities[b].solid() ==> game.entities[a].position
            != game.entities[b].position
    &&& forall|a: int, b: int|
        #[trigger] is_player(game.entities, a) && #[trigger] is_player(game.entities, b) ==> a
            == b
}

/// Whether a world has no entity.
pub open spec fn vacant(world: specs::World) -> bool {
    forall|id: int| !entity_table(world).contains_key(id)
}

/// Whether a world is fit for play: it is ready for entities, holds its
/// resources, has ids to spare for `CAPACITY` entities in all, and its game
/// keeps the invariant. This holds at every moment, within a tick too.
pub open spec fn fit(world: specs::World) -> bool {
    &&& storages_ready(world)
    &&& stored_resources(world) is Some
    &&& spare_ids(world) + entity_table(world).len() >= CAPACITY
    &&& board_ok(game_of(world))
}

/// Whether a world is as it is between two ticks: fit for play, and with no
/// event left from the tick before.
pub open spec fn wf(world: specs::World) -> bool {
    fit(world) && game_of(world).events.len() == 0
}

/// What becomes of a request to move.
#[derive(Clone, Copy, Debug, PartialEq, Eq, Structural)]
pub enum Move {
    /// Nothing moves.
    Rejected,
    /// The player steps onto the free cell `to`.
    Walk { to: Position },
    /// The player steps onto `to` and pushes the box there onto `beyond`.
    Push { to: Position, beyond: Position },
}

/// Whether something can move onto the cell as far as the grid and the walls
/// go: it is a cell of the grid and holds no wall.
pub open spec fn passable(game: Game, cell: Option<Position>) -> bool {
    cell is Some && game.cells.contains(cell->Some_0) && !wall_at(game, cell->Some_0)
}

/// What becomes of the player's request to move in a direction.
///
/// The move is rejected where the game has no player, where the cell ahead is
/// off the grid or holds a wall, and where it holds a box and the cell beyond
/// it is off the grid or holds a wall or a box.
pub open spec fn plan(game: Game, toward: Direction) -> Move {
    match player_cell(game) {
        None => Move::Rejected,
        Some(from) => {
            let to = neighbour(from, toward);
            if !passable(game, to) {
                Move::Rejected
            } else if !box_at(game, to->Some_0) {
                Move::Walk { to: to->Some_0 }
            } else {
                let beyond = neighbour(to->Some_0, toward);
                if passable(game, beyond) && !box_at(game, beyond->Some_0) {
                    Move::Push { to: to->Some_0, beyond: beyond->Some_0 }
                } else {
                    Move::Rejected
                }
            }
        },
    }
}

/// What a move makes of one entity: the player goes to `to`, a box on `to`
/// goes to `beyond`, and everything else stays.
pub open spec fn moved(components: Components, step: Move) -> Components {
    match step {
        Move::Rejected => components,
        Move::Walk { to } => if components.player is Some {
            components.at(to)
        } else {
            components
        },
        Move::Push { to, beyond } => if components.player is Some {
            components.at(to)
        } else if components.movable is Some && components.position == to {
            components.at(beyond)
        } else {
            components
        },
    }
}

/// The events of a move: a push onto a spot, then a push off a spot.
pub open spec fn move_events(game: Game, step: Move) -> Seq<Event> {
    match step {
        Move::Push { to, beyond } => (if spot_at(game, beyond) {
            seq![Event::BoxEnteredSpot { position: beyond }]
        } else {
            Seq::empty()
        }) + (if spot_at(game, to) {
            seq![Event::BoxLeftSpot { position: to }]
        } else {
            Seq::empty()
        }),
        _ => Seq::empty(),
    }
}

/// The game after a move: a rejected move changes nothing; any other moves the
/// entities, counts as one move and appends its events.
pub open spec fn after_move(game: Game, step: Move) -> Game {
    match step {
        Move::Rejected => game,
        _ => Game {
            entities: Map::new(
                |id: int| game.entities.contains_key(id),
                |id: int| moved(game.entities[id], step),
            ),
            gameplay: Gameplay {
                state: game.gameplay.state,
                moves_count: (game.gameplay.moves_count + 1) as u32,
            },
            events: game.events + move_events(game, step),
            ..game
        },
    }
}

/// The game without its oldest pending key.
pub open spec fn rest_of(game: Game) -> Game {
    Game { keys: game.keys.drop_first(), ..game }
}

/// Whether the input phase will count a move: a key is pending, the puzzle is
/// being played, the key asks for a direction, and the move in that direction
/// is not rejected.
pub open spec fn counts_move(game: Game) -> bool {
    game.keys.len() > 0 && game.gameplay.state == GameplayState::Playing && match direction_of(
        game.keys.first(),
    ) {
        Some(toward) => plan(rest_of(game), toward) != Move::Rejected,
        None => false,
    }
}

/// The game after the input phase: the oldest pending key is consumed; if the
/// puzzle is still being played and the key asks for a direction, the player's
/// move in that direction is resolved.
pub open spec fn after_input(game: Game) -> Game {
    if game.keys.len() == 0 {
        game
    } else {
        let rest = rest_of(game);
        match direction_of(game.keys.first()) {
            Some(toward) if game.gameplay.state == GameplayState::Playing => after_move(
                rest,
                plan(rest, toward),
            ),
            _ => rest,
        }
    }
}

/// The cells that hold a box.
pub open spec fn box_cells(game: Game) -> Set<Position> {
    Set::new(|cell: Position| box_at(game, cell))
}

/// The cells that hold a spot.
pub open spec fn spot_cells(game: Game) -> Set<Position> {
    Set::new(|cell: Position| spot_at(game, cell))
}

/// Whether every spot holds a box and every box stands on a spot.
pub open spec fn solved(game: Game) -> bool {
    box_cells(game) =~= spot_cells(game)
}

/// The game after the win condition is evaluated: a game that is being played
/// and is solved is won, which is an event; any other game stays as it is.
pub open spec fn after_evaluation(game: Game) -> Game {
    if game.gameplay.state == GameplayState::Playing && solved(game) {
        Game {
            gameplay: Gameplay {
                state: GameplayState::Won,
                moves_count: game.gameplay.moves_count,
            },
            events: game.events.push(Event::PuzzleSolved),
            ..game
        }
    } else {
        game
    }
}

/// The game after the clock has advanced by `elapsed` nanoseconds.
pub open spec fn after_clock(game: Game, elapsed: u128) -> Game {
    Game { time: Time { delta: (game.time.delta + elapsed) as u128 }, ..game }
}

/// The game after its events were handed out: it has none left.
pub open spec fn after_drain(game: Game) -> Game {
    Game { events: Seq::empty(), ..game }
}

/// Whether the count of moves and the clock have room for one more tick: the
/// count can take the move of the tick, if the tick counts one, and the clock
/// can take the time that has passed.
pub open spec fn has_room(game: Game, elapsed: u128) -> bool {
    (counts_move(game) ==> game.gameplay.moves_count < u32::MAX) && game.time.delta + elapsed
        <= u128::MAX
}

/// The game at the end of a tick, before its events are handed out: input,
/// then the win condition, then the clock.
pub open spec fn after_phases(game: Game, elapsed: u128) -> Game {
    after_clock(after_evaluation(after_input(game)), elapsed)
}

} // verus!
