//! The phases of a tick: input, the win condition, the clock and the events.

use vstd::prelude::*;
use crate::components::Entity;
use crate::events::Event;
use crate::grid::{Direction, Position};
use crate::laws::{board_is_of_entities, move_keeps_board, player_is_unique};
use crate::model::{
    after_clock, after_drain, after_evaluation, after_input, after_move, after_phases, board_ok,
    box_at, box_cells, counts_move, fit, game_of, game_with, has_room, is_box_on, is_player,
    is_spot_on, is_wall_on, marks, moved, plan, rest_of, solved, spot_at, spot_cells, wall_at, wf,
    Game, Move,
};
use crate::resources::{EventQueue, Gameplay, GameplayState, KeyCode, Resources, Time};
use crate::store::{
    entity_table, lists_table, put_resources, read_resources, records, relocate, spare_ids,
    storages_ready, stored_resources, take_resources,
};

verus! {

/// Whether the entity is a wall on the cell.
pub open spec fn wall_here(entity: Entity, cell: Position) -> bool {
    entity.components.wall is Some && entity.components.position == cell
}

/// Whether the entity is a box on the cell.
pub open spec fn box_here(entity: Entity, cell: Position) -> bool {
    entity.components.movable is Some && entity.components.position == cell
}

/// Whether the entity is a spot on the cell.
pub open spec fn spot_here(entity: Entity, cell: Position) -> bool {
    entity.components.spot is Some && entity.components.position == cell
}

/// Whether the list names a wall on the cell.
pub open spec fn lists_wall(list: Seq<Entity>, cell: Position) -> bool {
    exists|i: int| 0 <= i < list.len() && wall_here(#[trigger] list[i], cell)
}

/// Whether the list names a box on the cell.
pub open spec fn lists_box(list: Seq<Entity>, cell: Position) -> bool {
    exists|i: int| 0 <= i < list.len() && box_here(#[trigger] list[i], cell)
}

/// Whether the list names a spot on the cell.
pub open spec fn lists_spot(list: Seq<Entity>, cell: Position) -> bool {
    exists|i: int| 0 <= i < list.len() && spot_here(#[trigger] list[i], cell)
}

/// A list of the entities of a game names a wall, a box or a spot on a cell
/// where the game has one there, and nowhere else.
proof fn list_shows(list: Seq<Entity>, game: Game, cell: Position)
    requires
        lists_table(list, game.entities),
    ensures
        wall_at(game, cell) == lists_wall(list, cell),
        box_at(game, cell) == lists_box(list, cell),
        spot_at(game, cell) == lists_spot(list, cell),
{
    if wall_at(game, cell) {
        let id = choose|id: int| is_wall_on(game.entities, id, cell);
        let i = choose|i: int| 0 <= i < list.len() && #[trigger] list[i].id as int == id;
        assert(wall_here(list[i], cell));
    }
    if lists_wall(list, cell) {
        let i = choose|i: int| 0 <= i < list.len() && wall_here(#[trigger] list[i], cell);
        assert(game.entities.contains_key(list[i].id as int));
        assert(is_wall_on(game.entities, list[i].id as int, cell));
    }
    if box_at(game, cell) {
        let id = choose|id: int| is_box_on(game.entities, id, cell);
        let i = choose|i: int| 0 <= i < list.len() && #[trigger] list[i].id as int == id;
        assert(box_here(list[i], cell));
    }
    if lists_box(list, cell) {
        let i = choose|i: int| 0 <= i < list.len() && box_here(#[trigger] list[i], cell);
        assert(game.entities.contains_key(list[i].id as int));
        assert(is_box_on(game.entities, list[i].id as int, cell));
    }
    if spot_at(game, cell) {
        let id = choose|id: int| is_spot_on(game.entities, id, cell);
        let i = choose|i: int| 0 <= i < list.len() && #[trigger] list[i].id as int == id;
        assert(spot_here(list[i], cell));
    }
    if lists_spot(list, cell) {
        let i = choose|i: int| 0 <= i < list.len() && spot_here(#[trigger] list[i], cell);
        assert(game.entities.contains_key(list[i].id as int));
        assert(is_spot_on(game.entities, list[i].id as int, cell));
    }
}

/// The place in the list of the first entity that is the player.
pub(crate) fn find_player(list: &Vec<Entity>) -> (found: Option<usize>)
    ensures
        found is Some ==> found->Some_0 < list.len() && list[found->Some_0 as int].components.player
            is Some,
        found is None ==> forall|i: int|
            0 <= i < list.len() ==> (#[trigger] list[i]).components.player is None,
{
    let mut i: usize = 0;
    while i < list.len()
        invariant
            0 <= i <= list.len(),
            forall|k: int| 0 <= k < i ==> (#[trigger] list[k]).components.player is None,
        decreases list.len() - i,
    {
        if list[i].components.player.is_some() {
            return Some(i);
        }
        i += 1;
    }
    None
}

/// Whether the list names a wall on the cell.
fn wall_on(list: &Vec<Entity>, cell: Position) -> (found: bool)
    ensures
        found == lists_wall(list@, cell),
{
    let mut i: usize = 0;
    while i < list.len()
        invariant
            0 <= i <= list.len(),
            forall|k: int| 0 <= k < i ==> !wall_here(#[trigger] list[k], cell),
        decreases list.len() - i,
    {
        if list[i].components.wall.is_some() && list[i].components.position == cell {
            return true;
        }
        i += 1;
    }
    false
}

/// The place in the list of the first box on the cell.
fn box_on(list: &Vec<Entity>, cell: Position) -> (found: Option<usize>)
    ensures
        found is Some ==> found->Some_0 < list.len() && box_here(list[found->Some_0 as int], cell),
        found is Some == lists_box(list@, cell),
{
    let mut i: usize = 0;
    while i < list.len()
        invariant
            0 <= i <= list.len(),
            forall|k: int| 0 <= k < i ==> !box_here(#[trigger] list[k], cell),
        decreases list.len() - i,
    {
        if list[i].components.movable.is_some() && list[i].components.position == cell {
            return Some(i);
        }
        i += 1;
    }
    None
}

/// Whether the list names a spot on the cell.
fn spot_on(list: &Vec<Entity>, cell: Position) -> (found: bool)
    ensures
        found == lists_spot(list@, cell),
{
    let mut i: usize = 0;
    while i < list.len()
        invariant
            0 <= i <= list.len(),
            forall|k: int| 0 <= k < i ==> !spot_here(#[trigger] list[k], cell),
        decreases list.len() - i,
    {
        if list[i].components.spot.is_some() && list[i].components.position == cell {
            return true;
        }
        i += 1;
    }
    false
}

/// Whether the cell is one of the given cells.
pub(crate) fn in_cells(cells: &Vec<Position>, cell: Position) -> (found: bool)
    ensures
        found == cells@.contains(cell),
{
    let mut i: usize = 0;
    while i < cells.len()
        invariant
            0 <= i <= cells.len(),
            forall|k: int| 0 <= k < i ==> cells[k] != cell,
        decreases cells.len() - i,
    {
        if cells[i] == cell {
            return true;
        }
        i += 1;
    }
    false
}

/// What planning a move finds: what becomes of the request, and where in the
/// list the player and the pushed box stand.
struct Planned {
    step: Move,
    player: usize,
    pushed: usize,
}

/// Plans the player's move in a direction, from a list of the entities of the
/// game and its cells.
fn plan_move(
    list: &Vec<Entity>,
    cells: &Vec<Position>,
    toward: Direction,
    Ghost(game): Ghost<Game>,
) -> (found: Planned)
    requires
        lists_table(list@, game.entities),
        cells@ == game.cells,
        board_ok(game),
    ensures
        found.step == plan(game, toward),
        found.step != Move::Rejected ==> found.player < list.len() && is_player(
            game.entities,
            list[found.player as int].id as int,
        ),
        found.step matches Move::Push { to, beyond } ==> found.pushed < list.len() && is_box_on(
            game.entities,
            list[found.pushed as int].id as int,
            to,
        ),
{
    let rejected = Planned { step: Move::Rejected, player: 0, pushed: 0 };
    let at = match find_player(list) {
        Some(at) => at,
        None => {
            proof {
                assert forall|id: int| !is_player(game.entities, id) by {
                    if is_player(game.entities, id) {
                        let i = choose|i: int|
                            0 <= i < list.len() && #[trigger] list[i].id as int == id;
                        assert(list[i].components.player is Some);
                    }
                }
            }
            return rejected;
        },
    };
    proof {
        assert(game.entities.contains_key(list[at as int].id as int));
        player_is_unique(game, list[at as int].id as int);
    }
    let to = match list[at].components.position.step(toward) {
        Some(to) => to,
        None => {
            return rejected;
        },
    };
    proof {
        list_shows(list@, game, to);
    }
    if !in_cells(cells, to) || wall_on(list, to) {
        return rejected;
    }
    let there = match box_on(list, to) {
        Some(there) => there,
        None => {
            return Planned { step: Move::Walk { to }, player: at, pushed: 0 };
        },
    };
    proof {
        assert(game.entities.contains_key(list[there as int].id as int));
    }
    let beyond = match to.step(toward) {
        Some(beyond) => beyond,
        None => {
            return rejected;
        },
    };
    proof {
        list_shows(list@, game, beyond);
    }
    if in_cells(cells, beyond) && !wall_on(list, beyond) && box_on(list, beyond).is_none() {
        Planned { step: Move::Push { to, beyond }, player: at, pushed: there }
    } else {
        rejected
    }
}

/// Resolves the player's request to move in a direction: the entities move
/// as the plan says, a move that is not rejected is counted, and a push onto
/// or off a spot is an event.
fn resolve_move(world: &mut specs::World, resources: &mut Resources, toward: Direction)
    requires
        storages_ready(*old(world)),
        board_ok(game_with(*old(world), old(resources)@)),
        plan(game_with(*old(world), old(resources)@), toward) != Move::Rejected ==> old(
            resources,
        ).gameplay.moves_count < u32::MAX,
    ensures
        game_with(*final(world), final(resources)@) == after_move(
            game_with(*old(world), old(resources)@),
            plan(game_with(*old(world), old(resources)@), toward),
        ),
        storages_ready(*final(world)),
        stored_resources(*final(world)) == stored_resources(*old(world)),
        spare_ids(*final(world)) == spare_ids(*old(world)),
        entity_table(*final(world)).dom() == entity_table(*old(world)).dom(),
{
    let ghost game = game_with(*world, resources@);
    let list = records(world);
    let found = plan_move(&list, &resources.grid.cells, toward, Ghost(game));
    match found.step {
        Move::Rejected => {},
        Move::Walk { to } => {
            let me = list[found.player];
            relocate(world, me.id, to);
            resources.gameplay.moves_count += 1;
            proof {
                let after = after_move(game, found.step);
                let table = entity_table(*world);
                assert forall|id: int| game.entities.contains_key(id) implies #[trigger] table[id]
                    == moved(game.entities[id], found.step) by {
                    if id != me.id as int && game.entities[id].player is Some {
                        assert(is_player(game.entities, id));
                    }
                }
                assert(table =~= after.entities);
                assert(resources@.events =~= after.events);
            }
        },
        Move::Push { to, beyond } => {
            let me = list[found.player];
            let pushed = list[found.pushed];
            proof {
                list_shows(list@, game, to);
                list_shows(list@, game, beyond);
            }
            let entered = spot_on(&list, beyond);
            let left = spot_on(&list, to);
            relocate(world, pushed.id, beyond);
            relocate(world, me.id, to);
            if entered {
                resources.events.events.push(Event::BoxEnteredSpot { position: beyond });
            }
            if left {
                resources.events.events.push(Event::BoxLeftSpot { position: to });
            }
            resources.gameplay.moves_count += 1;
            proof {
                let after = after_move(game, found.step);
                let table = entity_table(*world);
                assert(marks(game.entities[me.id as int]) <= 1);
                assert forall|id: int| game.entities.contains_key(id) implies #[trigger] table[id]
                    == moved(game.entities[id], found.step) by {
                    if id != me.id as int && game.entities[id].player is Some {
                        assert(is_player(game.entities, id));
                    }
                    if id != pushed.id as int && game.entities[id].movable is Some
                        && game.entities[id].position == to {
                        assert(game.entities[id].solid());
                        assert(game.entities[pushed.id as int].solid());
                    }
                }
                assert(table =~= after.entities);
                assert(resources@.events =~= after.events);
            }
        },
    }
}

/// The input phase of a tick. The oldest pending key is consumed. While the
/// puzzle is being played, a key that asks for a direction moves the player
/// one cell that way, pushing the box ahead of it if there is one; the move is
/// rejected, and changes nothing, where a wall, the edge of the grid or a box
/// that cannot be pushed is in the way. Once the puzzle is won, keys are
/// consumed and change nothing. A move that is not rejected is counted: only
/// then must the count of moves have room.
pub fn run_input(world: &mut specs::World)
    requires
        fit(*old(world)),
        counts_move(game_of(*old(world))) ==> game_of(*old(world)).gameplay.moves_count
            < u32::MAX,
    ensures
        fit(*final(world)),
        game_of(*final(world)) == after_input(game_of(*old(world))),
        spare_ids(*final(world)) == spare_ids(*old(world)),
        entity_table(*final(world)).dom() == entity_table(*old(world)).dom(),
{
    let ghost game = game_of(*world);
    let mut resources = take_resources(world);
    let key = resources.input.keys_pressed.pop_front();
    match key {
        None => {},
        Some(key) => {
            let ghost rest = rest_of(game);
            proof {
                board_is_of_entities(game, rest);
            }
            match resources.gameplay.state {
                GameplayState::Won => {},
                GameplayState::Playing => match key.direction() {
                    None => {},
                    Some(toward) => {
                        resolve_move(world, &mut resources, toward);
                        proof {
                            move_keeps_board(rest, toward);
                        }
                    },
                },
            }
        },
    }
    put_resources(world, resources);
}

/// Whether every box of the list shares its cell with a spot of the list, and
/// every spot with a box.
pub open spec fn covers(list: Seq<Entity>) -> bool {
    forall|i: int|
        0 <= i < list.len() ==> ((#[trigger] list[i]).components.movable is Some ==> lists_spot(
            list,
            list[i].components.position,
        )) && (list[i].components.spot is Some ==> lists_box(list, list[i].components.position))
}

/// A list of the entities of a game covers itself exactly where the game is
/// solved.
proof fn covers_is_solved(list: Seq<Entity>, game: Game)
    requires
        lists_table(list, game.entities),
    ensures
        covers(list) == solved(game),
{
    if covers(list) {
        assert forall|cell: Position| box_at(game, cell) == spot_at(game, cell) by {
            list_shows(list, game, cell);
            if lists_box(list, cell) {
                let i = choose|i: int| 0 <= i < list.len() && box_here(#[trigger] list[i], cell);
                assert(lists_spot(list, list[i].components.position));
            }
            if lists_spot(list, cell) {
                let i = choose|i: int| 0 <= i < list.len() && spot_here(#[trigger] list[i], cell);
                assert(lists_box(list, list[i].components.position));
            }
        }
    }
    if solved(game) {
        assert forall|i: int| 0 <= i < list.len() implies ((#[trigger] list[i]).components.movable
            is Some ==> lists_spot(list, list[i].components.position)) && (list[i].components.spot
            is Some ==> lists_box(list, list[i].components.position)) by {
            let cell = list[i].components.position;
            list_shows(list, game, cell);
            assert(box_cells(game).contains(cell) == spot_cells(game).contains(cell));
            assert(list[i].components.movable is Some ==> box_here(list[i], cell));
            assert(list[i].components.spot is Some ==> spot_here(list[i], cell));
        }
    }
}

/// Whether every box shares its cell with a spot, and every spot with a box.
fn all_covered(list: &Vec<Entity>) -> (yes: bool)
    ensures
        yes == covers(list@),
{
    let mut i: usize = 0;
    while i < list.len()
        invariant
            0 <= i <= list.len(),
            forall|k: int|
                0 <= k < i ==> ((#[trigger] list[k]).components.movable is Some ==> lists_spot(
                    list@,
                    list[k].components.position,
                )) && (list[k].components.spot is Some ==> lists_box(
                    list@,
                    list[k].components.position,
                )),
        decreases list.len() - i,
    {
        let cell = list[i].components.position;
        if list[i].components.movable.is_some() && !spot_on(list, cell) {
            return false;
        }
        if list[i].components.spot.is_some() && box_on(list, cell).is_none() {
            return false;
        }
        i += 1;
    }
    true
}

/// The phase of a tick that evaluates the win condition. While the puzzle is
/// being played and the cells with a box are the cells with a spot, the puzzle
/// becomes won and `PuzzleSolved` is appended to the events. A puzzle that is
/// won stays won and gives no further event.
pub fn run_gameplay_state(world: &mut specs::World)
    requires
        fit(*old(world)),
    ensures
        fit(*final(world)),
        game_of(*final(world)) == after_evaluation(game_of(*old(world))),
        spare_ids(*final(world)) == spare_ids(*old(world)),
        entity_table(*final(world)) == entity_table(*old(world)),
{
    let ghost game = game_of(*world);
    let mut resources = take_resources(world);
    match resources.gameplay.state {
        GameplayState::Won => {},
        GameplayState::Playing => {
            let list = records(world);
            proof {
                covers_is_solved(list@, game);
            }
            if all_covered(&list) {
                resources.gameplay.state = GameplayState::Won;
                resources.events.events.push(Event::PuzzleSolved);
            }
        },
    }
    proof {
        board_is_of_entities(game, game_with(*world, resources@));
    }
    put_resources(world, resources);
}

/// The phase of a tick that advances the clock by the time that has passed,
/// in nanoseconds.
pub fn advance_clock(world: &mut specs::World, elapsed: u128)
    requires
        fit(*old(world)),
        game_of(*old(world)).time.delta + elapsed <= u128::MAX,
    ensures
        fit(*final(world)),
        wf(*old(world)) ==> wf(*final(world)),
        game_of(*final(world)) == after_clock(game_of(*old(world)), elapsed),
        spare_ids(*final(world)) == spare_ids(*old(world)),
        entity_table(*final(world)) == entity_table(*old(world)),
{
    let ghost game = game_of(*world);
    let mut resources = take_resources(world);
    resources.time.delta = resources.time.delta + elapsed;
    proof {
        board_is_of_entities(game, game_with(*world, resources@));
    }
    put_resources(world, resources);
}

/// The phase of a tick that hands out the events: all of them, oldest first.
/// The world has none afterwards, and is as it is between two ticks.
pub fn drain_events(world: &mut specs::World) -> (events: Vec<Event>)
    requires
        fit(*old(world)),
    ensures
        wf(*final(world)),
        events@ == game_of(*old(world)).events,
        game_of(*final(world)) == after_drain(game_of(*old(world))),
        spare_ids(*final(world)) == spare_ids(*old(world)),
        entity_table(*final(world)) == entity_table(*old(world)),
{
    let ghost game = game_of(*world);
    let resources = take_resources(world);
    let Resources { input, gameplay, time, events, grid } = resources;
    let emptied = Resources { input, gameplay, time, events: EventQueue::default(), grid };
    proof {
        board_is_of_entities(game, game_with(*world, emptied@));
    }
    put_resources(world, emptied);
    events.events
}

/// One tick: the input phase, the evaluation of the win condition, the clock,
/// and the events, in this order and each to its end. Returns the events of
/// the tick, oldest first; the world holds none afterwards, as it held none
/// before. The clock must have room for the time that has passed and, if the
/// tick counts a move, the count of moves for that move.
pub fn update(world: &mut specs::World, elapsed: u128) -> (events: Vec<Event>)
    requires
        wf(*old(world)),
        has_room(game_of(*old(world)), elapsed),
    ensures
        wf(*final(world)),
        events@ == after_phases(game_of(*old(world)), elapsed).events,
        game_of(*final(world)) == after_drain(after_phases(game_of(*old(world)), elapsed)),
        game_of(*final(world)).events.len() == 0,
        spare_ids(*final(world)) == spare_ids(*old(world)),
        entity_table(*final(world)).dom() == entity_table(*old(world)).dom(),
{
    run_input(world);
    run_gameplay_state(world);
    advance_clock(world, elapsed);
    drain_events(world)
}

/// Whether the input phase of the next tick will count a move.
pub fn next_move_counts(world: &specs::World) -> (yes: bool)
    requires
        fit(*world),
    ensures
        yes == counts_move(game_of(*world)),
{
    let copy = read_resources(world);
    if copy.3.len() == 0 {
        return false;
    }
    let toward = match copy.0.state {
        GameplayState::Won => {
            return false;
        },
        GameplayState::Playing => match copy.3[0].direction() {
            None => {
                return false;
            },
            Some(toward) => toward,
        },
    };
    let list = records(world);
    proof {
        board_is_of_entities(game_of(*world), rest_of(game_of(*world)));
    }
    let found = plan_move(&list, &copy.2, toward, Ghost(rest_of(game_of(*world))));
    match found.step {
        Move::Rejected => false,
        _ => true,
    }
}

/// One tick, if the count of moves and the clock have room for it; otherwise
/// nothing happens, the pending keys stay as they are, and nothing is
/// returned. A tick that counts no move needs no room in the count of moves.
pub fn try_update(world: &mut specs::World, elapsed: u128) -> (events: Option<Vec<Event>>)
    requires
        wf(*old(world)),
    ensures
        wf(*final(world)),
        has_room(game_of(*old(world)), elapsed) ==> events is Some && events->Some_0@
            == after_phases(game_of(*old(world)), elapsed).events && game_of(*final(world))
            == after_drain(after_phases(game_of(*old(world)), elapsed)),
        !has_room(game_of(*old(world)), elapsed) ==> events is None && *final(world) == *old(
            world,
        ),
{
    let counted = next_move_counts(world);
    let played = gameplay(world);
    let clock = time(world);
    if (!counted || played.moves_count < u32::MAX) && elapsed <= u128::MAX - clock.delta {
        Some(update(world, elapsed))
    } else {
        None
    }
}

/// Puts a key at the end of the pending keys.
pub fn press_key(world: &mut specs::World, key: KeyCode)
    requires
        fit(*old(world)),
    ensures
        fit(*final(world)),
        wf(*old(world)) ==> wf(*final(world)),
        game_of(*final(world)) == (Game {
            keys: game_of(*old(world)).keys.push(key),
            ..game_of(*old(world))
        }),
        spare_ids(*final(world)) == spare_ids(*old(world)),
        entity_table(*final(world)) == entity_table(*old(world)),
{
    let ghost game = game_of(*world);
    let mut resources = take_resources(world);
    resources.input.keys_pressed.push_back(key);
    proof {
        board_is_of_entities(game, game_with(*world, resources@));
    }
    put_resources(world, resources);
}

/// The state of play and the number of moves made so far.
pub fn gameplay(world: &specs::World) -> (gameplay: Gameplay)
    requires
        stored_resources(*world) is Some,
    ensures
        gameplay == game_of(*world).gameplay,
{
    read_resources(world).0
}

/// The time that has passed over all ticks.
pub fn time(world: &specs::World) -> (time: Time)
    requires
        stored_resources(*world) is Some,
    ensures
        time == game_of(*world).time,
{
    read_resources(world).1
}

} // verus!
