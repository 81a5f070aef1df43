//! What holds of every game, whatever its level and whatever keys arrive.

use vstd::prelude::*;
use crate::events::Event;
use crate::grid::{neighbour, Direction, Position};
use crate::level::{decodes_to, MalformedLevel, Spawn};
use crate::model::{
    after_evaluation, after_input, after_move, after_phases, board_ok, box_at, box_cells,
    counts_move, is_box_on, is_player, is_wall_on, marks, move_events, moved, plan, player_cell,
    rest_of, solved, spot_cells, wall_at, Game, Move,
};
use crate::resources::{direction_of, GameplayState};

verus! {

/// Decoding is deterministic: two results of decoding one text are the same
/// directives in the same order, or the same fault.
pub proof fn decoding_is_deterministic(
    text: Seq<u8>,
    first: Result<Vec<Spawn>, MalformedLevel>,
    second: Result<Vec<Spawn>, MalformedLevel>,
)
    requires
        decodes_to(text, first),
        decodes_to(text, second),
    ensures
        first is Ok <==> second is Ok,
        first is Ok ==> first->Ok_0@ == second->Ok_0@,
        first is Err ==> first->Err_0 == second->Err_0,
{
}

/// In a game that keeps the invariant, the cell of the player is the cell of
/// any entity that is the player.
pub proof fn player_is_unique(game: Game, id: int)
    requires
        board_ok(game),
        is_player(game.entities, id),
    ensures
        player_cell(game) == Some(game.entities[id].position),
{
    let chosen = choose|other: int| is_player(game.entities, other);
    assert(chosen == id);
}

/// The invariant speaks of the entities and the cells of a game alone.
pub proof fn board_is_of_entities(game: Game, other: Game)
    requires
        board_ok(game),
        other.entities == game.entities,
        other.cells == game.cells,
    ensures
        board_ok(other),
{
}

/// A move keeps the invariant of the game: afterwards every entity still
/// stands on a cell of the grid, and no two occupants share a cell.
pub proof fn move_keeps_board(game: Game, toward: Direction)
    requires
        board_ok(game),
    ensures
        board_ok(after_move(game, plan(game, toward))),
{
    let step = plan(game, toward);
    let after = after_move(game, step);
    match step {
        Move::Rejected => {},
        Move::Walk { to } => {
            assert(after.entities.dom() =~= game.entities.dom());
            assert forall|a: int, b: int|
                #![trigger after.entities[a], after.entities[b]]
                after.entities.contains_key(a) && after.entities.contains_key(b) && a != b
                    && after.entities[a].solid()
                    && after.entities[b].solid() implies after.entities[a].position
                != after.entities[b].position by {
                walk_keeps_apart(game, to, a, b);
                walk_keeps_apart(game, to, b, a);
            }
            assert forall|a: int, b: int|
                #[trigger] is_player(after.entities, a) && #[trigger] is_player(
                    after.entities,
                    b,
                ) implies a == b by {
                assert(is_player(game.entities, a) && is_player(game.entities, b));
            }
        },
        Move::Push { to, beyond } => {
            let from = player_cell(game)->Some_0;
            assert(after.entities.dom() =~= game.entities.dom());
            assert forall|a: int, b: int|
                #![trigger after.entities[a], after.entities[b]]
                after.entities.contains_key(a) && after.entities.contains_key(b) && a != b
                    && after.entities[a].solid()
                    && after.entities[b].solid() implies after.entities[a].position
                != after.entities[b].position by {
                push_keeps_apart(game, from, to, beyond, a, b);
                push_keeps_apart(game, from, to, beyond, b, a);
            }
            assert forall|a: int, b: int|
                #[trigger] is_player(after.entities, a) && #[trigger] is_player(
                    after.entities,
                    b,
                ) implies a == b by {
                assert(is_player(game.entities, a) && is_player(game.entities, b));
            }
        },
    }
}

/// After a step onto a free cell, an occupant that moved and one that did not
/// stand apart, as do two that did not move.
proof fn walk_keeps_apart(game: Game, to: Position, a: int, b: int)
    requires
        board_ok(game),
        game.cells.contains(to),
        !wall_at(game, to),
        !box_at(game, to),
        game.entities.contains_key(a),
        game.entities.contains_key(b),
        a != b,
        game.entities[a].solid(),
        game.entities[b].solid(),
    ensures
        game.entities[a].player is Some ==> moved(game.entities[a], Move::Walk { to }).position
            != moved(game.entities[b], Move::Walk { to }).position,
        game.entities[a].player is None && game.entities[b].player is None ==> moved(
            game.entities[a],
            Move::Walk { to },
        ).position != moved(game.entities[b], Move::Walk { to }).position,
{
    if game.entities[a].player is Some {
        assert(is_player(game.entities, a));
        if game.entities[b].player is Some {
            assert(is_player(game.entities, b));
        }
        if game.entities[b].position == to {
            if game.entities[b].wall is Some {
                assert(is_wall_on(game.entities, b, to));
            } else {
                assert(is_box_on(game.entities, b, to));
            }
        }
    }
}

/// After a push, an occupant that moved and any other stand apart, as do two
/// that did not move.
proof fn push_keeps_apart(
    game: Game,
    from: Position,
    to: Position,
    beyond: Position,
    a: int,
    b: int,
)
    requires
        board_ok(game),
        player_cell(game) == Some(from),
        beyond != from,
        beyond != to,
        !wall_at(game, to),
        !wall_at(game, beyond),
        !box_at(game, beyond),
        game.entities.contains_key(a),
        game.entities.contains_key(b),
        a != b,
        game.entities[a].solid(),
        game.entities[b].solid(),
    ensures
        game.entities[a].player is Some || (game.entities[a].movable is Some
            && game.entities[a].position == to) || (game.entities[b].player is None && !(
        game.entities[b].movable is Some && game.entities[b].position == to)) ==> moved(
            game.entities[a],
            Move::Push { to, beyond },
        ).position != moved(game.entities[b], Move::Push { to, beyond }).position,
{
    let first = game.entities[a];
    let second = game.entities[b];
    assert(marks(first) <= 1 && marks(second) <= 1);
    if first.player is Some {
        player_is_unique(game, a);
        if second.player is Some {
            assert(is_player(game.entities, b));
        }
        if second.position == to && !(second.movable is Some) {
            assert(is_wall_on(game.entities, b, to));
        }
    } else if first.movable is Some && first.position == to {
        if second.player is Some {
            player_is_unique(game, b);
        } else if second.position == beyond {
            if second.wall is Some {
                assert(is_wall_on(game.entities, b, beyond));
            } else {
                assert(is_box_on(game.entities, b, beyond));
            }
        }
    }
}

/// A move toward a wall is rejected: no entity moves, the player stays where
/// it is, no move is counted and no event is given.
pub proof fn wall_stops_the_player(game: Game, toward: Direction)
    requires
        player_cell(game) is Some,
        neighbour(player_cell(game)->Some_0, toward) is Some,
        wall_at(game, neighbour(player_cell(game)->Some_0, toward)->Some_0),
    ensures
        plan(game, toward) == Move::Rejected,
        after_move(game, plan(game, toward)) == game,
{
}

/// Whether a tick left every entity where it was, counted no move, consumed
/// the oldest key and gave no event, but perhaps that the puzzle is solved.
pub open spec fn nothing_moved(game: Game, after: Game) -> bool {
    &&& after.entities == game.entities
    &&& player_cell(after) == player_cell(game)
    &&& box_cells(after) == box_cells(game)
    &&& after.gameplay.moves_count == game.gameplay.moves_count
    &&& after.keys == game.keys.drop_first()
    &&& after.events == game.events || after.events == game.events.push(Event::PuzzleSolved)
}

/// A tick whose key asks for a move toward a wall keeps every entity, the
/// cell of the player and the count of moves; it consumes the key and gives
/// no event, but perhaps that the puzzle is solved.
pub proof fn tick_toward_a_wall(game: Game, toward: Direction, elapsed: u128)
    requires
        game.keys.len() > 0,
        direction_of(game.keys.first()) == Some(toward),
        player_cell(game) is Some,
        neighbour(player_cell(game)->Some_0, toward) is Some,
        wall_at(game, neighbour(player_cell(game)->Some_0, toward)->Some_0),
    ensures
        !counts_move(game),
        after_input(game) == rest_of(game),
        nothing_moved(game, after_phases(game, elapsed)),
{
    wall_stops_the_player(rest_of(game), toward);
    let after = after_phases(game, elapsed);
    assert(after.entities == game.entities);
    assert(box_cells(after) =~= box_cells(game));
}

/// A tick whose key asks for a push of a box against a wall, against another
/// box or off the grid keeps every entity and the count of moves; it consumes
/// the key and gives no event, but perhaps that the puzzle is solved.
pub proof fn tick_against_a_blocked_box(game: Game, toward: Direction, elapsed: u128)
    requires
        game.keys.len() > 0,
        direction_of(game.keys.first()) == Some(toward),
        player_cell(game) is Some,
        neighbour(player_cell(game)->Some_0, toward) is Some,
        box_at(game, neighbour(player_cell(game)->Some_0, toward)->Some_0),
        ({
            let beyond = neighbour(neighbour(player_cell(game)->Some_0, toward)->Some_0, toward);
            beyond is None || !game.cells.contains(beyond->Some_0) || wall_at(
                game,
                beyond->Some_0,
            ) || box_at(game, beyond->Some_0)
        }),
    ensures
        !counts_move(game),
        after_input(game) == rest_of(game),
        nothing_moved(game, after_phases(game, elapsed)),
{
    blocked_push_is_rejected(rest_of(game), toward);
    let after = after_phases(game, elapsed);
    assert(after.entities == game.entities);
    assert(box_cells(after) =~= box_cells(game));
}

/// A tick of a game that is being played, whose key asks for a push of a box
/// onto open floor, puts that box one cell on and the player on the cell of
/// the box, leaves every other entity as it was, and counts one move.
pub proof fn tick_with_a_free_push(
    game: Game,
    toward: Direction,
    elapsed: u128,
    player: int,
    pushed: int,
    to: Position,
    beyond: Position,
)
    requires
        board_ok(game),
        game.gameplay.state == GameplayState::Playing,
        game.gameplay.moves_count < u32::MAX,
        game.keys.len() > 0,
        direction_of(game.keys.first()) == Some(toward),
        is_player(game.entities, player),
        neighbour(game.entities[player].position, toward) == Some(to),
        is_box_on(game.entities, pushed, to),
        neighbour(to, toward) == Some(beyond),
        game.cells.contains(beyond),
        !wall_at(game, beyond),
        !box_at(game, beyond),
    ensures
        counts_move(game),
        after_phases(game, elapsed).entities.dom() == game.entities.dom(),
        after_phases(game, elapsed).entities[player] == game.entities[player].at(to),
        after_phases(game, elapsed).entities[pushed] == game.entities[pushed].at(beyond),
        forall|id: int|
            game.entities.contains_key(id) && id != player && id != pushed
                ==> #[trigger] after_phases(game, elapsed).entities[id] == game.entities[id],
        after_phases(game, elapsed).gameplay.moves_count == game.gameplay.moves_count + 1,
        after_phases(game, elapsed).keys == game.keys.drop_first(),
{
    board_is_of_entities(game, rest_of(game));
    free_push_moves_box_and_player(rest_of(game), toward, player, pushed, to, beyond);
}

/// A tick makes a game that is being played won exactly where, after the move
/// of the tick, the cells with a box are the cells with a spot.
pub proof fn tick_wins_exactly_when_solved(game: Game, elapsed: u128)
    requires
        game.gameplay.state == GameplayState::Playing,
    ensures
        after_phases(game, elapsed).gameplay.state == GameplayState::Won <==> box_cells(
            after_phases(game, elapsed),
        ) == spot_cells(after_phases(game, elapsed)),
        after_phases(game, elapsed).entities == after_input(game).entities,
{
    let moved = after_input(game);
    let after = after_phases(game, elapsed);
    assert(after.entities == moved.entities);
    assert(box_cells(after) =~= box_cells(moved));
    assert(spot_cells(after) =~= spot_cells(moved));
    won_exactly_when_solved(moved);
}

/// A tick that starts with no event left over hands out that the puzzle is
/// solved once if it makes the game won, and not at all otherwise.
pub proof fn a_tick_announces_once(game: Game, elapsed: u128)
    requires
        game.events.len() == 0,
    ensures
        announcements(after_phases(game, elapsed).events) == if game.gameplay.state
            == GameplayState::Playing && after_phases(game, elapsed).gameplay.state
            == GameplayState::Won {
            1nat
        } else {
            0nat
        },
        game.gameplay.state == GameplayState::Won ==> after_phases(game, elapsed).events.len()
            == 0,
{
    solved_is_announced_once(game, elapsed);
}

/// A push of a box against a wall, against another box or off the grid is
/// rejected: nothing moves and no move is counted.
pub proof fn blocked_push_is_rejected(game: Game, toward: Direction)
    requires
        player_cell(game) is Some,
        neighbour(player_cell(game)->Some_0, toward) is Some,
        box_at(game, neighbour(player_cell(game)->Some_0, toward)->Some_0),
        ({
            let beyond = neighbour(neighbour(player_cell(game)->Some_0, toward)->Some_0, toward);
            beyond is None || !game.cells.contains(beyond->Some_0) || wall_at(
                game,
                beyond->Some_0,
            ) || box_at(game, beyond->Some_0)
        }),
    ensures
        plan(game, toward) == Move::Rejected,
        after_move(game, plan(game, toward)) == game,
{
}

/// A push of a box onto open floor moves that box and the player one cell in
/// the direction of the push, and no other entity; it counts as one move.
pub proof fn free_push_moves_box_and_player(
    game: Game,
    toward: Direction,
    player: int,
    pushed: int,
    to: Position,
    beyond: Position,
)
    requires
        board_ok(game),
        is_player(game.entities, player),
        neighbour(game.entities[player].position, toward) == Some(to),
        is_box_on(game.entities, pushed, to),
        neighbour(to, toward) == Some(beyond),
        game.cells.contains(beyond),
        !wall_at(game, beyond),
        !box_at(game, beyond),
    ensures
        plan(game, toward) == (Move::Push { to, beyond }),
        after_move(game, plan(game, toward)).entities.dom() == game.entities.dom(),
        after_move(game, plan(game, toward)).entities[player] == game.entities[player].at(to),
        after_move(game, plan(game, toward)).entities[pushed] == game.entities[pushed].at(beyond),
        forall|id: int|
            game.entities.contains_key(id) && id != player && id != pushed
                ==> #[trigger] after_move(game, plan(game, toward)).entities[id]
                == game.entities[id],
        game.gameplay.moves_count < u32::MAX ==> after_move(
            game,
            plan(game, toward),
        ).gameplay.moves_count == game.gameplay.moves_count + 1,
        after_move(game, plan(game, toward)).gameplay.state == game.gameplay.state,
{
    player_is_unique(game, player);
    if wall_at(game, to) {
        let wall = choose|id: int| is_wall_on(game.entities, id, to);
        assert(game.entities[wall].solid() && game.entities[pushed].solid());
        assert(marks(game.entities[wall]) <= 1 && marks(game.entities[pushed]) <= 1);
    }
    let step = Move::Push { to, beyond };
    let after = after_move(game, step);
    assert forall|id: int|
        game.entities.contains_key(id) && id != player
            && id != pushed implies #[trigger] after.entities[id] == game.entities[id] by {
        if game.entities[id].player is Some {
            assert(is_player(game.entities, id));
        }
        if game.entities[id].movable is Some && game.entities[id].position == to {
            assert(game.entities[id].solid() && game.entities[pushed].solid());
        }
    }
}

/// Walls and spots never move: whatever key the input phase consumes, every
/// entity that is a wall or a spot is afterwards what it was before.
pub proof fn walls_and_spots_stay(game: Game, id: int)
    requires
        board_ok(game),
        game.entities.contains_key(id),
        game.entities[id].wall is Some || game.entities[id].spot is Some,
    ensures
        after_input(game).entities.contains_key(id),
        after_input(game).entities[id] == game.entities[id],
{
}

/// No tick makes or unmakes a player, a box, a spot or a wall: every entity
/// holds after the tick the marks that it held before it.
pub proof fn marks_are_kept(game: Game, elapsed: u128, id: int)
    requires
        game.entities.contains_key(id),
    ensures
        after_phases(game, elapsed).entities.contains_key(id),
        after_phases(game, elapsed).entities[id].player == game.entities[id].player,
        after_phases(game, elapsed).entities[id].movable == game.entities[id].movable,
        after_phases(game, elapsed).entities[id].spot == game.entities[id].spot,
        after_phases(game, elapsed).entities[id].wall == game.entities[id].wall,
        after_phases(game, elapsed).entities[id].renderable == game.entities[id].renderable,
        after_phases(game, elapsed).entities.dom() == game.entities.dom(),
{
    assert(after_phases(game, elapsed).entities.dom() =~= game.entities.dom());
}

/// A tick consumes the oldest pending key and no other: the keys behind it
/// wait, in the order in which they came.
pub proof fn keys_wait_in_order(game: Game, elapsed: u128)
    ensures
        game.keys.len() == 0 ==> after_phases(game, elapsed).keys == game.keys,
        game.keys.len() > 0 ==> after_phases(game, elapsed).keys == game.keys.drop_first(),
{
}

/// Only the input phase counts moves, and only the evaluation changes the
/// state of play.
pub proof fn each_phase_minds_its_own(game: Game)
    ensures
        after_input(game).gameplay.state == game.gameplay.state,
        after_evaluation(game).gameplay.moves_count == game.gameplay.moves_count,
        after_evaluation(game).entities == game.entities,
        after_evaluation(game).keys == game.keys,
{
}

/// The evaluation makes a game that is being played won exactly where the
/// cells with a box are the cells with a spot.
pub proof fn won_exactly_when_solved(game: Game)
    requires
        game.gameplay.state == GameplayState::Playing,
    ensures
        after_evaluation(game).gameplay.state == GameplayState::Won <==> box_cells(game)
            == spot_cells(game),
{
}

/// A game that is won stays won: no phase of a tick and no key makes it a game
/// that is being played again, and keys move nothing in it.
pub proof fn won_stays_won(game: Game, elapsed: u128)
    requires
        game.gameplay.state == GameplayState::Won,
    ensures
        !counts_move(game),
        after_input(game).gameplay == game.gameplay,
        after_input(game).entities == game.entities,
        after_evaluation(game) == game,
        after_phases(game, elapsed).gameplay == game.gameplay,
        after_phases(game, elapsed).entities == game.entities,
        after_phases(game, elapsed).events == game.events,
{
}

/// How many of the events say that the puzzle is solved.
pub open spec fn announcements(events: Seq<Event>) -> nat
    decreases events.len(),
{
    if events.len() == 0 {
        0
    } else {
        announcements(events.drop_last()) + if events.last() == Event::PuzzleSolved {
            1nat
        } else {
            0nat
        }
    }
}

/// The events of a move say nothing of the puzzle being solved.
proof fn moves_announce_nothing(game: Game, step: Move)
    ensures
        announcements(game.events + move_events(game, step)) == announcements(game.events),
{
    let added = move_events(game, step);
    let all = game.events + added;
    if added.len() == 1 {
        assert(all.drop_last() =~= game.events);
    } else if added.len() == 2 {
        let shorter = all.drop_last();
        assert(shorter.drop_last() =~= game.events);
        assert(announcements(shorter) == announcements(game.events));
    }
}

/// A tick says that the puzzle is solved once if it is the tick in which the
/// game becomes won, and not at all otherwise: not while the game is being
/// played, and never again once it is won.
pub proof fn solved_is_announced_once(game: Game, elapsed: u128)
    ensures
        announcements(after_phases(game, elapsed).events) == announcements(game.events) + if
            game.gameplay.state == GameplayState::Playing && after_phases(
            game,
            elapsed,
        ).gameplay.state == GameplayState::Won {
            1nat
        } else {
            0nat
        },
{
    let moved = after_input(game);
    if game.keys.len() > 0 && game.gameplay.state == GameplayState::Playing {
        let rest = rest_of(game);
        match direction_of(game.keys.first()) {
            Some(toward) => {
                moves_announce_nothing(rest, plan(rest, toward));
            },
            None => {},
        }
    }
    let judged = after_evaluation(moved);
    if moved.gameplay.state == GameplayState::Playing && solved(moved) {
        assert(judged.events.drop_last() =~= moved.events);
    }
}

} // verus!
