use sokoban::{
    advance_clock, drain_events, gameplay, initialize_level, load_map, new_world,
    next_move_counts, paint, paint_list, press_key, query, register_resources,
    run_gameplay_state, run_input, set_position, snapshot, spawn, time, try_update, update,
    Components, Direction, Entity, EntityKind, Event, Gameplay, GameplayState, KeyCode,
    MalformedLevel, Position, Query, Sprite, World, CAPACITY,
};
use specs::WorldExt;

fn level(text: &str) -> World {
    let mut world = new_world();
    register_resources(&mut world);
    load_map(&mut world, text).unwrap();
    world
}

fn cell(x: usize, y: usize) -> Position {
    Position { x, y }
}

fn player(world: &World) -> Position {
    let found: Vec<Entity> =
        snapshot(world).into_iter().filter(|entity| entity.components.player.is_some()).collect();
    assert_eq!(found.len(), 1);
    found[0].components.position
}

fn boxes(world: &World) -> Vec<Position> {
    let mut found: Vec<Position> = snapshot(world)
        .into_iter()
        .filter(|entity| entity.components.movable.is_some())
        .map(|entity| entity.components.position)
        .collect();
    found.sort_by_key(|position| (position.y, position.x));
    found
}

fn statics(world: &World) -> Vec<(u32, Position)> {
    let mut found: Vec<(u32, Position)> = snapshot(world)
        .into_iter()
        .filter(|entity| entity.components.wall.is_some() || entity.components.spot.is_some())
        .map(|entity| (entity.id, entity.components.position))
        .collect();
    found.sort_by_key(|entry| entry.0);
    found
}

fn press_and_tick(world: &mut World, key: KeyCode) -> Vec<Event> {
    press_key(world, key);
    update(world, 0)
}

#[test]
fn a_fresh_world_is_empty_and_at_rest() {
    let mut world = new_world();
    register_resources(&mut world);
    assert!(snapshot(&world).is_empty());
    assert_eq!(gameplay(&world), Gameplay { state: GameplayState::Playing, moves_count: 0 });
    assert_eq!(time(&world).delta, 0);
    assert!(drain_events(&mut world).is_empty());
    assert!(paint_list(&world).is_empty());
}

#[test]
fn the_defaults_are_playing_and_no_moves() {
    assert_eq!(GameplayState::default(), GameplayState::Playing);
    assert_eq!(Gameplay::default(), Gameplay { state: GameplayState::Playing, moves_count: 0 });
}

#[test]
fn the_state_is_shown_by_its_name() {
    assert_eq!(GameplayState::Playing.to_string(), "Playing");
    assert_eq!(GameplayState::Won.to_string(), "Won");
}

#[test]
fn keys_ask_for_their_directions() {
    assert_eq!(KeyCode::Up.direction(), Some(Direction::Up));
    assert_eq!(KeyCode::Down.direction(), Some(Direction::Down));
    assert_eq!(KeyCode::Left.direction(), Some(Direction::Left));
    assert_eq!(KeyCode::Right.direction(), Some(Direction::Right));
    assert_eq!(KeyCode::Other.direction(), None);
}

#[test]
fn a_step_leads_to_the_next_cell_or_nowhere() {
    assert_eq!(cell(3, 4).step(Direction::Up), Some(cell(3, 3)));
    assert_eq!(cell(3, 4).step(Direction::Down), Some(cell(3, 5)));
    assert_eq!(cell(3, 4).step(Direction::Left), Some(cell(2, 4)));
    assert_eq!(cell(3, 4).step(Direction::Right), Some(cell(4, 4)));
    assert_eq!(cell(0, 4).step(Direction::Left), None);
    assert_eq!(cell(3, 0).step(Direction::Up), None);
    assert_eq!(cell(usize::MAX, 0).step(Direction::Right), None);
    assert_eq!(cell(0, usize::MAX).step(Direction::Down), None);
}

#[test]
fn loading_creates_an_entity_for_each_directive_but_floor() {
    let world = level("W W W\nW P .\nW W W");
    let entities = snapshot(&world);
    assert_eq!(entities.len(), 8);
    let walls = entities.iter().filter(|entity| entity.components.wall.is_some()).count();
    assert_eq!(walls, 7);
    assert_eq!(player(&world), cell(1, 1));
    for entity in entities.iter() {
        let look = entity.components.renderable.unwrap();
        if entity.components.wall.is_some() {
            assert_eq!((look.tag, look.priority), (EntityKind::Wall, 1));
        } else {
            assert_eq!((look.tag, look.priority), (EntityKind::Player, 4));
        }
    }
    for (i, one) in entities.iter().enumerate() {
        for other in entities.iter().skip(i + 1) {
            assert_ne!(one.id, other.id);
        }
    }
}

#[test]
fn a_box_on_a_spot_is_two_entities_on_one_cell() {
    let world = level("P BB");
    let entities = snapshot(&world);
    assert_eq!(entities.len(), 3);
    let on: Vec<&Entity> =
        entities.iter().filter(|entity| entity.components.position == cell(1, 0)).collect();
    assert_eq!(on.len(), 2);
    assert_eq!(on.iter().filter(|entity| entity.components.movable.is_some()).count(), 1);
    assert_eq!(on.iter().filter(|entity| entity.components.spot.is_some()).count(), 1);
}

#[test]
fn a_malformed_level_leaves_the_world_empty() {
    let mut world = new_world();
    register_resources(&mut world);
    assert_eq!(
        load_map(&mut world, "W P\nW Q"),
        Err(MalformedLevel::UnknownToken { row: 1, column: 1 })
    );
    assert!(snapshot(&world).is_empty());
    assert!(paint_list(&world).is_empty());
    assert_eq!(load_map(&mut world, "W P\nW"), Err(MalformedLevel::RaggedRow { row: 1 }));
    assert!(snapshot(&world).is_empty());
}

#[test]
fn a_level_needs_exactly_one_player() {
    let mut world = new_world();
    register_resources(&mut world);
    assert_eq!(load_map(&mut world, "W . W"), Err(MalformedLevel::PlayerCount { found: 0 }));
    assert_eq!(load_map(&mut world, "P . P"), Err(MalformedLevel::PlayerCount { found: 2 }));
    assert_eq!(load_map(&mut world, ""), Err(MalformedLevel::PlayerCount { found: 0 }));
    assert!(snapshot(&world).is_empty());
    assert_eq!(load_map(&mut world, "P ."), Ok(()));
    assert_eq!(snapshot(&world).len(), 1);
}

#[test]
fn the_first_level_loads() {
    let mut world = new_world();
    register_resources(&mut world);
    assert_eq!(initialize_level(&mut world), Ok(()));
    assert_eq!(player(&world), cell(1, 2));
    assert_eq!(boxes(&world), vec![cell(2, 2), cell(3, 2)]);
    let spots = snapshot(&world).iter().filter(|entity| entity.components.spot.is_some()).count();
    assert_eq!(spots, 4);
}

#[test]
fn moving_right_onto_floor_succeeds_and_left_into_a_wall_is_rejected() {
    let mut world = level("W W W\nW P .\nW W W");
    press_key(&mut world, KeyCode::Right);
    run_input(&mut world);
    assert_eq!(player(&world), cell(2, 1));
    assert_eq!(gameplay(&world).moves_count, 1);
    assert!(drain_events(&mut world).is_empty());

    let mut world = level("W W W\nW P .\nW W W");
    press_key(&mut world, KeyCode::Left);
    run_input(&mut world);
    assert_eq!(player(&world), cell(1, 1));
    assert_eq!(gameplay(&world).moves_count, 0);
    assert!(drain_events(&mut world).is_empty());

    let mut world = level("W W W\nW P .\nW W W");
    press_key(&mut world, KeyCode::Right);
    press_key(&mut world, KeyCode::Left);
    run_input(&mut world);
    run_input(&mut world);
    assert_eq!(player(&world), cell(1, 1));
    press_key(&mut world, KeyCode::Left);
    run_input(&mut world);
    assert_eq!(player(&world), cell(1, 1));
    assert_eq!(gameplay(&world).moves_count, 2);
}

#[test]
fn pushing_the_box_onto_the_spot_solves_the_puzzle() {
    let mut world = level("W W W W\nW P RB BS\nW W W W");
    let events = press_and_tick(&mut world, KeyCode::Right);
    assert_eq!(
        events,
        vec![Event::BoxEnteredSpot { position: cell(3, 1) }, Event::PuzzleSolved]
    );
    assert_eq!(player(&world), cell(2, 1));
    assert_eq!(boxes(&world), vec![cell(3, 1)]);
    assert_eq!(gameplay(&world), Gameplay { state: GameplayState::Won, moves_count: 1 });
}

#[test]
fn pushing_a_box_off_its_spot_with_another_spot_empty_does_not_solve() {
    let mut world = level("W W W W W\nW P BB . W\nW BS . . W\nW W W W W");
    let events = press_and_tick(&mut world, KeyCode::Right);
    assert_eq!(events, vec![Event::BoxLeftSpot { position: cell(2, 1) }]);
    assert_eq!(player(&world), cell(2, 1));
    assert_eq!(boxes(&world), vec![cell(3, 1)]);
    assert_eq!(gameplay(&world), Gameplay { state: GameplayState::Playing, moves_count: 1 });
}

#[test]
fn a_push_from_spot_to_spot_enters_and_then_leaves() {
    let mut world = level("P BB BS . BS");
    let events = press_and_tick(&mut world, KeyCode::Right);
    assert_eq!(
        events,
        vec![
            Event::BoxEnteredSpot { position: cell(2, 0) },
            Event::BoxLeftSpot { position: cell(1, 0) },
        ]
    );
    assert_eq!(gameplay(&world).state, GameplayState::Playing);
}

#[test]
fn a_box_against_a_wall_or_a_box_cannot_be_pushed() {
    let mut world = level("P RB W");
    assert!(press_and_tick(&mut world, KeyCode::Right).is_empty());
    assert_eq!(player(&world), cell(0, 0));
    assert_eq!(boxes(&world), vec![cell(1, 0)]);
    assert_eq!(gameplay(&world).moves_count, 0);

    let mut world = level("P RB RB .");
    assert!(press_and_tick(&mut world, KeyCode::Right).is_empty());
    assert_eq!(player(&world), cell(0, 0));
    assert_eq!(boxes(&world), vec![cell(1, 0), cell(2, 0)]);
    assert_eq!(gameplay(&world).moves_count, 0);
}

#[test]
fn a_push_moves_that_box_and_the_player_and_nothing_else() {
    let mut world = level("W W W W W\nW P RB . W\nW RB . BS W\nW W W W W");
    let before = statics(&world);
    assert!(press_and_tick(&mut world, KeyCode::Right).is_empty());
    assert_eq!(player(&world), cell(2, 1));
    assert_eq!(boxes(&world), vec![cell(3, 1), cell(1, 2)]);
    assert_eq!(statics(&world), before);
    assert_eq!(gameplay(&world).moves_count, 1);
}

#[test]
fn the_edge_of_the_grid_stops_like_a_wall() {
    let mut world = level("P .\nN BS");
    assert!(press_and_tick(&mut world, KeyCode::Left).is_empty());
    assert!(press_and_tick(&mut world, KeyCode::Up).is_empty());
    assert!(press_and_tick(&mut world, KeyCode::Down).is_empty());
    assert_eq!(player(&world), cell(0, 0));
    assert_eq!(gameplay(&world).moves_count, 0);
    assert!(press_and_tick(&mut world, KeyCode::Right).is_empty());
    assert!(press_and_tick(&mut world, KeyCode::Right).is_empty());
    assert_eq!(player(&world), cell(1, 0));
    assert!(press_and_tick(&mut world, KeyCode::Down).is_empty());
    assert_eq!(player(&world), cell(1, 1));
    assert!(press_and_tick(&mut world, KeyCode::Down).is_empty());
    assert!(press_and_tick(&mut world, KeyCode::Left).is_empty());
    assert_eq!(player(&world), cell(1, 1));
    assert_eq!(gameplay(&world).moves_count, 2);
}

#[test]
fn a_box_is_not_pushed_off_the_grid() {
    let mut world = level("P RB");
    assert!(press_and_tick(&mut world, KeyCode::Right).is_empty());
    assert_eq!(player(&world), cell(0, 0));
    assert_eq!(boxes(&world), vec![cell(1, 0)]);

    let mut world = level("P RB N");
    assert!(press_and_tick(&mut world, KeyCode::Right).is_empty());
    assert_eq!(boxes(&world), vec![cell(1, 0)]);
    assert_eq!(gameplay(&world).moves_count, 0);
}

#[test]
fn the_cell_that_a_box_left_stays_walkable() {
    let mut world = level(". P RB . BS BS");
    press_and_tick(&mut world, KeyCode::Right);
    press_and_tick(&mut world, KeyCode::Left);
    press_and_tick(&mut world, KeyCode::Left);
    assert_eq!(player(&world), cell(0, 0));
    press_and_tick(&mut world, KeyCode::Right);
    press_and_tick(&mut world, KeyCode::Right);
    assert_eq!(player(&world), cell(2, 0));
    assert_eq!(gameplay(&world).moves_count, 5);
}

#[test]
fn moves_go_up_and_down_too() {
    let mut world = level(". BS\nP RB\n. .\n. BS");
    press_and_tick(&mut world, KeyCode::Up);
    assert_eq!(player(&world), cell(0, 0));
    press_and_tick(&mut world, KeyCode::Right);
    assert_eq!(player(&world), cell(1, 0));
    let events = press_and_tick(&mut world, KeyCode::Down);
    assert!(events.is_empty());
    assert_eq!(player(&world), cell(1, 1));
    assert_eq!(boxes(&world), vec![cell(1, 2)]);
    let events = press_and_tick(&mut world, KeyCode::Down);
    assert_eq!(events, vec![Event::BoxEnteredSpot { position: cell(1, 3) }]);
    assert_eq!(gameplay(&world), Gameplay { state: GameplayState::Playing, moves_count: 4 });
}

#[test]
fn one_key_is_consumed_per_tick_in_the_order_of_arrival() {
    let mut world = level("P . .\n. . BS");
    press_key(&mut world, KeyCode::Right);
    press_key(&mut world, KeyCode::Down);
    press_key(&mut world, KeyCode::Right);
    update(&mut world, 0);
    assert_eq!(player(&world), cell(1, 0));
    update(&mut world, 0);
    assert_eq!(player(&world), cell(1, 1));
    update(&mut world, 0);
    assert_eq!(player(&world), cell(2, 1));
    update(&mut world, 0);
    assert_eq!(player(&world), cell(2, 1));
    assert_eq!(gameplay(&world).moves_count, 3);
}

#[test]
fn a_key_that_is_no_direction_is_consumed_and_does_nothing() {
    let mut world = level("P . BS");
    press_key(&mut world, KeyCode::Other);
    press_key(&mut world, KeyCode::Right);
    assert!(update(&mut world, 0).is_empty());
    assert_eq!(player(&world), cell(0, 0));
    assert_eq!(gameplay(&world).moves_count, 0);
    update(&mut world, 0);
    assert_eq!(player(&world), cell(1, 0));
    assert_eq!(gameplay(&world).moves_count, 1);
}

#[test]
fn a_tick_without_a_key_changes_nothing_but_the_clock() {
    let mut world = level("P RB BS");
    let before = snapshot(&world).len();
    assert!(update(&mut world, 16).is_empty());
    assert_eq!(player(&world), cell(0, 0));
    assert_eq!(boxes(&world), vec![cell(1, 0)]);
    assert_eq!(snapshot(&world).len(), before);
    assert_eq!(gameplay(&world), Gameplay { state: GameplayState::Playing, moves_count: 0 });
    assert_eq!(time(&world).delta, 16);
}

#[test]
fn the_clock_adds_up_what_has_passed() {
    let mut world = level("P .");
    update(&mut world, 16_000_000);
    update(&mut world, 17_000_000);
    assert_eq!(time(&world).delta, 33_000_000);
    advance_clock(&mut world, 1);
    assert_eq!(time(&world).delta, 33_000_001);
}

#[test]
fn the_puzzle_is_solved_once() {
    let mut world = level("P RB BS .");
    let events = press_and_tick(&mut world, KeyCode::Right);
    assert_eq!(
        events,
        vec![Event::BoxEnteredSpot { position: cell(2, 0) }, Event::PuzzleSolved]
    );
    assert!(update(&mut world, 0).is_empty());
    assert!(update(&mut world, 0).is_empty());
    assert_eq!(gameplay(&world).state, GameplayState::Won);
}

#[test]
fn after_the_win_keys_are_consumed_and_move_nothing() {
    let mut world = level(". P RB BS .");
    press_and_tick(&mut world, KeyCode::Right);
    assert_eq!(gameplay(&world), Gameplay { state: GameplayState::Won, moves_count: 1 });
    press_key(&mut world, KeyCode::Right);
    press_key(&mut world, KeyCode::Left);
    assert!(update(&mut world, 0).is_empty());
    assert!(update(&mut world, 0).is_empty());
    assert!(update(&mut world, 0).is_empty());
    assert_eq!(player(&world), cell(2, 0));
    assert_eq!(boxes(&world), vec![cell(3, 0)]);
    assert_eq!(gameplay(&world), Gameplay { state: GameplayState::Won, moves_count: 1 });
}

#[test]
fn a_level_whose_boxes_stand_on_its_spots_is_won_at_the_first_tick() {
    let mut world = level("P BB . BB");
    assert_eq!(update(&mut world, 0), vec![Event::PuzzleSolved]);
    assert_eq!(gameplay(&world).state, GameplayState::Won);

    let mut world = level("P .");
    assert_eq!(update(&mut world, 0), vec![Event::PuzzleSolved]);
    assert!(press_and_tick(&mut world, KeyCode::Right).is_empty());
    assert_eq!(player(&world), cell(0, 0));
}

#[test]
fn a_spot_without_a_box_or_a_box_without_a_spot_is_not_solved() {
    let mut world = level("P BB BS");
    assert!(update(&mut world, 0).is_empty());
    assert_eq!(gameplay(&world).state, GameplayState::Playing);

    let mut world = level("P BB RB");
    assert!(update(&mut world, 0).is_empty());
    assert_eq!(gameplay(&world).state, GameplayState::Playing);
}

#[test]
fn the_phases_can_be_run_one_by_one() {
    let mut world = level("P RB BS");
    press_key(&mut world, KeyCode::Right);
    run_input(&mut world);
    assert_eq!(boxes(&world), vec![cell(2, 0)]);
    assert_eq!(gameplay(&world), Gameplay { state: GameplayState::Playing, moves_count: 1 });
    run_gameplay_state(&mut world);
    assert_eq!(gameplay(&world).state, GameplayState::Won);
    run_gameplay_state(&mut world);
    assert_eq!(
        drain_events(&mut world),
        vec![Event::BoxEnteredSpot { position: cell(2, 0) }, Event::PuzzleSolved]
    );
    assert!(drain_events(&mut world).is_empty());
}

#[test]
fn registering_the_resources_again_resets_them() {
    let mut world = new_world();
    register_resources(&mut world);
    press_key(&mut world, KeyCode::Right);
    advance_clock(&mut world, 5);
    register_resources(&mut world);
    assert_eq!(time(&world).delta, 0);
    load_map(&mut world, "P .").unwrap();
    update(&mut world, 0);
    assert_eq!(player(&world), cell(0, 0));
}

#[test]
fn pictures_come_in_paint_order() {
    let world = level("W P\nBB BS");
    let sprites = paint_list(&world);
    let tags: Vec<EntityKind> = sprites.iter().map(|sprite| sprite.tag).collect();
    assert_eq!(
        tags,
        vec![
            EntityKind::Floor,
            EntityKind::Floor,
            EntityKind::Floor,
            EntityKind::Floor,
            EntityKind::Wall,
            EntityKind::BoxSpot,
            EntityKind::BoxSpot,
            EntityKind::Box,
            EntityKind::Player,
        ]
    );
    let priorities: Vec<u8> = sprites.iter().map(|sprite| sprite.priority).collect();
    assert_eq!(priorities, vec![0, 0, 0, 0, 1, 2, 2, 3, 4]);
    let floors: Vec<Position> = sprites[..4].iter().map(|sprite| sprite.position).collect();
    assert_eq!(floors, vec![cell(0, 0), cell(1, 0), cell(0, 1), cell(1, 1)]);
    assert_eq!(sprites[8], Sprite { position: cell(1, 0), tag: EntityKind::Player, priority: 4 });
    assert_eq!(sprites[7], Sprite { position: cell(0, 1), tag: EntityKind::Box, priority: 3 });
}

#[test]
fn the_grid_holds_each_cell_once() {
    let world = level("P BB\nBB .\nN RB");
    let floors: Vec<Position> = paint_list(&world)
        .into_iter()
        .filter(|sprite| sprite.tag == EntityKind::Floor)
        .map(|sprite| sprite.position)
        .collect();
    assert_eq!(floors, vec![cell(0, 0), cell(1, 0), cell(0, 1), cell(1, 1), cell(1, 2)]);

    let mut first = new_world();
    initialize_level(&mut first).unwrap();
    let floors = paint_list(&first)
        .into_iter()
        .filter(|sprite| sprite.tag == EntityKind::Floor)
        .count();
    assert_eq!(floors, 35);
}

#[test]
fn painting_keeps_the_listed_order_within_a_priority() {
    let world = level("P RB RB");
    let list = snapshot(&world);
    let cells = vec![cell(0, 0), cell(1, 0)];
    let sprites = paint(&cells, &list);
    assert_eq!(sprites.len(), 5);
    let listed: Vec<Position> = list
        .iter()
        .filter(|entity| entity.components.movable.is_some())
        .map(|entity| entity.components.position)
        .collect();
    assert_eq!(vec![sprites[2].position, sprites[3].position], listed);
    assert_eq!(sprites[0].position, cell(0, 0));
    assert_eq!(sprites[1].position, cell(1, 0));
    assert_eq!(sprites[4].tag, EntityKind::Player);
}

#[test]
fn a_new_world_is_ready_without_more() {
    let mut world = new_world();
    assert!(snapshot(&world).is_empty());
    assert_eq!(gameplay(&world), Gameplay::default());
    assert_eq!(load_map(&mut world, "P RB BS"), Ok(()));
    assert_eq!(
        press_and_tick(&mut world, KeyCode::Right),
        vec![Event::BoxEnteredSpot { position: cell(2, 0) }, Event::PuzzleSolved]
    );
}

#[test]
fn a_query_finds_the_entities_that_hold_what_is_asked() {
    let world = level("W P RB\nBS BB .");
    let walls = query(&world, Query { wall: true, ..Query::any() });
    assert_eq!(walls.len(), 1);
    assert_eq!(walls[0].components.position, cell(0, 0));
    let mut spots: Vec<Position> = query(&world, Query { spot: true, ..Query::any() })
        .into_iter()
        .map(|entity| entity.components.position)
        .collect();
    spots.sort_by_key(|position| (position.y, position.x));
    assert_eq!(spots, vec![cell(0, 1), cell(1, 1)]);
    let players = query(&world, Query { player: true, renderable: true, ..Query::any() });
    assert_eq!(players.len(), 1);
    assert_eq!(players[0].components.position, cell(1, 0));
    assert!(query(&world, Query { player: true, movable: true, ..Query::any() }).is_empty());
    assert_eq!(query(&world, Query { renderable: true, ..Query::any() }).len(), 6);
    assert_eq!(query(&world, Query::any()).len(), snapshot(&world).len());
}

#[test]
fn a_query_admits_components_that_hold_all_it_asks() {
    let wall = Components::of_kind(cell(0, 0), EntityKind::Wall);
    assert!(Query::any().admits(&wall));
    assert!(Query { wall: true, ..Query::any() }.admits(&wall));
    assert!(Query { wall: true, renderable: true, ..Query::any() }.admits(&wall));
    assert!(!Query { wall: true, spot: true, ..Query::any() }.admits(&wall));
    assert!(!Query { player: true, ..Query::any() }.admits(&wall));
    assert!(!Query { movable: true, ..Query::any() }.admits(&wall));
}

#[test]
fn each_kind_has_its_components() {
    let floor = Components::of_kind(cell(1, 2), EntityKind::Floor);
    assert_eq!(floor.position, cell(1, 2));
    assert_eq!(floor.renderable.unwrap().priority, 0);
    assert!(floor.player.is_none() && floor.movable.is_none());
    assert!(floor.spot.is_none() && floor.wall.is_none());
    let wall = Components::of_kind(cell(1, 2), EntityKind::Wall);
    assert_eq!(wall.renderable.unwrap().priority, 1);
    assert!(wall.wall.is_some() && wall.player.is_none());
    let spot = Components::of_kind(cell(1, 2), EntityKind::BoxSpot);
    assert_eq!(spot.renderable.unwrap().priority, 2);
    assert!(spot.spot.is_some() && spot.movable.is_none());
    let pushed = Components::of_kind(cell(1, 2), EntityKind::Box);
    assert_eq!(pushed.renderable.unwrap().priority, 3);
    assert_eq!(pushed.renderable.unwrap().tag, EntityKind::Box);
    assert!(pushed.movable.is_some() && pushed.spot.is_none());
    let player = Components::of_kind(cell(1, 2), EntityKind::Player);
    assert_eq!(player.renderable.unwrap().priority, 4);
    assert!(player.player.is_some() && player.wall.is_none());
}

#[test]
fn an_entity_is_assembled_from_what_it_holds() {
    let position = cell(4, 5);
    let wall = sokoban::Wall;
    let entity = Entity::assemble(7, &position, None, None, None, None, Some(&wall));
    assert_eq!(entity.id, 7);
    assert_eq!(entity.components.position, position);
    assert!(entity.components.wall.is_some());
    assert!(entity.components.renderable.is_none());
    assert!(entity.components.player.is_none());
}

#[test]
fn a_tick_for_which_the_clock_has_no_room_does_nothing() {
    let mut world = level("P RB BS");
    assert_eq!(try_update(&mut world, u128::MAX), Some(vec![]));
    assert_eq!(time(&world).delta, u128::MAX);
    press_key(&mut world, KeyCode::Right);
    assert_eq!(try_update(&mut world, 1), None);
    assert_eq!(player(&world), cell(0, 0));
    assert_eq!(time(&world).delta, u128::MAX);
    assert_eq!(
        try_update(&mut world, 0),
        Some(vec![Event::BoxEnteredSpot { position: cell(2, 0) }, Event::PuzzleSolved])
    );
}

#[test]
fn an_entity_is_spawned_where_the_game_admits_it() {
    let mut world = level("P . . BS");
    let before = snapshot(&world).len();
    let id = spawn(&mut world, Components::of_kind(cell(2, 0), EntityKind::Box)).unwrap();
    let entities = snapshot(&world);
    assert_eq!(entities.len(), before + 1);
    let made: Vec<&Entity> = entities.iter().filter(|entity| entity.id == id).collect();
    assert_eq!(made.len(), 1);
    assert_eq!(made[0].components.position, cell(2, 0));
    assert!(made[0].components.movable.is_some());
    assert_eq!(made[0].components.renderable.unwrap().tag, EntityKind::Box);
    assert_eq!(boxes(&world), vec![cell(2, 0)]);
    press_key(&mut world, KeyCode::Right);
    press_key(&mut world, KeyCode::Right);
    assert!(update(&mut world, 0).is_empty());
    assert_eq!(
        update(&mut world, 0),
        vec![Event::BoxEnteredSpot { position: cell(3, 0) }, Event::PuzzleSolved]
    );
}

#[test]
fn an_entity_is_not_spawned_where_the_game_does_not_admit_it() {
    let mut world = level("P RB W BS .");
    let before = snapshot(&world).len();
    assert_eq!(spawn(&mut world, Components::of_kind(cell(1, 0), EntityKind::Wall)), None);
    assert_eq!(spawn(&mut world, Components::of_kind(cell(2, 0), EntityKind::Box)), None);
    assert_eq!(spawn(&mut world, Components::of_kind(cell(0, 0), EntityKind::Box)), None);
    assert_eq!(spawn(&mut world, Components::of_kind(cell(4, 0), EntityKind::Player)), None);
    assert_eq!(spawn(&mut world, Components::of_kind(cell(5, 0), EntityKind::Box)), None);
    assert_eq!(spawn(&mut world, Components::of_kind(cell(0, 1), EntityKind::BoxSpot)), None);
    let mut both = Components::of_kind(cell(4, 0), EntityKind::Box);
    both.wall = Some(sokoban::Wall);
    assert_eq!(spawn(&mut world, both), None);
    assert_eq!(snapshot(&world).len(), before);
    assert!(spawn(&mut world, Components::of_kind(cell(1, 0), EntityKind::BoxSpot)).is_some());
    assert!(spawn(&mut world, Components::of_kind(cell(2, 0), EntityKind::BoxSpot)).is_some());
    assert!(spawn(&mut world, Components::of_kind(cell(4, 0), EntityKind::Floor)).is_some());
    assert!(spawn(&mut world, Components::of_kind(cell(4, 0), EntityKind::Box)).is_some());
    assert_eq!(snapshot(&world).len(), before + 4);
}

#[test]
fn an_entity_is_put_on_a_cell_where_it_can_stand() {
    let mut world = level("P RB W BS .");
    let me = query(&world, Query { player: true, ..Query::any() })[0].id;
    let pushed = query(&world, Query { movable: true, ..Query::any() })[0].id;
    let wall = query(&world, Query { wall: true, ..Query::any() })[0].id;
    let spot = query(&world, Query { spot: true, ..Query::any() })[0].id;
    assert!(!set_position(&mut world, me, cell(1, 0)));
    assert!(!set_position(&mut world, me, cell(2, 0)));
    assert!(!set_position(&mut world, me, cell(5, 0)));
    assert!(!set_position(&mut world, me, cell(0, 1)));
    assert!(!set_position(&mut world, wall, cell(4, 0)));
    assert!(!set_position(&mut world, spot, cell(4, 0)));
    assert!(!set_position(&mut world, 1000, cell(4, 0)));
    assert_eq!(player(&world), cell(0, 0));
    assert_eq!(boxes(&world), vec![cell(1, 0)]);
    assert!(set_position(&mut world, me, cell(0, 0)));
    assert!(set_position(&mut world, me, cell(4, 0)));
    assert_eq!(player(&world), cell(4, 0));
    assert!(set_position(&mut world, pushed, cell(0, 0)));
    assert!(set_position(&mut world, pushed, cell(3, 0)));
    assert_eq!(boxes(&world), vec![cell(3, 0)]);
    assert_eq!(update(&mut world, 0), vec![Event::PuzzleSolved]);
}

fn fill_the_count_of_moves(world: &mut World) {
    world.write_resource::<Gameplay>().moves_count = u32::MAX;
}

#[test]
fn a_full_count_of_moves_stops_only_the_tick_that_would_count_one() {
    let mut world = level("W P . BS");
    fill_the_count_of_moves(&mut world);
    assert_eq!(try_update(&mut world, 1), Some(vec![]));
    press_key(&mut world, KeyCode::Other);
    assert_eq!(try_update(&mut world, 1), Some(vec![]));
    press_key(&mut world, KeyCode::Left);
    assert!(!next_move_counts(&world));
    assert_eq!(try_update(&mut world, 1), Some(vec![]));
    assert_eq!(player(&world), cell(1, 0));
    assert_eq!(time(&world).delta, 3);
    press_key(&mut world, KeyCode::Right);
    press_key(&mut world, KeyCode::Left);
    assert!(next_move_counts(&world));
    assert_eq!(try_update(&mut world, 1), None);
    assert_eq!(try_update(&mut world, 1), None);
    assert_eq!(player(&world), cell(1, 0));
    assert_eq!(time(&world).delta, 3);
    assert_eq!(gameplay(&world).moves_count, u32::MAX);
    world.write_resource::<Gameplay>().moves_count = u32::MAX - 1;
    assert_eq!(try_update(&mut world, 1), Some(vec![]));
    assert_eq!(player(&world), cell(2, 0));
    assert_eq!(gameplay(&world).moves_count, u32::MAX);
    assert!(next_move_counts(&world));
    assert_eq!(try_update(&mut world, 1), None);
    assert_eq!(player(&world), cell(2, 0));
    assert_eq!(time(&world).delta, 4);
}

#[test]
fn a_full_count_of_moves_does_not_hold_up_a_won_game() {
    let mut world = level("P RB BS .");
    press_and_tick(&mut world, KeyCode::Right);
    assert_eq!(gameplay(&world).state, GameplayState::Won);
    fill_the_count_of_moves(&mut world);
    press_key(&mut world, KeyCode::Left);
    assert!(!next_move_counts(&world));
    assert_eq!(try_update(&mut world, 0), Some(vec![]));
    assert!(!next_move_counts(&world));
    assert_eq!(player(&world), cell(1, 0));
}

#[test]
fn the_next_move_counts_where_it_is_not_rejected() {
    let mut world = level("W P RB . BS\nW RB RB W BS");
    assert!(!next_move_counts(&world));
    press_key(&mut world, KeyCode::Other);
    assert!(!next_move_counts(&world));
    update(&mut world, 0);
    press_key(&mut world, KeyCode::Left);
    assert!(!next_move_counts(&world));
    update(&mut world, 0);
    press_key(&mut world, KeyCode::Up);
    assert!(!next_move_counts(&world));
    update(&mut world, 0);
    press_key(&mut world, KeyCode::Down);
    assert!(!next_move_counts(&world));
    update(&mut world, 0);
    press_key(&mut world, KeyCode::Right);
    assert!(next_move_counts(&world));
    update(&mut world, 0);
    assert_eq!(gameplay(&world).moves_count, 1);
    assert_eq!(player(&world), cell(2, 0));
    press_key(&mut world, KeyCode::Down);
    assert!(!next_move_counts(&world));
}

#[test]
fn a_level_with_more_directives_than_a_world_holds_is_refused() {
    let mut text = String::from("P");
    for _ in 0..CAPACITY - 1 {
        text.push_str(" W");
    }
    let mut world = new_world();
    assert_eq!(load_map(&mut world, &text), Err(MalformedLevel::TooLarge));
    assert!(snapshot(&world).is_empty());
}

#[test]
fn a_level_with_as_many_directives_as_a_world_holds_is_loaded() {
    let mut text = String::from("P");
    for _ in 0..CAPACITY - 2 {
        text.push_str(" W");
    }
    let mut world = new_world();
    assert_eq!(load_map(&mut world, &text), Ok(()));
    assert_eq!(query(&world, Query { wall: true, ..Query::any() }).len(), 1_048_574);
    assert_eq!(
        spawn(&mut world, Components::of_kind(cell(0, 0), EntityKind::BoxSpot)),
        Some(1_048_575)
    );
    assert_eq!(spawn(&mut world, Components::of_kind(cell(0, 0), EntityKind::BoxSpot)), None);
    press_key(&mut world, KeyCode::Right);
    assert!(update(&mut world, 0).is_empty());
    assert_eq!(player(&world), cell(0, 0));
}
