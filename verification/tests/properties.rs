use snake_duel::{
    cell_of_draws, coordinate_of_draw, holds_cell, latch, leaves_with, Direction, Entity,
    KeyState, Keyboard, PlayerId, Position, Role, Snake1Movement, Snake2Movement, World,
    ARENA_HEIGHT, ARENA_WIDTH, FOOD_PERIOD_MS, TICK_PERIOD_MS,
};

fn cell(x: i32, y: i32) -> Position {
    Position { x, y }
}

fn keys(left: bool, down: bool, up: bool, right: bool) -> KeyState {
    KeyState { left, down, up, right }
}

const DIRECTIONS: [Direction; 4] =
    [Direction::Left, Direction::Up, Direction::Right, Direction::Down];

#[test]
fn arena_is_ten_by_ten() {
    assert_eq!(ARENA_WIDTH, 10);
    assert_eq!(ARENA_HEIGHT, 10);
    assert!(cell(0, 0).is_in_arena());
    assert!(cell(9, 9).is_in_arena());
    assert!(!cell(10, 0).is_in_arena());
    assert!(!cell(0, 10).is_in_arena());
    assert!(!cell(-1, 0).is_in_arena());
    assert!(!cell(0, -1).is_in_arena());
}

#[test]
fn clock_periods() {
    assert_eq!(TICK_PERIOD_MS, 150);
    assert_eq!(FOOD_PERIOD_MS, 1000);
    assert_eq!(2000 / TICK_PERIOD_MS, 13);
    assert_eq!(2000 / FOOD_PERIOD_MS, 2);
}

#[test]
fn opposite_directions() {
    assert_eq!(Direction::Left.opposite(), Direction::Right);
    assert_eq!(Direction::Right.opposite(), Direction::Left);
    assert_eq!(Direction::Up.opposite(), Direction::Down);
    assert_eq!(Direction::Down.opposite(), Direction::Up);
    for d in DIRECTIONS {
        assert_eq!(d.opposite().opposite(), d);
        assert_ne!(d.opposite(), d);
    }
}

#[test]
fn direction_deltas() {
    let origin = cell(5, 5);
    assert_eq!(origin.stepped(Direction::Left), cell(4, 5));
    assert_eq!(origin.stepped(Direction::Right), cell(6, 5));
    assert_eq!(origin.stepped(Direction::Up), cell(5, 6));
    assert_eq!(origin.stepped(Direction::Down), cell(5, 4));
}

#[test]
fn steps_at_the_edge_of_the_representable_cells() {
    let corner = cell(i32::MAX, i32::MIN);
    assert!(!corner.is_steppable(Direction::Right));
    assert!(!corner.is_steppable(Direction::Down));
    assert!(corner.is_steppable(Direction::Left));
    assert!(corner.is_steppable(Direction::Up));
    assert_eq!(corner.stepped(Direction::Left), cell(i32::MAX - 1, i32::MIN));
    assert_eq!(corner.stepped(Direction::Up), cell(i32::MAX, i32::MIN + 1));
}

#[test]
fn players_and_their_starting_cells() {
    assert_eq!(PlayerId::P1.other(), PlayerId::P2);
    assert_eq!(PlayerId::P2.other(), PlayerId::P1);
    assert_eq!(PlayerId::P1.start_head(), cell(4, 4));
    assert_eq!(PlayerId::P1.start_tail(), cell(4, 3));
    assert_eq!(PlayerId::P2.start_head(), cell(2, 2));
    assert_eq!(PlayerId::P2.start_tail(), cell(2, 1));
}

#[test]
fn key_priority_is_left_down_up_right() {
    let current = Direction::Up;
    assert_eq!(keys(true, true, true, true).candidate(current), Direction::Left);
    assert_eq!(keys(false, true, true, true).candidate(current), Direction::Down);
    assert_eq!(keys(false, false, true, true).candidate(current), Direction::Up);
    assert_eq!(keys(false, false, false, true).candidate(current), Direction::Right);
    for d in DIRECTIONS {
        assert_eq!(KeyState::released().candidate(d), d);
    }
}

fn nothing_held() -> Keyboard {
    Keyboard {
        arrow_left: false,
        arrow_down: false,
        arrow_up: false,
        arrow_right: false,
        q: false,
        s: false,
        z: false,
        d: false,
    }
}

#[test]
fn first_player_steers_with_the_arrows() {
    let idle = KeyState::released();
    assert_eq!(nothing_held().keys_of(PlayerId::P1), idle);
    let board = Keyboard { arrow_left: true, ..nothing_held() };
    assert_eq!(board.keys_of(PlayerId::P1), keys(true, false, false, false));
    assert_eq!(board.keys_of(PlayerId::P2), idle);
    let board = Keyboard { arrow_down: true, ..nothing_held() };
    assert_eq!(board.keys_of(PlayerId::P1), keys(false, true, false, false));
    assert_eq!(board.keys_of(PlayerId::P2), idle);
    let board = Keyboard { arrow_up: true, ..nothing_held() };
    assert_eq!(board.keys_of(PlayerId::P1), keys(false, false, true, false));
    assert_eq!(board.keys_of(PlayerId::P2), idle);
    let board = Keyboard { arrow_right: true, ..nothing_held() };
    assert_eq!(board.keys_of(PlayerId::P1), keys(false, false, false, true));
    assert_eq!(board.keys_of(PlayerId::P2), idle);
}

#[test]
fn second_player_steers_with_q_s_z_d() {
    let idle = KeyState::released();
    assert_eq!(nothing_held().keys_of(PlayerId::P2), idle);
    let board = Keyboard { q: true, ..nothing_held() };
    assert_eq!(board.keys_of(PlayerId::P2), keys(true, false, false, false));
    assert_eq!(board.keys_of(PlayerId::P1), idle);
    let board = Keyboard { s: true, ..nothing_held() };
    assert_eq!(board.keys_of(PlayerId::P2), keys(false, true, false, false));
    assert_eq!(board.keys_of(PlayerId::P1), idle);
    let board = Keyboard { z: true, ..nothing_held() };
    assert_eq!(board.keys_of(PlayerId::P2), keys(false, false, true, false));
    assert_eq!(board.keys_of(PlayerId::P1), idle);
    let board = Keyboard { d: true, ..nothing_held() };
    assert_eq!(board.keys_of(PlayerId::P2), keys(false, false, false, true));
    assert_eq!(board.keys_of(PlayerId::P1), idle);
}

#[test]
fn one_keyboard_steers_both_snakes() {
    let mut world = World::new();
    let board = Keyboard { arrow_right: true, q: true, s: true, ..nothing_held() };
    world.movement_input(PlayerId::P1, board.keys_of(PlayerId::P1));
    world.movement_input(PlayerId::P2, board.keys_of(PlayerId::P2));
    assert_eq!(world.direction(PlayerId::P1), Direction::Right);
    assert_eq!(world.direction(PlayerId::P2), Direction::Left);
}

#[test]
fn latch_never_reverses() {
    for current in DIRECTIONS {
        for bits in 0..16u8 {
            let held = keys(bits & 1 != 0, bits & 2 != 0, bits & 4 != 0, bits & 8 != 0);
            let next = latch(current, held);
            assert_ne!(next, current.opposite());
            let wanted = held.candidate(current);
            if wanted == current.opposite() {
                assert_eq!(next, current);
            } else {
                assert_eq!(next, wanted);
            }
            assert_eq!(latch(next, held), next);
        }
    }
}

#[test]
fn latch_in_the_world_never_reverses() {
    for player in [PlayerId::P1, PlayerId::P2] {
        for bits in 0..16u8 {
            let held = keys(bits & 1 != 0, bits & 2 != 0, bits & 4 != 0, bits & 8 != 0);
            let mut world = World::new();
            world.movement_input(player, held);
            assert_ne!(world.direction(player), Direction::Down);
            assert_eq!(world.direction(player), latch(Direction::Up, held));
            assert_eq!(world.direction(player.other()), Direction::Up);
            assert_eq!(
                world.segment_positions(player),
                vec![player.start_head(), player.start_tail()]
            );
        }
    }
}

#[test]
fn second_player_latches_its_own_keys() {
    let mut world = World::new();
    world.movement_input(PlayerId::P2, keys(true, false, false, false));
    assert_eq!(world.direction(PlayerId::P2), Direction::Left);
    assert_eq!(world.direction(PlayerId::P1), Direction::Up);
    world.tick(PlayerId::P2);
    assert_eq!(world.segment_positions(PlayerId::P2), vec![cell(1, 2), cell(2, 2)]);
    assert_eq!(world.segment_positions(PlayerId::P1), vec![cell(4, 4), cell(4, 3)]);
    world.movement_input(PlayerId::P2, keys(false, false, false, true));
    assert_eq!(world.direction(PlayerId::P2), Direction::Left);
}

fn grown_to(length: usize) -> World {
    let mut world = World::new();
    let mut y = 5;
    while world.segment_count(PlayerId::P1) < length {
        world.place_food(cell(4, y)).unwrap();
        world.tick(PlayerId::P1);
        y += 1;
    }
    world
}

#[test]
fn movement_shifts_every_segment_one_link() {
    let mut world = grown_to(5);
    world.movement_input(PlayerId::P1, keys(true, false, false, false));
    let before = world.segment_positions(PlayerId::P1);
    let ids = world.segment_entities(PlayerId::P1);
    world.movement(PlayerId::P1);
    let after = world.segment_positions(PlayerId::P1);
    assert_eq!(after.len(), before.len());
    assert_eq!(after[0], cell(before[0].x - 1, before[0].y));
    for i in 1..after.len() {
        assert_eq!(after[i], before[i - 1]);
    }
    assert_eq!(world.last_tail(PlayerId::P1), Some(before[before.len() - 1]));
    assert_eq!(world.segment_entities(PlayerId::P1), ids);
    assert_eq!(world.pending_game_over(PlayerId::P1), 0);
    assert_eq!(world.pending_growth(PlayerId::P1), 0);
}

fn walk_to_edge(player: PlayerId, turn: KeyState) -> World {
    let mut world = World::new();
    loop {
        world.movement_input(player, turn);
        let next = world.head(player).stepped(world.direction(player));
        if !next.is_in_arena() {
            return world;
        }
        world.tick(player);
        assert_eq!(world.pending_game_over(player), 0);
    }
}

#[test]
fn each_wall_emits_exactly_one_game_over() {
    let turns = [
        (keys(true, false, false, false), cell(-1, 4)),
        (keys(false, false, false, true), cell(10, 4)),
        (keys(false, false, true, false), cell(4, 10)),
    ];
    for (turn, outside) in turns {
        let mut world = walk_to_edge(PlayerId::P1, turn);
        world.movement(PlayerId::P1);
        assert_eq!(world.head(PlayerId::P1), outside);
        assert_eq!(world.pending_game_over(PlayerId::P1), 1);
        assert_eq!(world.pending_game_over(PlayerId::P2), 0);
    }
}

#[test]
fn bottom_wall_emits_exactly_one_game_over() {
    let mut world = World::new();
    world.movement_input(PlayerId::P2, keys(true, false, false, false));
    world.tick(PlayerId::P2);
    world.movement_input(PlayerId::P2, keys(false, true, false, false));
    world.tick(PlayerId::P2);
    world.tick(PlayerId::P2);
    assert_eq!(world.segment_positions(PlayerId::P2), vec![cell(1, 0), cell(1, 1)]);
    world.movement(PlayerId::P2);
    assert_eq!(world.head(PlayerId::P2), cell(1, -1));
    assert_eq!(world.pending_game_over(PlayerId::P2), 1);
    assert_eq!(world.pending_game_over(PlayerId::P1), 0);
    world.game_over(PlayerId::P2);
    assert_eq!(world.segment_positions(PlayerId::P2), vec![cell(2, 2), cell(2, 1)]);
    assert_eq!(world.direction(PlayerId::P2), Direction::Up);
}

#[test]
fn a_second_move_before_game_over_adds_a_second_event() {
    let mut world = walk_to_edge(PlayerId::P1, keys(false, false, false, true));
    world.movement(PlayerId::P1);
    assert!(world.can_move(PlayerId::P1));
    world.movement(PlayerId::P1);
    assert_eq!(world.head(PlayerId::P1), cell(11, 4));
    assert_eq!(world.pending_game_over(PlayerId::P1), 2);
    world.game_over(PlayerId::P1);
    assert_eq!(world.pending_game_over(PlayerId::P1), 0);
    assert_eq!(world.segment_positions(PlayerId::P1), vec![cell(4, 4), cell(4, 3)]);
}

#[test]
fn a_step_outside_onto_the_own_body_emits_two_events() {
    let mut world = grown_to(4);
    world.movement_input(PlayerId::P1, keys(false, false, false, true));
    while world.head(PlayerId::P1).x < 9 {
        world.tick(PlayerId::P1);
    }
    assert_eq!(
        world.segment_positions(PlayerId::P1),
        vec![cell(9, 6), cell(8, 6), cell(7, 6), cell(6, 6)]
    );
    let turns = [
        (keys(false, false, false, true), cell(10, 6), 1),
        (keys(false, false, false, true), cell(11, 6), 2),
        (keys(false, false, true, false), cell(11, 7), 3),
        (keys(true, false, false, false), cell(10, 7), 4),
        (keys(false, true, false, false), cell(10, 6), 6),
    ];
    for (turn, head, events) in turns {
        world.movement_input(PlayerId::P1, turn);
        world.movement(PlayerId::P1);
        assert_eq!(world.head(PlayerId::P1), head);
        assert_eq!(world.pending_game_over(PlayerId::P1), events);
    }
    world.game_over(PlayerId::P1);
    assert_eq!(world.pending_game_over(PlayerId::P1), 0);
    assert_eq!(world.segment_positions(PlayerId::P1), vec![cell(4, 4), cell(4, 3)]);
}

#[test]
fn snakes_pass_through_each_other() {
    let mut world = World::new();
    world.movement_input(PlayerId::P2, keys(false, false, false, true));
    world.tick(PlayerId::P2);
    world.tick(PlayerId::P2);
    world.movement_input(PlayerId::P2, keys(false, false, true, false));
    world.tick(PlayerId::P2);
    assert_eq!(world.head(PlayerId::P2), cell(4, 3));
    assert_eq!(world.segment_positions(PlayerId::P1), vec![cell(4, 4), cell(4, 3)]);
    world.tick(PlayerId::P2);
    assert_eq!(world.head(PlayerId::P2), cell(4, 4));
    assert_eq!(world.pending_game_over(PlayerId::P2), 0);
    assert_eq!(world.pending_game_over(PlayerId::P1), 0);
    assert_eq!(world.segment_count(PlayerId::P2), 2);
}

#[test]
fn several_growth_events_grow_one_segment() {
    let mut world = World::new();
    world.place_food(cell(4, 5)).unwrap();
    world.place_food(cell(4, 5)).unwrap();
    world.place_food(cell(7, 7)).unwrap();
    world.movement(PlayerId::P1);
    world.eating(PlayerId::P1);
    assert_eq!(world.pending_growth(PlayerId::P1), 2);
    assert_eq!(world.food_positions(), vec![cell(7, 7)]);
    world.growth(PlayerId::P1);
    assert_eq!(world.segment_positions(PlayerId::P1), vec![cell(4, 5), cell(4, 4), cell(4, 3)]);
    assert_eq!(world.pending_growth(PlayerId::P1), 0);
    world.growth(PlayerId::P1);
    assert_eq!(world.segment_count(PlayerId::P1), 3);
}

#[test]
fn growth_without_an_event_changes_nothing() {
    let mut world = World::new();
    world.movement(PlayerId::P1);
    world.growth(PlayerId::P1);
    assert_eq!(world.segment_positions(PlayerId::P1), vec![cell(4, 5), cell(4, 4)]);
}

#[test]
fn growth_before_any_move_is_skipped() {
    let mut world = World::new();
    world.place_food(cell(4, 4)).unwrap();
    world.eating(PlayerId::P1);
    assert_eq!(world.pending_growth(PlayerId::P1), 1);
    assert_eq!(world.last_tail(PlayerId::P1), None);
    world.growth(PlayerId::P1);
    assert_eq!(world.segment_positions(PlayerId::P1), vec![cell(4, 4), cell(4, 3)]);
    assert_eq!(world.pending_growth(PlayerId::P1), 1);
    world.movement(PlayerId::P1);
    world.growth(PlayerId::P1);
    assert_eq!(world.segment_positions(PlayerId::P1), vec![cell(4, 5), cell(4, 4), cell(4, 3)]);
    assert_eq!(world.pending_growth(PlayerId::P1), 0);
}

#[test]
fn respawn_resets_the_snake_and_clears_all_food() {
    let mut world = grown_to(4);
    world.place_food(cell(0, 0)).unwrap();
    world.place_food(cell(2, 3)).unwrap();
    world.movement_input(PlayerId::P1, keys(false, false, false, true));
    while world.head(PlayerId::P1).x < 9 {
        world.tick(PlayerId::P1);
    }
    assert_eq!(world.segment_count(PlayerId::P1), 4);
    let other_ids = world.segment_entities(PlayerId::P2);
    world.tick(PlayerId::P1);
    assert_eq!(world.segment_positions(PlayerId::P1), vec![cell(4, 4), cell(4, 3)]);
    assert_eq!(world.direction(PlayerId::P1), Direction::Up);
    assert_eq!(world.pending_game_over(PlayerId::P1), 0);
    assert!(world.food_positions().is_empty());
    assert!(world.food_entities().is_empty());
    assert_eq!(world.segment_positions(PlayerId::P2), vec![cell(2, 2), cell(2, 1)]);
    assert_eq!(world.segment_entities(PlayerId::P2), other_ids);
    assert_eq!(world.last_tail(PlayerId::P1), Some(cell(6, 6)));
}

#[test]
fn game_over_without_an_event_changes_nothing() {
    let mut world = World::new();
    world.place_food(cell(1, 1)).unwrap();
    world.movement(PlayerId::P1);
    let ids = world.segment_entities(PlayerId::P1);
    world.game_over(PlayerId::P1);
    world.game_over(PlayerId::P2);
    assert_eq!(world.segment_positions(PlayerId::P1), vec![cell(4, 5), cell(4, 4)]);
    assert_eq!(world.segment_entities(PlayerId::P1), ids);
    assert_eq!(world.food_positions(), vec![cell(1, 1)]);
}

#[test]
fn eating_takes_every_food_on_the_head_and_no_other() {
    let mut world = World::new();
    for food in [cell(4, 4), cell(2, 2), cell(4, 4), cell(4, 3), cell(9, 0), cell(4, 4)] {
        world.place_food(food).unwrap();
    }
    world.eating(PlayerId::P1);
    assert_eq!(world.pending_growth(PlayerId::P1), 3);
    assert_eq!(world.pending_growth(PlayerId::P2), 0);
    assert_eq!(world.food_positions(), vec![cell(2, 2), cell(4, 3), cell(9, 0)]);
    let head = world.head(PlayerId::P1);
    assert!(!holds_cell(&world.food_positions(), head));
    world.eating(PlayerId::P2);
    assert_eq!(world.pending_growth(PlayerId::P2), 1);
    assert_eq!(world.food_positions(), vec![cell(4, 3), cell(9, 0)]);
    world.eating(PlayerId::P1);
    assert_eq!(world.pending_growth(PlayerId::P1), 3);
    assert_eq!(world.food_positions(), vec![cell(4, 3), cell(9, 0)]);
}

#[test]
fn food_outside_the_arena_is_refused() {
    let mut world = World::new();
    for outside in [cell(-1, 0), cell(0, -1), cell(10, 0), cell(0, 10), cell(i32::MIN, i32::MAX)] {
        assert_eq!(world.place_food(outside), None);
    }
    assert!(world.food_positions().is_empty());
    assert!(world.place_food(cell(9, 9)).is_some());
    assert!(world.place_food(cell(0, 0)).is_some());
    assert_eq!(world.food_positions(), vec![cell(9, 9), cell(0, 0)]);
}

#[test]
fn food_may_share_a_cell_with_a_snake_or_another_food() {
    let mut world = World::new();
    let a = world.place_food(cell(4, 3)).unwrap();
    let b = world.place_food(cell(4, 3)).unwrap();
    assert_ne!(a, b);
    assert_eq!(world.food_positions(), vec![cell(4, 3), cell(4, 3)]);
    assert_eq!(world.segment_positions(PlayerId::P1), vec![cell(4, 4), cell(4, 3)]);
}

#[test]
fn draws_select_the_floor_of_their_fraction_of_the_extent() {
    assert_eq!(coordinate_of_draw(0, 10), 0);
    assert_eq!(coordinate_of_draw(u32::MAX, 10), 9);
    assert_eq!(coordinate_of_draw(0x8000_0000, 10), 5);
    assert_eq!(coordinate_of_draw(0x7fff_ffff, 10), 4);
    assert_eq!(coordinate_of_draw(429_496_729, 10), 0);
    assert_eq!(coordinate_of_draw(429_496_730, 10), 1);
    assert_eq!(coordinate_of_draw(3_865_470_566, 10), 8);
    assert_eq!(coordinate_of_draw(3_865_470_567, 10), 9);
    assert_eq!(coordinate_of_draw(u32::MAX, 1), 0);
    assert_eq!(coordinate_of_draw(u32::MAX, u32::MAX), u32::MAX - 1);
    assert_eq!(coordinate_of_draw(0x4000_0000, 4), 1);
    assert_eq!(coordinate_of_draw(0, 0), 0);
    assert_eq!(coordinate_of_draw(u32::MAX, 0), 0);
}

#[test]
fn every_pair_of_draws_selects_a_cell_of_the_arena() {
    let samples = [0u32, 1, 429_496_729, 429_496_730, 0x7fff_ffff, 0x8000_0000, u32::MAX - 1, u32::MAX];
    for dx in samples {
        for dy in samples {
            let c = cell_of_draws(dx, dy);
            assert!(c.is_in_arena());
            assert_eq!(c.x as u32, coordinate_of_draw(dx, ARENA_WIDTH));
            assert_eq!(c.y as u32, coordinate_of_draw(dy, ARENA_HEIGHT));
        }
    }
    assert_eq!(cell_of_draws(0, u32::MAX), cell(0, 9));
    assert_eq!(cell_of_draws(0x8000_0000, 429_496_730), cell(5, 1));
}

#[test]
fn food_from_draws_lands_on_the_selected_cell() {
    let mut world = World::new();
    world.spawn_food_from_draws(0x8000_0000, 429_496_730);
    world.spawn_food_from_draws(u32::MAX, 0);
    assert_eq!(world.food_positions(), vec![cell(5, 1), cell(9, 0)]);
}

#[test]
fn entities_carry_their_roles_and_are_all_different() {
    let mut world = grown_to(3);
    world.place_food(cell(8, 8)).unwrap();
    world.place_food(cell(8, 8)).unwrap();
    let first = world.segment_entities(PlayerId::P1);
    let second = world.segment_entities(PlayerId::P2);
    let food = world.food_entities();
    let mut all: Vec<usize> = Vec::new();
    all.extend(first.iter());
    all.extend(second.iter());
    all.extend(food.iter());
    for i in 0..all.len() {
        for j in 0..all.len() {
            if i != j {
                assert_ne!(all[i], all[j]);
            }
        }
    }
    let positions = world.segment_positions(PlayerId::P1);
    for (place, id) in first.iter().enumerate() {
        let role = if place == 0 { Role::Head(PlayerId::P1) } else { Role::Body(PlayerId::P1) };
        assert_eq!(world.entity(*id), Some(Entity { role, position: positions[place] }));
    }
    assert_eq!(
        world.entity(second[0]),
        Some(Entity { role: Role::Head(PlayerId::P2), position: cell(2, 2) })
    );
    assert_eq!(
        world.entity(second[1]),
        Some(Entity { role: Role::Body(PlayerId::P2), position: cell(2, 1) })
    );
    for id in food {
        assert_eq!(world.entity(id), Some(Entity { role: Role::Food, position: cell(8, 8) }));
    }
    assert_eq!(world.entity(usize::MAX), None);
}

#[test]
fn eaten_food_and_dead_segments_leave_the_table() {
    let mut world = World::new();
    let food = world.place_food(cell(4, 5)).unwrap();
    let far = world.place_food(cell(0, 9)).unwrap();
    world.movement(PlayerId::P1);
    world.eating(PlayerId::P1);
    assert_eq!(world.entity(food), None);
    assert!(world.entity(far).is_some());
    world.growth(PlayerId::P1);
    let mut live = 0;
    for id in 0..16 {
        if world.entity(id).is_some() {
            live += 1;
        }
    }
    assert_eq!(live, 3 + 2 + 1);

    let mut world = walk_to_edge(PlayerId::P1, keys(false, false, false, true));
    world.place_food(cell(3, 3)).unwrap();
    world.tick(PlayerId::P1);
    let mut live = 0;
    for id in 0..16 {
        if world.entity(id).is_some() {
            live += 1;
        }
    }
    assert_eq!(live, 2 + 2);
}

#[test]
fn sizes_of_the_roles() {
    for player in [PlayerId::P1, PlayerId::P2] {
        assert_eq!(Role::Head(player).size_percent(), 80);
        assert_eq!(Role::Body(player).size_percent(), 65);
    }
    assert_eq!(Role::Food.size_percent(), 80);
}

#[test]
fn roles_that_leave_with_a_player() {
    assert!(leaves_with(Role::Food, PlayerId::P1));
    assert!(leaves_with(Role::Food, PlayerId::P2));
    assert!(leaves_with(Role::Head(PlayerId::P1), PlayerId::P1));
    assert!(leaves_with(Role::Body(PlayerId::P1), PlayerId::P1));
    assert!(!leaves_with(Role::Head(PlayerId::P2), PlayerId::P1));
    assert!(!leaves_with(Role::Body(PlayerId::P1), PlayerId::P2));
}

#[test]
fn cells_are_found_in_a_list() {
    let list = vec![cell(1, 2), cell(3, 4)];
    assert!(holds_cell(&list, cell(3, 4)));
    assert!(holds_cell(&list, cell(1, 2)));
    assert!(!holds_cell(&list, cell(2, 1)));
    assert!(!holds_cell(&Vec::new(), cell(0, 0)));
}

#[test]
fn labelled_systems_run_the_chain_of_their_snake() {
    let mut world = World::new();
    world.place_food(cell(3, 4)).unwrap();
    world.place_food(cell(2, 3)).unwrap();
    let left = keys(true, false, false, false);
    let idle = KeyState::released();

    Snake1Movement::Input.run(&mut world, left);
    assert_eq!(world.direction(PlayerId::P1), Direction::Left);
    assert_eq!(world.direction(PlayerId::P2), Direction::Up);
    Snake1Movement::Movement.run(&mut world, idle);
    assert_eq!(world.segment_positions(PlayerId::P1), vec![cell(3, 4), cell(4, 4)]);
    Snake1Movement::Eating.run(&mut world, idle);
    assert_eq!(world.pending_growth(PlayerId::P1), 1);
    Snake1Movement::Growth.run(&mut world, idle);
    assert_eq!(world.segment_positions(PlayerId::P1), vec![cell(3, 4), cell(4, 4), cell(4, 3)]);

    Snake2Movement::Input.run(&mut world, idle);
    assert_eq!(world.direction(PlayerId::P2), Direction::Up);
    Snake2Movement::Movement.run(&mut world, left);
    assert_eq!(world.segment_positions(PlayerId::P2), vec![cell(2, 3), cell(2, 2)]);
    Snake2Movement::Eating.run(&mut world, idle);
    assert_eq!(world.pending_growth(PlayerId::P2), 1);
    Snake2Movement::Growth.run(&mut world, idle);
    assert_eq!(world.segment_positions(PlayerId::P2), vec![cell(2, 3), cell(2, 2), cell(2, 1)]);
    assert!(world.food_positions().is_empty());
    assert_eq!(Snake1Movement::Eating, Snake1Movement::Eating.clone());
    assert_ne!(Snake2Movement::Input, Snake2Movement::Growth);
}

#[test]
fn a_tick_is_movement_game_over_eating_growth() {
    let mut by_tick = World::new();
    let mut by_hand = World::new();
    for world in [&mut by_tick, &mut by_hand] {
        world.place_food(cell(4, 5)).unwrap();
        world.place_food(cell(4, 7)).unwrap();
    }
    for _ in 0..7 {
        by_tick.tick(PlayerId::P1);
        by_hand.movement(PlayerId::P1);
        by_hand.game_over(PlayerId::P1);
        by_hand.eating(PlayerId::P1);
        by_hand.growth(PlayerId::P1);
        assert_eq!(
            by_tick.segment_positions(PlayerId::P1),
            by_hand.segment_positions(PlayerId::P1)
        );
        assert_eq!(by_tick.food_positions(), by_hand.food_positions());
        assert_eq!(by_tick.pending_game_over(PlayerId::P1), 0);
        assert_eq!(by_tick.pending_growth(PlayerId::P1), 0);
    }
    assert_eq!(by_tick.segment_positions(PlayerId::P1), vec![cell(4, 5), cell(4, 4)]);
}
