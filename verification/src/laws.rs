//! What holds of every board, proved from the model.

use vstd::prelude::*;
use crate::grid::{Direction, PlayerId, Position, ARENA_HEIGHT, ARENA_WIDTH};
use crate::input::{latched, KeyState};
use crate::model::{draw_cell, draw_coordinate, off_cell, on_cell, GameState, SnakeState};

verus! {

/// The latch never turns a head straight back, whatever keys are held.
pub proof fn lemma_latch_keeps_direction_legal(s: GameState, player: PlayerId, keys: KeyState)
    ensures
        s.latch(player, keys).snake(player).direction != s.snake(
            player,
        ).direction.spec_opposite(),
        s.latch(player, keys).snake(player).direction == latched(
            s.snake(player).direction,
            keys,
        ),
        s.latch(player, keys).latch(player, keys) == s.latch(player, keys),
        s.latch(player, keys).snake(player.spec_other()) == s.snake(player.spec_other()),
        s.latch(player, keys).food == s.food,
{
}

/// A move keeps the length. The head lands one step further in the latched
/// direction, and every other segment lands where the segment before it
/// stood.
pub proof fn lemma_movement_shifts_body(s: GameState, player: PlayerId)
    requires
        s.snake(player).valid(),
        s.snake(player).can_move(),
    ensures
        s.movement(player).snake(player).body.len() == s.snake(player).body.len(),
        s.movement(player).snake(player).body[0].x == s.snake(player).body[0].x + s.snake(
            player,
        ).direction.dx(),
        s.movement(player).snake(player).body[0].y == s.snake(player).body[0].y + s.snake(
            player,
        ).direction.dy(),
        forall|i: int|
            1 <= i < s.snake(player).body.len() ==> #[trigger] s.movement(player).snake(
                player,
            ).body[i] == s.snake(player).body[i - 1],
        s.movement(player).snake(player).last_tail == Some(s.snake(player).body.last()),
        s.movement(player).snake(player).direction == s.snake(player).direction,
{
}

/// A move touches neither the other snake, nor the food, nor the growth
/// queue.
pub proof fn lemma_movement_frame(s: GameState, player: PlayerId)
    ensures
        s.movement(player).snake(player.spec_other()) == s.snake(player.spec_other()),
        s.movement(player).food == s.food,
        s.movement(player).snake(player).growth_events == s.snake(player).growth_events,
{
}

/// A head that steps out of the arena emits a game-over event: exactly
/// one, unless the cell it steps onto is also held by its own snake. On a
/// snake that lay inside the arena before the step it is always exactly one.
pub proof fn lemma_wall_death(s: GameState, player: PlayerId)
    requires
        s.snake(player).valid(),
        s.snake(player).hits_wall(),
    ensures
        s.movement(player).snake(player).game_over_events >= s.snake(player).game_over_events
            + 1,
        !s.snake(player).hits_self() ==> s.movement(player).snake(player).game_over_events
            == s.snake(player).game_over_events + 1,
        s.snake(player).settled() ==> !s.snake(player).hits_self(),
        s.snake(player).settled() ==> s.movement(player).snake(player).game_over_events
            == s.snake(player).game_over_events + 1,
{
    let snake = s.snake(player);
    if snake.settled() && snake.hits_self() {
        let i = choose|i: int| 0 <= i < snake.body.len() && snake.body[i] == snake.next_head();
        assert(snake.body[i].in_arena());
    }
}

/// A head that steps onto a cell held by its own snake before the step
/// emits a game-over event.
pub proof fn lemma_self_collision_death(s: GameState, player: PlayerId, i: int)
    requires
        0 <= i < s.snake(player).body.len(),
        s.snake(player).body[i] == s.snake(player).next_head(),
    ensures
        s.snake(player).hits_self(),
        s.movement(player).snake(player).game_over_events >= s.snake(player).game_over_events
            + 1,
{
}

/// A move emits game-over events only for a wall or for the snake's own
/// body, and never more than two.
pub proof fn lemma_movement_events(s: GameState, player: PlayerId)
    ensures
        s.movement(player).snake(player).game_over_events <= s.snake(player).game_over_events
            + 2,
        !s.snake(player).hits_wall() && !s.snake(player).hits_self() ==> s.movement(
            player,
        ).snake(player).game_over_events == s.snake(player).game_over_events,
{
}

/// Growth appends at most one segment, however many events are pending. With
/// an event pending and a tail cell recorded it appends exactly one, on that
/// cell, and empties the queue.
pub proof fn lemma_growth_at_most_one(s: GameState, player: PlayerId)
    ensures
        s.growth(player).snake(player).body.len() <= s.snake(player).body.len() + 1,
        s.snake(player).growth_due() ==> {
            &&& s.growth(player).snake(player).body == s.snake(player).body.push(
                s.snake(player).last_tail->0,
            )
            &&& s.growth(player).snake(player).growth_events == 0
        },
        !s.snake(player).growth_due() ==> s.growth(player) == s,
        s.growth(player).snake(player.spec_other()) == s.snake(player.spec_other()),
        s.growth(player).food == s.food,
        s.growth(player).growth(player).snake(player).body.len() <= s.snake(player).body.len()
            + 1,
{
}

/// After game-over handling with an event pending, the snake has exactly
/// two segments, on its starting cells, and faces up; no food is left and the
/// queue is empty. The other snake is as before.
pub proof fn lemma_respawn_resets(s: GameState, player: PlayerId)
    requires
        s.snake(player).game_over_events > 0,
    ensures
        s.game_over(player).snake(player).body.len() == 2,
        s.game_over(player).snake(player).body[0] == player.spec_start_head(),
        s.game_over(player).snake(player).body[1] == player.spec_start_tail(),
        s.game_over(player).snake(player).direction == Direction::Up,
        s.game_over(player).snake(player).game_over_events == 0,
        s.game_over(player).food.len() == 0,
        s.game_over(player).snake(player.spec_other()) == s.snake(player.spec_other()),
{
}

/// Without a pending event game-over handling changes nothing.
pub proof fn lemma_game_over_idle(s: GameState, player: PlayerId)
    requires
        s.snake(player).game_over_events == 0,
    ensures
        s.game_over(player) == s,
{
}

/// A sequence splits into the items on a cell and the items off it.
pub proof fn lemma_on_off_partition(cells: Seq<Position>, cell: Position)
    ensures
        cells.filter(on_cell(cell)).len() + cells.filter(off_cell(cell)).len() == cells.len(),
    decreases cells.len(),
{
    reveal(Seq::filter);
    if cells.len() > 0 {
        lemma_on_off_partition(cells.drop_last(), cell);
    }
}

/// After eating, no food lies on the head's cell, and one growth event was
/// emitted for each food that did. Every food that is left was there before.
pub proof fn lemma_eating_clears_head(s: GameState, player: PlayerId)
    ensures
        forall|i: int|
            0 <= i < s.eating(player).food.len() ==> #[trigger] s.eating(player).food[i]
                != s.snake(player).head(),
        s.eating(player).food_on(s.eating(player).snake(player).head()) == 0,
        s.eating(player).snake(player).growth_events == s.snake(player).growth_events
            + s.food_on(s.snake(player).head()),
        s.food_on(s.snake(player).head()) + s.eating(player).food.len() == s.food.len(),
        forall|i: int|
            0 <= i < s.eating(player).food.len() ==> s.food.contains(
                #[trigger] s.eating(player).food[i],
            ),
        forall|i: int|
            0 <= i < s.food.len() && s.food[i] != s.snake(player).head() ==> s.eating(
                player,
            ).food.contains(#[trigger] s.food[i]),
        s.eating(player).snake(player).body == s.snake(player).body,
        s.eating(player).snake(player.spec_other()) == s.snake(player.spec_other()),
{
    let head = s.snake(player).head();
    let rest = s.food.filter(off_cell(head));
    lemma_on_off_partition(s.food, head);
    assert forall|i: int| 0 <= i < rest.len() implies #[trigger] rest[i] != head
        && s.food.contains(rest[i]) by {
        s.food.lemma_filter_pred(off_cell(head), i);
        assert(rest.contains(rest[i]));
        s.food.lemma_filter_contains_rev(off_cell(head), rest[i]);
    }
    assert forall|i: int| 0 <= i < s.food.len() && s.food[i] != head implies rest.contains(
        #[trigger] s.food[i],
    ) by {
        s.food.lemma_filter_contains(off_cell(head), i);
    }
    assert forall|i: int| 0 <= i < rest.len() implies !(on_cell(head))(#[trigger] rest[i]) by {}
    rest.lemma_all_neg_filter_empty(on_cell(head));
}

/// Eating where no food lies on the head's cell changes nothing.
pub proof fn lemma_eating_idle(s: GameState, player: PlayerId)
    requires
        forall|i: int| 0 <= i < s.food.len() ==> #[trigger] s.food[i] != s.snake(player).head(),
    ensures
        s.eating(player) == s,
{
    let head = s.snake(player).head();
    assert forall|i: int| 0 <= i < s.food.len() implies !(on_cell(head))(#[trigger] s.food[i]) by {}
    s.food.lemma_all_neg_filter_empty(on_cell(head));
    lemma_on_off_partition(s.food, head);
    lemma_filter_keeps_all(s.food, off_cell(head));
    assert(s.eating(player).food =~= s.food);
    assert(s.snake(player).fed(0) == s.snake(player));
}

/// A filter that keeps as many items as it was given keeps them all.
proof fn lemma_filter_keeps_all(cells: Seq<Position>, pred: spec_fn(Position) -> bool)
    requires
        cells.filter(pred).len() == cells.len(),
    ensures
        cells.filter(pred) == cells,
    decreases cells.len(),
{
    reveal(Seq::filter);
    if cells.len() > 0 {
        cells.drop_last().lemma_filter_len(pred);
        lemma_filter_keeps_all(cells.drop_last(), pred);
        assert(cells.drop_last().push(cells.last()) =~= cells);
    }
}

/// A draw selects a coordinate inside the extent.
pub proof fn lemma_draw_coordinate_bounds(draw: u32, extent: u32)
    requires
        extent > 0,
    ensures
        0 <= draw_coordinate(draw, extent) < extent,
{
    let d = draw as int;
    let e = extent as int;
    assert(d * e < 0x1_0000_0000 * e) by (nonlinear_arith)
        requires
            0 <= d < 0x1_0000_0000,
            e > 0,
    ;
    assert(0 <= d * e) by (nonlinear_arith)
        requires
            0 <= d,
            e > 0,
    ;
    vstd::arithmetic::div_mod::lemma_multiply_divide_lt(d * e, 0x1_0000_0000, e);
    vstd::arithmetic::div_mod::lemma_div_pos_is_pos(d * e, 0x1_0000_0000);
}

/// Every pair of draws selects a cell of the arena: its column is the
/// drawn fraction of the width and its row the drawn fraction of the height.
pub proof fn lemma_draw_cell_in_arena(draw_x: u32, draw_y: u32)
    ensures
        draw_cell(draw_x, draw_y).in_arena(),
        draw_cell(draw_x, draw_y).x == draw_coordinate(draw_x, ARENA_WIDTH),
        draw_cell(draw_x, draw_y).y == draw_coordinate(draw_y, ARENA_HEIGHT),
{
    lemma_draw_coordinate_bounds(draw_x, ARENA_WIDTH);
    lemma_draw_coordinate_bounds(draw_y, ARENA_HEIGHT);
}

/// Placing a food adds that one food and touches nothing else.
pub proof fn lemma_food_spawn_adds_one(s: GameState, cell: Position)
    ensures
        s.food_spawn(cell).food.len() == s.food.len() + 1,
        s.food_spawn(cell).food.last() == cell,
        forall|i: int| 0 <= i < s.food.len() ==> #[trigger] s.food_spawn(cell).food[i] == s.food[i],
        s.food_spawn(cell).snake1 == s.snake1,
        s.food_spawn(cell).snake2 == s.snake2,
        s.valid() && cell.in_arena() ==> s.food_spawn(cell).valid(),
{
}

/// The board at the start of a game is valid and settled, holds no food and
/// no events, and both heads can move.
pub proof fn lemma_initial_board()
    ensures
        GameState::initial().valid(),
        GameState::initial().settled(),
        GameState::initial().food.len() == 0,
        GameState::initial().snake(PlayerId::P1).can_move(),
        GameState::initial().snake(PlayerId::P2).can_move(),
{
}

/// No system takes a snake below two segments or food out of the arena.
pub proof fn lemma_systems_keep_valid(s: GameState, player: PlayerId, keys: KeyState)
    requires
        s.valid(),
    ensures
        s.latch(player, keys).valid(),
        s.movement(player).valid(),
        s.eating(player).valid(),
        s.growth(player).valid(),
        s.game_over(player).valid(),
        s.tick(player).valid(),
{
    lemma_eating_keeps_valid(s, player);
    let a = s.movement(player);
    let b = a.game_over(player);
    lemma_eating_keeps_valid(b, player);
}

proof fn lemma_eating_keeps_valid(s: GameState, player: PlayerId)
    requires
        s.valid(),
    ensures
        s.eating(player).valid(),
{
    lemma_eating_clears_head(s, player);
    let after = s.eating(player);
    assert forall|i: int| 0 <= i < after.food.len() implies (#[trigger] after.food[i]).in_arena() by {
        assert(s.food.contains(after.food[i]));
    }
}

/// A settled snake can always take its next step.
pub proof fn lemma_settled_can_move(snake: SnakeState)
    requires
        snake.valid(),
        snake.settled(),
    ensures
        snake.can_move(),
{
    assert(snake.body[0].in_arena());
}

/// A tick of a board that rests inside the arena leaves a board that rests
/// inside the arena, with both queues of the ticking snake empty. The other
/// snake is not touched; it can only lose food.
pub proof fn lemma_tick_keeps_settled(s: GameState, player: PlayerId)
    requires
        s.valid(),
        s.settled(),
    ensures
        s.tick(player).valid(),
        s.tick(player).settled(),
        s.tick(player).snake(player).game_over_events == 0,
        s.tick(player).snake(player).growth_events == 0,
        s.tick(player).snake(player.spec_other()) == s.snake(player.spec_other()),
{
    let snake = s.snake(player);
    let a = s.movement(player);
    let b = a.game_over(player);
    let c = b.eating(player);
    let d = c.growth(player);
    lemma_systems_keep_valid(s, player, KeyState { left: false, down: false, up: false, right: false });
    assert(snake.body[0].in_arena());
    assert(snake.body.last().in_arena());
    assert(a.snake(player).last_tail == Some(snake.body.last()));
    assert(b.snake(player).settled()) by {
        if a.snake(player).game_over_events > 0 {
            assert(b.snake(player).body =~= SnakeState::initial(player).body);
        } else {
            assert(!snake.hits_wall());
            assert forall|i: int| 0 <= i < b.snake(player).body.len() implies (
            #[trigger] b.snake(player).body[i]).in_arena() by {
                if i > 0 {
                    assert(b.snake(player).body[i] == snake.body[i - 1]);
                }
            }
        }
    }
    assert(c.snake(player).body == b.snake(player).body);
    assert(c.snake(player).last_tail == Some(snake.body.last()));
    assert(d.snake(player).settled());
}

/// Whatever the board, a tick leaves both queues of the ticking snake
/// empty.
pub proof fn lemma_tick_empties_queues(s: GameState, player: PlayerId)
    ensures
        s.tick(player).snake(player).game_over_events == 0,
        s.tick(player).snake(player).growth_events == 0,
{
    let a = s.movement(player);
    let b = a.game_over(player);
    let c = b.eating(player);
    assert(a.snake(player).last_tail is Some);
    assert(b.snake(player).last_tail is Some);
    assert(c.snake(player).last_tail is Some);
    assert(b.snake(player).game_over_events == 0);
}

/// A tick in which the snake neither dies nor has an event pending moves it,
/// lets it eat, and grows it by at most the one cell its tail left.
pub proof fn lemma_tick_without_death(s: GameState, player: PlayerId)
    requires
        s.snake(player).valid(),
        s.snake(player).can_move(),
        s.snake(player).game_over_events == 0,
        !s.snake(player).hits_wall(),
        !s.snake(player).hits_self(),
    ensures
        s.tick(player) == s.movement(player).eating(player).growth(player),
        s.tick(player).snake(player).body.len() >= s.snake(player).body.len(),
        s.tick(player).snake(player).body[0] == s.snake(player).next_head(),
{
}

/// A tick in which the snake dies leaves no food and the snake facing up;
/// unless a growth event was left pending from before the tick, the snake
/// is on its two starting cells.
pub proof fn lemma_tick_with_death(s: GameState, player: PlayerId)
    requires
        s.snake(player).valid(),
        s.snake(player).hits_wall() || s.snake(player).hits_self(),
    ensures
        s.snake(player).growth_events == 0 ==> s.tick(player).snake(player).body
            == SnakeState::initial(player).body,
        s.tick(player).snake(player).direction == Direction::Up,
        s.tick(player).food.len() == 0,
        s.tick(player).snake(player).game_over_events == 0,
        s.tick(player).snake(player.spec_other()) == s.snake(player.spec_other()),
{
    let a = s.movement(player);
    assert(a.snake(player).game_over_events > 0);
    let b = a.game_over(player);
    assert(b.food.len() == 0);
    lemma_eating_clears_head(b, player);
    let c = b.eating(player);
    assert(c.food.len() == 0);
    assert(b.food_on(b.snake(player).head()) == 0);
    assert(c.snake(player).growth_events == s.snake(player).growth_events);
    assert(c.snake(player).body == b.snake(player).body);
    let d = c.growth(player);
    assert(d.food.len() == 0);
}

} // verus!
