//! The world: the entity table, the two snakes, the food, and the systems
//! that advance them.

use vstd::prelude::*;
use crate::entity::{
    cell_at, cells, food_ok, holds_food, lemma_occupy_food, lemma_occupy_segment, lemma_purge,
    lemma_remove_food_on, lemma_rewrite_segments, lemma_table_ok_symmetric, live, occupy,
    owned_by, role_at, segments_ok, table_ok, vacant, Entity, GameOverEvent, GrowthEvent, Role,
};
use crate::grid::{Direction, PlayerId, Position};
use crate::input::{latch, KeyState};
use crate::laws::{lemma_tick_empties_queues, lemma_tick_keeps_settled};
use crate::model::{draw_cell, off_cell, on_cell, GameState, SnakeState};
use crate::random::{cell_of_draws, random_draw};

verus! {

/// What the world keeps for one player.
struct Snake {
    /// Entity numbers of the segments, head first.
    segments: Vec<usize>,
    /// Direction latched for the head.
    direction: Direction,
    /// Cell that the tail left at the last move.
    last_tail: Option<Position>,
    /// Growth events not yet consumed.
    growth_events: Vec<GrowthEvent>,
    /// Game-over events not yet consumed.
    game_over_events: Vec<GameOverEvent>,
}

/// The world of one game.
pub struct World {
    /// The entity table: slot `id` holds entity number `id`, if it is live.
    entities: Vec<Option<Entity>>,
    snake1: Snake,
    snake2: Snake,
    /// Entity numbers of the foods, oldest first.
    food: Vec<usize>,
}

impl View for World {
    type V = GameState;

    /// The board that this world stands for.
    closed spec fn view(&self) -> GameState {
        GameState {
            snake1: self.snake_state(PlayerId::P1),
            snake2: self.snake_state(PlayerId::P2),
            food: cells(self.entities@, self.food@),
        }
    }
}

impl World {
    /// What the world keeps for `player`.
    spec fn snake_of(&self, player: PlayerId) -> Snake {
        match player {
            PlayerId::P1 => self.snake1,
            PlayerId::P2 => self.snake2,
        }
    }

    /// `player`'s snake as the board shows it.
    spec fn snake_state(&self, player: PlayerId) -> SnakeState {
        let snake = self.snake_of(player);
        SnakeState {
            body: cells(self.entities@, snake.segments@),
            direction: snake.direction,
            last_tail: snake.last_tail,
            growth_events: snake.growth_events@.len(),
            game_over_events: snake.game_over_events@.len(),
        }
    }

    /// Table and lists fit together, seen from `player`.
    spec fn fits(&self, player: PlayerId) -> bool {
        table_ok(
            self.entities@,
            player,
            self.snake_of(player).segments@,
            self.snake_of(player.spec_other()).segments@,
            self.food@,
        )
    }

    /// The entity table.
    pub closed spec fn table(&self) -> Seq<Option<Entity>> {
        self.entities@
    }

    /// Entity numbers of `player`'s segments, head first.
    pub closed spec fn segment_ids(&self, player: PlayerId) -> Seq<usize> {
        self.snake_of(player).segments@
    }

    /// Entity numbers of the foods, oldest first.
    pub closed spec fn food_ids(&self) -> Seq<usize> {
        self.food@
    }

    /// The world is well formed: table and lists fit together, and each
    /// snake has a head and at least one more segment.
    pub closed spec fn wf(&self) -> bool {
        &&& self.fits(PlayerId::P1)
        &&& self.snake1.segments@.len() >= 2
        &&& self.snake2.segments@.len() >= 2
    }

    /// What well-formedness means in terms of the table and the lists.
    pub proof fn lemma_wf(&self)
        requires
            self.wf(),
        ensures
            table_ok(
                self.table(),
                PlayerId::P1,
                self.segment_ids(PlayerId::P1),
                self.segment_ids(PlayerId::P2),
                self.food_ids(),
            ),
            self@.valid(),
            self@.snake1.body == cells(self.table(), self.segment_ids(PlayerId::P1)),
            self@.snake2.body == cells(self.table(), self.segment_ids(PlayerId::P2)),
            self@.food == cells(self.table(), self.food_ids()),
    {
        assert forall|i: int| 0 <= i < self@.food.len() implies (#[trigger] self@.food[i]).in_arena() by {
            assert(live(self.entities@, self.food@[i]));
        }
    }

    /// Table and lists fit together seen from one player exactly when they
    /// do seen from the other.
    proof fn lemma_fits_either(&self, player: PlayerId)
        requires
            self.fits(player),
        ensures
            self.fits(player.spec_other()),
    {
        lemma_table_ok_symmetric(
            self.entities@,
            player,
            self.snake_of(player).segments@,
            self.snake_of(player.spec_other()).segments@,
            self.food@,
        );
    }

    /// The list of `player`'s segments.
    fn segments(&self, player: PlayerId) -> (ids: &Vec<usize>)
        ensures
            *ids == self.snake_of(player).segments,
    {
        match player {
            PlayerId::P1 => &self.snake1.segments,
            PlayerId::P2 => &self.snake2.segments,
        }
    }

    /// Sets the direction latched for `player`'s head.
    fn set_direction(&mut self, player: PlayerId, direction: Direction)
        ensures
            final(self).entities == old(self).entities,
            final(self).food == old(self).food,
            final(self).snake_of(player.spec_other()) == old(self).snake_of(player.spec_other()),
            final(self).snake_of(player) == (Snake { direction, ..old(self).snake_of(player) }),
    {
        match player {
            PlayerId::P1 => {
                self.snake1.direction = direction;
            },
            PlayerId::P2 => {
                self.snake2.direction = direction;
            },
        }
    }

    /// Records the cell that `player`'s tail has left.
    fn set_last_tail(&mut self, player: PlayerId, cell: Position)
        ensures
            final(self).entities == old(self).entities,
            final(self).food == old(self).food,
            final(self).snake_of(player.spec_other()) == old(self).snake_of(player.spec_other()),
            final(self).snake_of(player) == (Snake {
                last_tail: Some(cell),
                ..old(self).snake_of(player)
            }),
    {
        match player {
            PlayerId::P1 => {
                self.snake1.last_tail = Some(cell);
            },
            PlayerId::P2 => {
                self.snake2.last_tail = Some(cell);
            },
        }
    }

    /// Appends one event to `player`'s game-over queue.
    fn emit_game_over(&mut self, player: PlayerId)
        ensures
            final(self).entities == old(self).entities,
            final(self).food == old(self).food,
            final(self).snake_of(player.spec_other()) == old(self).snake_of(player.spec_other()),
            final(self).snake_of(player).segments == old(self).snake_of(player).segments,
            final(self).snake_of(player).direction == old(self).snake_of(player).direction,
            final(self).snake_of(player).last_tail == old(self).snake_of(player).last_tail,
            final(self).snake_of(player).growth_events == old(self).snake_of(
                player,
            ).growth_events,
            final(self).snake_of(player).game_over_events@.len() == old(self).snake_of(
                player,
            ).game_over_events@.len() + 1,
    {
        match player {
            PlayerId::P1 => {
                self.snake1.game_over_events.push(GameOverEvent);
            },
            PlayerId::P2 => {
                self.snake2.game_over_events.push(GameOverEvent);
            },
        }
    }

    /// Appends one event to `player`'s growth queue.
    fn emit_growth(&mut self, player: PlayerId)
        ensures
            final(self).entities == old(self).entities,
            final(self).food == old(self).food,
            final(self).snake_of(player.spec_other()) == old(self).snake_of(player.spec_other()),
            final(self).snake_of(player).segments == old(self).snake_of(player).segments,
            final(self).snake_of(player).direction == old(self).snake_of(player).direction,
            final(self).snake_of(player).last_tail == old(self).snake_of(player).last_tail,
            final(self).snake_of(player).game_over_events == old(self).snake_of(
                player,
            ).game_over_events,
            final(self).snake_of(player).growth_events@.len() == old(self).snake_of(
                player,
            ).growth_events@.len() + 1,
    {
        match player {
            PlayerId::P1 => {
                self.snake1.growth_events.push(GrowthEvent);
            },
            PlayerId::P2 => {
                self.snake2.growth_events.push(GrowthEvent);
            },
        }
    }

    /// Empties `player`'s game-over queue.
    fn drain_game_over(&mut self, player: PlayerId)
        ensures
            final(self).entities == old(self).entities,
            final(self).food == old(self).food,
            final(self).snake_of(player.spec_other()) == old(self).snake_of(player.spec_other()),
            final(self).snake_of(player).segments == old(self).snake_of(player).segments,
            final(self).snake_of(player).direction == old(self).snake_of(player).direction,
            final(self).snake_of(player).last_tail == old(self).snake_of(player).last_tail,
            final(self).snake_of(player).growth_events == old(self).snake_of(
                player,
            ).growth_events,
            final(self).snake_of(player).game_over_events@.len() == 0,
    {
        match player {
            PlayerId::P1 => {
                self.snake1.game_over_events.clear();
            },
            PlayerId::P2 => {
                self.snake2.game_over_events.clear();
            },
        }
    }

    /// Empties `player`'s growth queue.
    fn drain_growth(&mut self, player: PlayerId)
        ensures
            final(self).entities == old(self).entities,
            final(self).food == old(self).food,
            final(self).snake_of(player.spec_other()) == old(self).snake_of(player.spec_other()),
            final(self).snake_of(player).segments == old(self).snake_of(player).segments,
            final(self).snake_of(player).direction == old(self).snake_of(player).direction,
            final(self).snake_of(player).last_tail == old(self).snake_of(player).last_tail,
            final(self).snake_of(player).game_over_events == old(self).snake_of(
                player,
            ).game_over_events,
            final(self).snake_of(player).growth_events@.len() == 0,
    {
        match player {
            PlayerId::P1 => {
                self.snake1.growth_events.clear();
            },
            PlayerId::P2 => {
                self.snake2.growth_events.clear();
            },
        }
    }

    /// Appends entity `id` to the list of `player`'s segments.
    fn push_segment(&mut self, player: PlayerId, id: usize)
        ensures
            final(self).entities == old(self).entities,
            final(self).food == old(self).food,
            final(self).snake_of(player.spec_other()) == old(self).snake_of(player.spec_other()),
            final(self).snake_of(player).segments@ == old(self).snake_of(player).segments@.push(
                id,
            ),
            final(self).snake_of(player).direction == old(self).snake_of(player).direction,
            final(self).snake_of(player).last_tail == old(self).snake_of(player).last_tail,
            final(self).snake_of(player).growth_events == old(self).snake_of(
                player,
            ).growth_events,
            final(self).snake_of(player).game_over_events == old(self).snake_of(
                player,
            ).game_over_events,
    {
        match player {
            PlayerId::P1 => {
                self.snake1.segments.push(id);
            },
            PlayerId::P2 => {
                self.snake2.segments.push(id);
            },
        }
    }

    /// Empties the list of `player`'s segments.
    fn clear_segments(&mut self, player: PlayerId)
        ensures
            final(self).entities == old(self).entities,
            final(self).food == old(self).food,
            final(self).snake_of(player.spec_other()) == old(self).snake_of(player.spec_other()),
            final(self).snake_of(player).segments@ == Seq::<usize>::empty(),
            final(self).snake_of(player).direction == old(self).snake_of(player).direction,
            final(self).snake_of(player).last_tail == old(self).snake_of(player).last_tail,
            final(self).snake_of(player).growth_events == old(self).snake_of(
                player,
            ).growth_events,
            final(self).snake_of(player).game_over_events == old(self).snake_of(
                player,
            ).game_over_events,
    {
        match player {
            PlayerId::P1 => {
                self.snake1.segments.clear();
            },
            PlayerId::P2 => {
                self.snake2.segments.clear();
            },
        }
    }

    /// Puts `entity` into the first vacant slot of the table and returns the
    /// slot's number.
    fn allocate(&mut self, entity: Entity) -> (id: usize)
        ensures
            vacant(old(self).entities@, id),
            final(self).entities@ == occupy(old(self).entities@, id, entity),
            final(self).snake1 == old(self).snake1,
            final(self).snake2 == old(self).snake2,
            final(self).food == old(self).food,
    {
        let n: usize = self.entities.len();
        let mut i: usize = 0;
        while i < n
            invariant
                i <= n,
                n == self.entities@.len(),
                *self == *old(self),
                forall|j: int| 0 <= j < i ==> self.entities@[j] is Some,
            decreases n - i,
        {
            if self.entities[i].is_none() {
                self.entities.set(i, Some(entity));
                return i;
            }
            i += 1;
        }
        self.entities.push(Some(entity));
        n
    }

    /// Moves the live entity `id` to `cell`.
    fn set_position(&mut self, id: usize, cell: Position)
        requires
            live(old(self).entities@, id),
        ensures
            final(self).entities@ == old(self).entities@.update(
                id as int,
                Some(Entity { role: role_at(old(self).entities@, id), position: cell }),
            ),
            final(self).snake1 == old(self).snake1,
            final(self).snake2 == old(self).snake2,
            final(self).food == old(self).food,
    {
        let entity = self.entities[id].unwrap();
        self.entities.set(id, Some(Entity { role: entity.role, position: cell }));
    }

    /// Spawns a segment of `player`'s snake on `cell` and appends it to the
    /// snake: the head, if the snake has no segment yet, else a body
    /// segment. Returns the new entity's number.
    fn spawn_segment(&mut self, player: PlayerId, cell: Position) -> (id: usize)
        requires
            old(self).fits(player),
        ensures
            final(self).fits(player),
            !live(old(self).entities@, id),
            final(self).snake_of(player).segments@ == old(self).snake_of(player).segments@.push(
                id,
            ),
            final(self).snake_state(player).body == old(self).snake_state(player).body.push(cell),
            final(self).snake_of(player).direction == old(self).snake_of(player).direction,
            final(self).snake_of(player).last_tail == old(self).snake_of(player).last_tail,
            final(self).snake_of(player).growth_events == old(self).snake_of(
                player,
            ).growth_events,
            final(self).snake_of(player).game_over_events == old(self).snake_of(
                player,
            ).game_over_events,
            final(self).snake_of(player.spec_other()) == old(self).snake_of(player.spec_other()),
            final(self).snake_state(player.spec_other()) == old(self).snake_state(
                player.spec_other(),
            ),
            final(self).food == old(self).food,
            cells(final(self).entities@, final(self).food@) == cells(
                old(self).entities@,
                old(self).food@,
            ),
    {
        let ghost table0 = self.entities@;
        let ghost mine = self.snake_of(player).segments@;
        let ghost theirs = self.snake_of(player.spec_other()).segments@;
        let role = if self.segments(player).len() == 0 {
            Role::Head(player)
        } else {
            Role::Body(player)
        };
        let segment = Entity { role, position: cell };
        let id = self.allocate(segment);
        proof {
            lemma_occupy_segment(table0, player, mine, theirs, self.food@, id, segment);
        }
        self.push_segment(player, id);
        id
    }

    /// Spawns `player`'s snake: a head on the player's starting cell, facing
    /// up, and one segment right below it.
    fn spawn_snake(&mut self, player: PlayerId)
        requires
            old(self).fits(player),
            old(self).snake_of(player).segments@.len() == 0,
        ensures
            final(self).fits(player),
            final(self).snake_of(player).segments@.len() == 2,
            final(self).snake_state(player).body == SnakeState::initial(player).body,
            final(self).snake_of(player).direction == Direction::Up,
            final(self).snake_of(player).last_tail == old(self).snake_of(player).last_tail,
            final(self).snake_of(player).growth_events == old(self).snake_of(
                player,
            ).growth_events,
            final(self).snake_of(player).game_over_events == old(self).snake_of(
                player,
            ).game_over_events,
            final(self).snake_of(player.spec_other()) == old(self).snake_of(player.spec_other()),
            final(self).snake_state(player.spec_other()) == old(self).snake_state(
                player.spec_other(),
            ),
            final(self).food == old(self).food,
            cells(final(self).entities@, final(self).food@) == cells(
                old(self).entities@,
                old(self).food@,
            ),
    {
        self.spawn_segment(player, player.start_head());
        self.spawn_segment(player, player.start_tail());
        self.set_direction(player, Direction::Up);
        assert(self.snake_state(player).body =~= SnakeState::initial(player).body);
    }

    /// A new game: both snakes spawned, no food, no events.
    pub fn new() -> (world: World)
        ensures
            world.wf(),
            world@ == GameState::initial(),
    {
        let mut world = World {
            entities: Vec::new(),
            snake1: Snake {
                segments: Vec::new(),
                direction: Direction::Up,
                last_tail: None,
                growth_events: Vec::new(),
                game_over_events: Vec::new(),
            },
            snake2: Snake {
                segments: Vec::new(),
                direction: Direction::Up,
                last_tail: None,
                growth_events: Vec::new(),
                game_over_events: Vec::new(),
            },
            food: Vec::new(),
        };
        assert(world.fits(PlayerId::P1));
        world.spawn_snake(PlayerId::P1);
        proof {
            world.lemma_fits_either(PlayerId::P1);
        }
        world.spawn_snake(PlayerId::P2);
        proof {
            world.lemma_fits_either(PlayerId::P2);
            assert(world@.food =~= Seq::<Position>::empty());
        }
        world
    }

    /// The direction latched for `player`'s head.
    pub fn direction(&self, player: PlayerId) -> (d: Direction)
        ensures
            d == self@.snake(player).direction,
    {
        match player {
            PlayerId::P1 => self.snake1.direction,
            PlayerId::P2 => self.snake2.direction,
        }
    }

    /// The cell that `player`'s tail left at the last move, if the snake has
    /// moved yet.
    pub fn last_tail(&self, player: PlayerId) -> (cell: Option<Position>)
        ensures
            cell == self@.snake(player).last_tail,
    {
        match player {
            PlayerId::P1 => self.snake1.last_tail,
            PlayerId::P2 => self.snake2.last_tail,
        }
    }

    /// Number of `player`'s growth events not yet consumed.
    pub fn pending_growth(&self, player: PlayerId) -> (count: usize)
        ensures
            count == self@.snake(player).growth_events,
    {
        match player {
            PlayerId::P1 => self.snake1.growth_events.len(),
            PlayerId::P2 => self.snake2.growth_events.len(),
        }
    }

    /// Number of `player`'s game-over events not yet consumed.
    pub fn pending_game_over(&self, player: PlayerId) -> (count: usize)
        ensures
            count == self@.snake(player).game_over_events,
    {
        match player {
            PlayerId::P1 => self.snake1.game_over_events.len(),
            PlayerId::P2 => self.snake2.game_over_events.len(),
        }
    }

    /// Number of `player`'s segments, the head included.
    pub fn segment_count(&self, player: PlayerId) -> (count: usize)
        requires
            self.wf(),
        ensures
            count == self@.snake(player).body.len(),
            count == self.segment_ids(player).len(),
            count >= 2,
    {
        self.segments(player).len()
    }

    /// The cells of `player`'s segments, head first.
    pub fn segment_positions(&self, player: PlayerId) -> (body: Vec<Position>)
        requires
            self.wf(),
        ensures
            body@ == self@.snake(player).body,
            body@.len() >= 2,
    {
        let ids = self.segments(player);
        let n: usize = ids.len();
        let mut body: Vec<Position> = Vec::new();
        let mut i: usize = 0;
        proof {
            self.lemma_fits_either(PlayerId::P1);
        }
        while i < n
            invariant
                i <= n,
                n == ids@.len(),
                ids@ == self.snake_of(player).segments@,
                segments_ok(self.entities@, ids@, player),
                body@ == cells(self.entities@, ids@).take(i as int),
            decreases n - i,
        {
            let id: usize = ids[i];
            assert(live(self.entities@, ids@[i as int]));
            let entity = self.entities[id].unwrap();
            body.push(entity.position);
            i += 1;
            assert(body@ =~= cells(self.entities@, ids@).take(i as int));
        }
        assert(body@ =~= cells(self.entities@, ids@));
        body
    }

    /// The cell of `player`'s head.
    pub fn head(&self, player: PlayerId) -> (cell: Position)
        requires
            self.wf(),
        ensures
            cell == self@.snake(player).head(),
    {
        proof {
            self.lemma_fits_either(PlayerId::P1);
        }
        let id: usize = self.segments(player)[0];
        assert(live(self.entities@, self.snake_of(player).segments@[0]));
        self.entities[id].unwrap().position
    }

    /// Tells whether `player`'s head can take its next step without leaving
    /// the representable cells. A head inside the arena always can.
    pub fn can_move(&self, player: PlayerId) -> (b: bool)
        requires
            self.wf(),
        ensures
            b == self@.snake(player).can_move(),
            self@.snake(player).head().in_arena() ==> b,
    {
        self.head(player).is_steppable(self.direction(player))
    }

    /// The cells of the foods, oldest first.
    pub fn food_positions(&self) -> (food: Vec<Position>)
        requires
            self.wf(),
        ensures
            food@ == self@.food,
    {
        let n: usize = self.food.len();
        let mut food: Vec<Position> = Vec::new();
        let mut i: usize = 0;
        while i < n
            invariant
                i <= n,
                n == self.food@.len(),
                food_ok(self.entities@, self.food@),
                food@ == cells(self.entities@, self.food@).take(i as int),
            decreases n - i,
        {
            let id: usize = self.food[i];
            assert(live(self.entities@, self.food@[i as int]));
            let entity = self.entities[id].unwrap();
            food.push(entity.position);
            i += 1;
            assert(food@ =~= cells(self.entities@, self.food@).take(i as int));
        }
        assert(food@ =~= cells(self.entities@, self.food@));
        food
    }

    /// Entity numbers of `player`'s segments, head first.
    pub fn segment_entities(&self, player: PlayerId) -> (ids: Vec<usize>)
        ensures
            ids@ == self.segment_ids(player),
    {
        let list = self.segments(player);
        let n: usize = list.len();
        let mut ids: Vec<usize> = Vec::new();
        let mut i: usize = 0;
        while i < n
            invariant
                i <= n,
                n == list@.len(),
                ids@ == list@.take(i as int),
            decreases n - i,
        {
            ids.push(list[i]);
            i += 1;
            assert(ids@ =~= list@.take(i as int));
        }
        assert(ids@ =~= list@);
        ids
    }

    /// Entity numbers of the foods, oldest first.
    pub fn food_entities(&self) -> (ids: Vec<usize>)
        ensures
            ids@ == self.food_ids(),
    {
        let n: usize = self.food.len();
        let mut ids: Vec<usize> = Vec::new();
        let mut i: usize = 0;
        while i < n
            invariant
                i <= n,
                n == self.food@.len(),
                ids@ == self.food@.take(i as int),
            decreases n - i,
        {
            ids.push(self.food[i]);
            i += 1;
            assert(ids@ =~= self.food@.take(i as int));
        }
        assert(ids@ =~= self.food@);
        ids
    }

    /// The entity with number `id`, if it is live.
    pub fn entity(&self, id: usize) -> (found: Option<Entity>)
        ensures
            found is Some <==> live(self.table(), id),
            found is Some ==> found == self.table()[id as int],
    {
        if id < self.entities.len() {
            self.entities[id]
        } else {
            None
        }
    }

    /// The input latch of `player`: the head turns to the direction that
    /// the held keys ask for, unless that points straight back.
    pub fn movement_input(&mut self, player: PlayerId, keys: KeyState)
        requires
            old(self).wf(),
        ensures
            final(self).wf(),
            final(self)@ == old(self)@.latch(player, keys),
            final(self)@.snake(player).direction != old(self)@.snake(
                player,
            ).direction.spec_opposite(),
            final(self).table() == old(self).table(),
            final(self).segment_ids(PlayerId::P1) == old(self).segment_ids(PlayerId::P1),
            final(self).segment_ids(PlayerId::P2) == old(self).segment_ids(PlayerId::P2),
            final(self).food_ids() == old(self).food_ids(),
    {
        let current = self.direction(player);
        self.set_direction(player, latch(current, keys));
    }

    /// The movement system of `player`: the head takes one step in the
    /// latched direction, every other segment takes the cell of the segment
    /// before it, and the cell that the tail leaves is recorded. A game-over
    /// event is emitted if the head leaves the arena, and one if it steps
    /// onto a cell that the snake held before the move.
    pub fn movement(&mut self, player: PlayerId)
        requires
            old(self).wf(),
            old(self)@.snake(player).can_move(),
        ensures
            final(self).wf(),
            final(self)@ == old(self)@.movement(player),
            final(self).segment_ids(PlayerId::P1) == old(self).segment_ids(PlayerId::P1),
            final(self).segment_ids(PlayerId::P2) == old(self).segment_ids(PlayerId::P2),
            final(self).food_ids() == old(self).food_ids(),
    {
        proof {
            self.lemma_fits_either(PlayerId::P1);
        }
        let ghost before = *self;
        let ghost table0 = self.entities@;
        let ghost ids = self.snake_of(player).segments@;
        let ghost was = self.snake_state(player);
        let prev = self.segment_positions(player);
        let direction = self.direction(player);
        let n: usize = prev.len();
        let head = prev[0].stepped(direction);
        let ghost target = seq![head] + prev@.drop_last();
        if !head.is_in_arena() {
            self.emit_game_over(player);
        }
        if holds_cell(&prev, head) {
            self.emit_game_over(player);
        }
        let head_id: usize = self.segments(player)[0];
        assert(live(table0, ids[0]));
        self.set_position(head_id, head);
        let mut i: usize = 1;
        while i < n
            invariant
                1 <= i <= n,
                n == prev@.len(),
                n == ids.len(),
                prev@ == cells(table0, ids),
                target == seq![head] + prev@.drop_last(),
                table_ok(
                    table0,
                    player,
                    ids,
                    before.snake_of(player.spec_other()).segments@,
                    before.food@,
                ),
                self.entities@.len() == table0.len(),
                self.food == before.food,
                self.snake_of(player.spec_other()) == before.snake_of(player.spec_other()),
                self.snake_of(player).segments@ == ids,
                self.snake_of(player).direction == before.snake_of(player).direction,
                self.snake_of(player).last_tail == before.snake_of(player).last_tail,
                self.snake_of(player).growth_events == before.snake_of(player).growth_events,
                self.snake_of(player).game_over_events@.len() == before.snake_of(
                    player,
                ).game_over_events@.len() + was.deaths(),
                forall|id: int|
                    0 <= id < table0.len() && !owned_by(table0[id], player)
                        ==> #[trigger] self.entities@[id] == table0[id],
                forall|id: int|
                    0 <= id < table0.len() && owned_by(table0[id], player) ==> (
                    #[trigger] self.entities@[id]) is Some && self.entities@[id]->0.role
                        == table0[id]->0.role,
                forall|j: int| 0 <= j < i ==> cell_at(self.entities@, #[trigger] ids[j]) == target[j],
                forall|j: int|
                    i <= j < n ==> self.entities@[(#[trigger] ids[j]) as int] == table0[ids[j] as int],
            decreases n - i,
        {
            let id: usize = self.segments(player)[i];
            assert(live(table0, ids[i as int]));
            assert(owned_by(table0[id as int], player));
            self.set_position(id, prev[i - 1]);
            proof {
                assert forall|j: int| 0 <= j < i + 1 implies cell_at(
                    self.entities@,
                    #[trigger] ids[j],
                ) == target[j] by {
                    if j < i {
                        assert(ids[j] != ids[i as int]);
                    }
                }
                assert forall|j: int| i + 1 <= j < n implies self.entities@[(
                #[trigger] ids[j]) as int] == table0[ids[j] as int] by {
                    assert(ids[j] != ids[i as int]);
                }
            }
            i += 1;
        }
        self.set_last_tail(player, prev[n - 1]);
        proof {
            lemma_rewrite_segments(
                table0,
                self.entities@,
                player,
                ids,
                before.snake_of(player.spec_other()).segments@,
                before.food@,
                target,
            );
            self.lemma_fits_either(player);
            if player == PlayerId::P2 {
                self.lemma_fits_either(PlayerId::P2);
            }
            assert(self.snake_state(player) == was.moved());
            assert(self.snake_state(player.spec_other()) == before.snake_state(
                player.spec_other(),
            ));
        }
    }

    /// The eating system of `player`: every food on the cell of the head is
    /// taken out of the world, and one growth event is emitted for each.
    pub fn eating(&mut self, player: PlayerId)
        requires
            old(self).wf(),
        ensures
            final(self).wf(),
            final(self)@ == old(self)@.eating(player),
            final(self).segment_ids(PlayerId::P1) == old(self).segment_ids(PlayerId::P1),
            final(self).segment_ids(PlayerId::P2) == old(self).segment_ids(PlayerId::P2),
            forall|k: int|
                0 <= k < final(self).food_ids().len() ==> old(self).food_ids().contains(
                    #[trigger] final(self).food_ids()[k],
                ),
    {
        proof {
            self.lemma_fits_either(PlayerId::P1);
        }
        let ghost before = *self;
        let ghost table0 = self.entities@;
        let ghost food0 = self.food@;
        let ghost mine = self.snake_of(player).segments@;
        let ghost theirs = self.snake_of(player.spec_other()).segments@;
        let ghost cells0 = cells(table0, food0);
        let head_id: usize = self.segments(player)[0];
        assert(live(table0, mine[0]));
        let head = self.entities[head_id].unwrap().position;
        let n: usize = self.food.len();
        let mut kept: Vec<usize> = Vec::new();
        let mut i: usize = 0;
        assert(cells0.take(0) =~= Seq::<Position>::empty());
        assert(cells(table0, kept@) =~= Seq::<Position>::empty());
        proof {
            reveal(Seq::filter);
        }
        while i < n
            invariant
                i <= n,
                n == food0.len(),
                self.food@ == food0,
                cells0 == cells(table0, food0),
                table_ok(table0, player, mine, theirs, food0),
                self.entities@.len() == table0.len(),
                self.snake_of(player.spec_other()) == before.snake_of(player.spec_other()),
                self.snake_of(player).segments == before.snake_of(player).segments,
                self.snake_of(player).direction == before.snake_of(player).direction,
                self.snake_of(player).last_tail == before.snake_of(player).last_tail,
                self.snake_of(player).game_over_events == before.snake_of(
                    player,
                ).game_over_events,
                self.snake_of(player).growth_events@.len() == before.snake_of(
                    player,
                ).growth_events@.len() + cells0.take(i as int).filter(on_cell(head)).len(),
                forall|id: int|
                    0 <= id < table0.len() && !holds_food(table0[id])
                        ==> #[trigger] self.entities@[id] == table0[id],
                forall|j: int|
                    0 <= j < n ==> self.entities@[(#[trigger] food0[j]) as int] == (if j < i
                        && cell_at(table0, food0[j]) == head {
                        None
                    } else {
                        table0[food0[j] as int]
                    }),
                cells(table0, kept@) == cells0.take(i as int).filter(off_cell(head)),
                forall|k: int|
                    0 <= k < kept@.len() ==> food0.take(i as int).contains(#[trigger] kept@[k])
                        && cell_at(table0, kept@[k]) != head,
                forall|j: int|
                    0 <= j < i && cell_at(table0, #[trigger] food0[j]) != head ==> kept@.contains(
                        food0[j],
                    ),
                kept@.no_duplicates(),
            decreases n - i,
        {
            let id: usize = self.food[i];
            assert(live(table0, food0[i as int]));
            assert(self.entities@[food0[i as int] as int] == table0[food0[i as int] as int]);
            let cell = self.entities[id].unwrap().position;
            let ghost kept0 = kept@;
            let ghost table1 = self.entities@;
            proof {
                assert(cells0.take(i as int + 1) =~= cells0.take(i as int).push(cell));
                cells0.take(i as int).lemma_filter_push(cell, on_cell(head));
                cells0.take(i as int).lemma_filter_push(cell, off_cell(head));
            }
            if cell == head {
                self.entities.set(id, None);
                self.emit_growth(player);
                proof {
                    assert forall|j: int| 0 <= j < n implies self.entities@[(
                    #[trigger] food0[j]) as int] == (if j < i + 1 && cell_at(table0, food0[j])
                        == head {
                        None
                    } else {
                        table0[food0[j] as int]
                    }) by {
                        if j != i {
                            assert(food0[j] != food0[i as int]);
                        }
                    }
                    assert forall|k: int| 0 <= k < kept@.len() implies food0.take(
                        i as int + 1,
                    ).contains(#[trigger] kept@[k]) by {
                        let j = choose|j: int|
                            0 <= j < food0.take(i as int).len() && food0.take(i as int)[j]
                                == kept@[k];
                        assert(food0.take(i as int + 1)[j] == kept@[k]);
                    }
                }
            } else {
                kept.push(id);
                proof {
                    assert(cells(table0, kept@) =~= cells(table0, kept0).push(cell));
                    assert forall|k: int| 0 <= k < kept@.len() implies food0.take(
                        i as int + 1,
                    ).contains(#[trigger] kept@[k]) && cell_at(table0, kept@[k]) != head by {
                        if k < kept0.len() {
                            assert(kept@[k] == kept0[k]);
                            let j = choose|j: int|
                                0 <= j < food0.take(i as int).len() && food0.take(i as int)[j]
                                    == kept0[k];
                            assert(food0.take(i as int + 1)[j] == kept@[k]);
                        } else {
                            assert(food0.take(i as int + 1)[i as int] == kept@[k]);
                        }
                    }
                    assert forall|j: int|
                        0 <= j < i + 1 && cell_at(table0, #[trigger] food0[j])
                            != head implies kept@.contains(food0[j]) by {
                        if j < i {
                            let k = choose|k: int| 0 <= k < kept0.len() && kept0[k] == food0[j];
                            assert(kept@[k] == food0[j]);
                        } else {
                            assert(kept@[kept0.len() as int] == food0[j]);
                        }
                    }
                    assert forall|a: int, b: int|
                        0 <= a < kept@.len() && 0 <= b < kept@.len() && a != b implies kept@[a]
                        != kept@[b] by {
                        if a < kept0.len() && b < kept0.len() {
                            assert(kept0[a] != kept0[b]);
                        } else {
                            let old_one = if a < kept0.len() { a } else { b };
                            let j = choose|j: int|
                                0 <= j < food0.take(i as int).len() && food0.take(i as int)[j]
                                    == kept0[old_one];
                            assert(food0[j] != food0[i as int]);
                        }
                    }
                }
            }
            i += 1;
        }
        self.food = kept;
        proof {
            assert(cells0.take(n as int) =~= cells0);
            assert forall|k: int| 0 <= k < self.food@.len() implies food0.contains(
                #[trigger] self.food@[k],
            ) by {
                let j = choose|j: int|
                    0 <= j < food0.take(n as int).len() && food0.take(n as int)[j] == self.food@[k];
                assert(food0[j] == self.food@[k]);
            }
            lemma_remove_food_on(
                table0,
                self.entities@,
                player,
                mine,
                theirs,
                food0,
                self.food@,
                head,
            );
            self.lemma_fits_either(player);
            if player == PlayerId::P2 {
                self.lemma_fits_either(PlayerId::P2);
            }
            assert(head == before.snake_state(player).head());
            assert(self.snake_state(player) == before.snake_state(player).fed(
                before@.food_on(head),
            ));
            assert(self.snake_state(player.spec_other()) == before.snake_state(
                player.spec_other(),
            ));
        }
    }

    /// The growth system of `player`: with a growth event pending and a tail
    /// cell recorded, one segment is appended on that cell and the queue is
    /// emptied. Otherwise nothing changes.
    pub fn growth(&mut self, player: PlayerId)
        requires
            old(self).wf(),
        ensures
            final(self).wf(),
            final(self)@ == old(self)@.growth(player),
            final(self).segment_ids(player.spec_other()) == old(self).segment_ids(
                player.spec_other(),
            ),
            final(self).food_ids() == old(self).food_ids(),
            !old(self)@.snake(player).growth_due() ==> final(self).segment_ids(player) == old(self).segment_ids(player),
            old(self)@.snake(player).growth_due() ==> final(self).segment_ids(player).len()
                == old(self).segment_ids(player).len() + 1 && final(self).segment_ids(
                player,
            ).drop_last() == old(self).segment_ids(player) && !live(
                old(self).table(),
                final(self).segment_ids(player).last(),
            ),
    {
        proof {
            self.lemma_fits_either(PlayerId::P1);
        }
        let ghost before = *self;
        if self.pending_growth(player) > 0 {
            match self.last_tail(player) {
                Some(cell) => {
                    let ghost mine = self.snake_of(player).segments@;
                    self.spawn_segment(player, cell);
                    self.drain_growth(player);
                    proof {
                        self.lemma_fits_either(player);
                        if player == PlayerId::P2 {
                            self.lemma_fits_either(PlayerId::P2);
                        }
                        assert(self.snake_of(player).segments@.drop_last() =~= mine);
                        assert(self.snake_state(player) == before.snake_state(player).grown());
                        assert(self.snake_state(player.spec_other()) == before.snake_state(
                            player.spec_other(),
                        ));
                    }
                },
                None => {},
            }
        }
    }

    /// The game-over system of `player`: with a game-over event pending,
    /// every food and every segment of the snake is taken out of the world,
    /// the snake is spawned anew, and the queue is emptied. Otherwise
    /// nothing changes.
    pub fn game_over(&mut self, player: PlayerId)
        requires
            old(self).wf(),
        ensures
            final(self).wf(),
            final(self)@ == old(self)@.game_over(player),
            final(self).segment_ids(player.spec_other()) == old(self).segment_ids(
                player.spec_other(),
            ),
            old(self)@.snake(player).game_over_events == 0 ==> final(self).segment_ids(player)
                == old(self).segment_ids(player) && final(self).food_ids() == old(self).food_ids() && final(self).table() == old(self).table(),
            old(self)@.snake(player).game_over_events > 0 ==> final(self).food_ids().len() == 0
                && final(self).segment_ids(player).len() == 2,
    {
        proof {
            self.lemma_fits_either(PlayerId::P1);
        }
        let ghost before = *self;
        let ghost table0 = self.entities@;
        if self.pending_game_over(player) > 0 {
            let n: usize = self.entities.len();
            let mut i: usize = 0;
            while i < n
                invariant
                    i <= n,
                    n == table0.len(),
                    self.entities@.len() == n,
                    self.snake1 == before.snake1,
                    self.snake2 == before.snake2,
                    self.food == before.food,
                    forall|id: int|
                        0 <= id < i ==> #[trigger] self.entities@[id] == (if holds_food(
                            table0[id],
                        ) || owned_by(table0[id], player) {
                            None
                        } else {
                            table0[id]
                        }),
                    forall|id: int| i <= id < n ==> #[trigger] self.entities@[id] == table0[id],
                decreases n - i,
            {
                let doomed = match self.entities[i] {
                    Some(entity) => leaves_with(entity.role, player),
                    None => false,
                };
                if doomed {
                    self.entities.set(i, None);
                }
                i += 1;
            }
            self.food.clear();
            self.clear_segments(player);
            proof {
                lemma_purge(
                    table0,
                    self.entities@,
                    player,
                    before.snake_of(player).segments@,
                    before.snake_of(player.spec_other()).segments@,
                    before.food@,
                );
                assert(self.food@ =~= Seq::<usize>::empty());
                assert(self.snake_of(player).segments@ =~= Seq::<usize>::empty());
            }
            self.spawn_snake(player);
            self.drain_game_over(player);
            proof {
                self.lemma_fits_either(player);
                if player == PlayerId::P2 {
                    self.lemma_fits_either(PlayerId::P2);
                }
                assert(self@.food =~= Seq::<Position>::empty());
                assert(self.snake_state(player) == before.snake_state(player).respawned(player));
                assert(self.snake_state(player.spec_other()) == before.snake_state(
                    player.spec_other(),
                ));
            }
        }
    }

    /// Places a food on `cell`, if the cell lies inside the arena, and
    /// returns the new entity's number. A cell outside the arena is refused
    /// and the world is left as it is.
    pub fn place_food(&mut self, cell: Position) -> (placed: Option<usize>)
        requires
            old(self).wf(),
        ensures
            final(self).wf(),
            placed is Some <==> cell.in_arena(),
            cell.in_arena() ==> final(self)@ == old(self)@.food_spawn(cell) && final(self).food_ids() == old(self).food_ids().push(placed->0) && !live(
                old(self).table(),
                placed->0,
            ),
            !cell.in_arena() ==> final(self)@ == old(self)@ && final(self).food_ids() == old(self).food_ids() && final(self).table() == old(self).table(),
            final(self).segment_ids(PlayerId::P1) == old(self).segment_ids(PlayerId::P1),
            final(self).segment_ids(PlayerId::P2) == old(self).segment_ids(PlayerId::P2),
    {
        if cell.is_in_arena() {
            let ghost before = *self;
            let food = Entity { role: Role::Food, position: cell };
            let id = self.allocate(food);
            proof {
                lemma_occupy_food(
                    before.entities@,
                    PlayerId::P1,
                    before.snake1.segments@,
                    before.snake2.segments@,
                    before.food@,
                    id,
                    food,
                );
            }
            self.food.push(id);
            Some(id)
        } else {
            None
        }
    }

    /// Places a food on the cell that the two draws select.
    pub fn spawn_food_from_draws(&mut self, draw_x: u32, draw_y: u32)
        requires
            old(self).wf(),
        ensures
            final(self).wf(),
            final(self)@ == old(self)@.food_spawn(draw_cell(draw_x, draw_y)),
            draw_cell(draw_x, draw_y).in_arena(),
            final(self).segment_ids(PlayerId::P1) == old(self).segment_ids(PlayerId::P1),
            final(self).segment_ids(PlayerId::P2) == old(self).segment_ids(PlayerId::P2),
            final(self).food_ids().len() == old(self).food_ids().len() + 1,
            final(self).food_ids().drop_last() == old(self).food_ids(),
    {
        let cell = cell_of_draws(draw_x, draw_y);
        let ghost ids = self.food@;
        let placed = self.place_food(cell);
        assert(self.food_ids().drop_last() =~= ids);
    }

    /// The food spawner: places one food on a cell of the arena chosen by
    /// two independent uniform draws. Cells that are already taken are not
    /// avoided.
    pub fn food_spawner(&mut self)
        requires
            old(self).wf(),
        ensures
            final(self).wf(),
            exists|draw_x: u32, draw_y: u32|
                final(self)@ == old(self)@.food_spawn(#[trigger] draw_cell(draw_x, draw_y)),
            final(self)@.food.len() == old(self)@.food.len() + 1,
            final(self)@.food.drop_last() == old(self)@.food,
            final(self)@.food.last().in_arena(),
            final(self)@.snake1 == old(self)@.snake1,
            final(self)@.snake2 == old(self)@.snake2,
            final(self).segment_ids(PlayerId::P1) == old(self).segment_ids(PlayerId::P1),
            final(self).segment_ids(PlayerId::P2) == old(self).segment_ids(PlayerId::P2),
            final(self).food_ids().len() == old(self).food_ids().len() + 1,
            final(self).food_ids().drop_last() == old(self).food_ids(),
    {
        let draw_x: u32 = random_draw();
        let draw_y: u32 = random_draw();
        let ghost food0 = self@.food;
        self.spawn_food_from_draws(draw_x, draw_y);
        assert(self@.food.drop_last() =~= food0);
    }

    /// One tick of `player`'s chain: movement, then game-over handling, then
    /// eating, then growth.
    pub fn tick(&mut self, player: PlayerId)
        requires
            old(self).wf(),
            old(self)@.snake(player).can_move(),
        ensures
            final(self).wf(),
            final(self)@ == old(self)@.tick(player),
            final(self)@.snake(player).game_over_events == 0,
            final(self)@.snake(player).growth_events == 0,
            old(self)@.settled() ==> final(self)@.settled(),
            final(self).segment_ids(player.spec_other()) == old(self).segment_ids(
                player.spec_other(),
            ),
    {
        proof {
            self.lemma_wf();
            lemma_tick_empties_queues(self@, player);
            if self@.settled() {
                lemma_tick_keeps_settled(self@, player);
            }
        }
        self.movement(player);
        self.game_over(player);
        self.eating(player);
        self.growth(player);
    }
}

/// An entity of this role leaves the world when `player` dies: every food
/// does, and every segment of `player`'s snake.
pub open spec fn spec_leaves_with(role: Role, player: PlayerId) -> bool {
    role == Role::Food || role == Role::Head(player) || role == Role::Body(player)
}

/// Tells whether an entity of this role leaves the world when `player`
/// dies.
#[verifier::when_used_as_spec(spec_leaves_with)]
pub fn leaves_with(role: Role, player: PlayerId) -> (b: bool)
    ensures
        b == spec_leaves_with(role, player),
{
    match role {
        Role::Head(owner) => owner == player,
        Role::Body(owner) => owner == player,
        Role::Food => true,
    }
}

/// Tells whether `cell` occurs in `cells`.
pub fn holds_cell(cells: &Vec<Position>, cell: Position) -> (found: bool)
    ensures
        found == cells@.contains(cell),
{
    let n: usize = cells.len();
    let mut i: usize = 0;
    while i < n
        invariant
            i <= n,
            n == cells@.len(),
            forall|j: int| 0 <= j < i ==> cells@[j] != cell,
        decreases n - i,
    {
        if cells[i] == cell {
            return true;
        }
        i += 1;
    }
    false
}

} // verus!
