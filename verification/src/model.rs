//! The game as mathematics: the state of a board between two steps, and one
//! function per system saying what state it leaves.
//!
//! Everything here is ghost code. The executable world in
//! [`crate::world`] is held to these functions by its contracts.

use vstd::prelude::*;
use crate::grid::{Direction, PlayerId, Position, ARENA_HEIGHT, ARENA_WIDTH};
use crate::input::{latched, KeyState};

verus! {

/// The test "lies on `cell`".
pub open spec fn on_cell(cell: Position) -> spec_fn(Position) -> bool {
    |c: Position| c == cell
}

/// The test "does not lie on `cell`".
pub open spec fn off_cell(cell: Position) -> spec_fn(Position) -> bool {
    |c: Position| c != cell
}

/// The arena coordinate that a uniform draw selects along an axis of
/// `extent` cells. The draw stands for the fraction `draw / 2^32` of the
/// half-open unit interval; the coordinate is that fraction of the extent,
/// rounded down.
pub open spec fn draw_coordinate(draw: u32, extent: u32) -> int {
    (draw as int * extent as int) / 0x1_0000_0000
}

/// The cell that a pair of uniform draws selects.
pub open spec fn draw_cell(draw_x: u32, draw_y: u32) -> Position {
    Position {
        x: draw_coordinate(draw_x, ARENA_WIDTH) as i32,
        y: draw_coordinate(draw_y, ARENA_HEIGHT) as i32,
    }
}

/// One snake: its cells from head to tail, the direction latched for its
/// head, the cell its tail left at the last move, and its two event queues.
pub struct SnakeState {
    pub body: Seq<Position>,
    pub direction: Direction,
    pub last_tail: Option<Position>,
    pub growth_events: nat,
    pub game_over_events: nat,
}

impl SnakeState {
    /// A freshly spawned snake of `player`, as it is at the start of a game.
    pub open spec fn initial(player: PlayerId) -> SnakeState {
        SnakeState {
            body: seq![player.spec_start_head(), player.spec_start_tail()],
            direction: Direction::Up,
            last_tail: None,
            growth_events: 0,
            game_over_events: 0,
        }
    }

    /// A snake has a head and at least one more segment.
    pub open spec fn valid(self) -> bool {
        self.body.len() >= 2
    }

    /// Every segment lies inside the arena.
    pub open spec fn settled(self) -> bool {
        forall|i: int| 0 <= i < self.body.len() ==> (#[trigger] self.body[i]).in_arena()
    }

    pub open spec fn head(self) -> Position {
        self.body[0]
    }

    pub open spec fn tail(self) -> Position {
        self.body.last()
    }

    /// The head can take its next step without leaving the representable
    /// cells.
    pub open spec fn can_move(self) -> bool {
        self.head().can_step(self.direction)
    }

    /// Where the head stands after its next step.
    pub open spec fn next_head(self) -> Position {
        self.head().step(self.direction)
    }

    /// The next step takes the head out of the arena.
    pub open spec fn hits_wall(self) -> bool {
        !self.next_head().in_arena()
    }

    /// The next step takes the head onto a cell that a segment of this
    /// snake holds before the step, the head's own cell included.
    pub open spec fn hits_self(self) -> bool {
        self.body.contains(self.next_head())
    }

    /// Number of game-over events that the next move emits.
    pub open spec fn deaths(self) -> nat {
        (if self.hits_wall() { 1nat } else { 0nat }) + (if self.hits_self() { 1nat } else { 0nat })
    }

    /// The input latch.
    pub open spec fn latch(self, keys: KeyState) -> SnakeState {
        SnakeState { direction: latched(self.direction, keys), ..self }
    }

    /// One move: the head steps, every other segment takes the cell of the
    /// segment before it, and the tail's old cell is remembered.
    pub open spec fn moved(self) -> SnakeState {
        SnakeState {
            body: seq![self.next_head()] + self.body.drop_last(),
            last_tail: Some(self.tail()),
            game_over_events: self.game_over_events + self.deaths(),
            ..self
        }
    }

    /// `count` foods were eaten.
    pub open spec fn fed(self, count: nat) -> SnakeState {
        SnakeState { growth_events: self.growth_events + count, ..self }
    }

    /// Growth is due: an event is pending and a tail cell was recorded.
    pub open spec fn growth_due(self) -> bool {
        self.growth_events > 0 && self.last_tail is Some
    }

    /// The growth system: where growth is due, one segment is appended on
    /// the remembered tail cell and the queue is emptied, however many events it
    /// held. Otherwise nothing changes.
    pub open spec fn grown(self) -> SnakeState {
        if self.growth_due() {
            SnakeState {
                body: self.body.push(self.last_tail->0),
                growth_events: 0,
                ..self
            }
        } else {
            self
        }
    }

    /// The snake after it died: back on its starting cells, facing up, with
    /// an empty game-over queue. The remembered tail cell and the growth queue
    /// are not touched.
    pub open spec fn respawned(self, player: PlayerId) -> SnakeState {
        SnakeState {
            body: SnakeState::initial(player).body,
            direction: Direction::Up,
            game_over_events: 0,
            ..self
        }
    }
}

/// The whole board: both snakes and the food, oldest first.
pub struct GameState {
    pub snake1: SnakeState,
    pub snake2: SnakeState,
    pub food: Seq<Position>,
}

impl GameState {
    /// The board at the start of a game: both snakes spawned, no food.
    pub open spec fn initial() -> GameState {
        GameState {
            snake1: SnakeState::initial(PlayerId::P1),
            snake2: SnakeState::initial(PlayerId::P2),
            food: Seq::empty(),
        }
    }

    pub open spec fn snake(self, player: PlayerId) -> SnakeState {
        match player {
            PlayerId::P1 => self.snake1,
            PlayerId::P2 => self.snake2,
        }
    }

    pub open spec fn with_snake(self, player: PlayerId, snake: SnakeState) -> GameState {
        match player {
            PlayerId::P1 => GameState { snake1: snake, ..self },
            PlayerId::P2 => GameState { snake2: snake, ..self },
        }
    }

    /// Both snakes are valid and all food lies inside the arena.
    pub open spec fn valid(self) -> bool {
        &&& self.snake1.valid()
        &&& self.snake2.valid()
        &&& forall|i: int| 0 <= i < self.food.len() ==> (#[trigger] self.food[i]).in_arena()
    }

    /// Every segment of both snakes lies inside the arena: the state in
    /// which a board rests between two ticks.
    pub open spec fn settled(self) -> bool {
        self.snake1.settled() && self.snake2.settled()
    }

    /// Number of foods lying on `cell`.
    pub open spec fn food_on(self, cell: Position) -> nat {
        self.food.filter(on_cell(cell)).len()
    }

    /// The input latch of `player`.
    pub open spec fn latch(self, player: PlayerId, keys: KeyState) -> GameState {
        self.with_snake(player, self.snake(player).latch(keys))
    }

    /// The movement system of `player`.
    pub open spec fn movement(self, player: PlayerId) -> GameState {
        self.with_snake(player, self.snake(player).moved())
    }

    /// The eating system of `player`: every food on the head's cell is
    /// removed, and one growth event is emitted for each.
    pub open spec fn eating(self, player: PlayerId) -> GameState {
        let head = self.snake(player).head();
        GameState {
            food: self.food.filter(off_cell(head)),
            ..self.with_snake(player, self.snake(player).fed(self.food_on(head)))
        }
    }

    /// The growth system of `player`.
    pub open spec fn growth(self, player: PlayerId) -> GameState {
        self.with_snake(player, self.snake(player).grown())
    }

    /// The game-over system of `player`: where a game-over event is pending,
    /// all food is removed and the snake is spawned anew.
    pub open spec fn game_over(self, player: PlayerId) -> GameState {
        if self.snake(player).game_over_events > 0 {
            GameState {
                food: Seq::empty(),
                ..self.with_snake(player, self.snake(player).respawned(player))
            }
        } else {
            self
        }
    }

    /// A food is placed on `cell`.
    pub open spec fn food_spawn(self, cell: Position) -> GameState {
        GameState { food: self.food.push(cell), ..self }
    }

    /// One tick of `player`'s chain: movement, then game-over handling, then
    /// eating, then growth.
    pub open spec fn tick(self, player: PlayerId) -> GameState {
        self.movement(player).game_over(player).eating(player).growth(player)
    }
}

} // verus!
