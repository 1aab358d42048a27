//! The arena, its cells, and the four directions a snake can face.

use vstd::prelude::*;

verus! {

/// Number of columns of the arena.
pub const ARENA_WIDTH: u32 = 10;

/// Number of rows of the arena.
pub const ARENA_HEIGHT: u32 = 10;

/// Milliseconds between two ticks of a snake's chain.
pub const TICK_PERIOD_MS: u32 = 150;

/// Milliseconds between two runs of the food spawner.
pub const FOOD_PERIOD_MS: u32 = 1000;

/// A direction of travel. `Up` increases `y`, `Right` increases `x`.
#[derive(Clone, Copy, PartialEq, Eq, Debug, Hash, Structural)]
pub enum Direction {
    Left,
    Up,
    Right,
    Down,
}

impl Direction {
    /// The direction that points the other way.
    pub open spec fn spec_opposite(self) -> Direction {
        match self {
            Direction::Left => Direction::Right,
            Direction::Right => Direction::Left,
            Direction::Up => Direction::Down,
            Direction::Down => Direction::Up,
        }
    }

    /// Change of `x` when taking one step in this direction.
    pub open spec fn dx(self) -> int {
        match self {
            Direction::Left => -1,
            Direction::Right => 1,
            Direction::Up => 0,
            Direction::Down => 0,
        }
    }

    /// Change of `y` when taking one step in this direction.
    pub open spec fn dy(self) -> int {
        match self {
            Direction::Left => 0,
            Direction::Right => 0,
            Direction::Up => 1,
            Direction::Down => -1,
        }
    }

    /// The direction that points the other way.
    #[verifier::when_used_as_spec(spec_opposite)]
    pub fn opposite(self) -> (r: Direction)
        ensures
            r == self.spec_opposite(),
    {
        match self {
            Direction::Left => Direction::Right,
            Direction::Right => Direction::Left,
            Direction::Up => Direction::Down,
            Direction::Down => Direction::Up,
        }
    }
}

/// A cell address. Addresses outside the arena can be represented; they
/// occur right after a head has stepped over the edge.
#[derive(Clone, Copy, PartialEq, Eq, Debug, Hash, Structural)]
pub struct Position {
    pub x: i32,
    pub y: i32,
}

impl Position {
    /// The cell lies inside the arena.
    pub open spec fn in_arena(self) -> bool {
        0 <= self.x < ARENA_WIDTH && 0 <= self.y < ARENA_HEIGHT
    }

    /// The neighbour in direction `d` is representable.
    pub open spec fn can_step(self, d: Direction) -> bool {
        &&& i32::MIN <= self.x + d.dx() <= i32::MAX
        &&& i32::MIN <= self.y + d.dy() <= i32::MAX
    }

    /// The neighbour in direction `d`.
    pub open spec fn step(self, d: Direction) -> Position {
        Position { x: (self.x + d.dx()) as i32, y: (self.y + d.dy()) as i32 }
    }

    /// Tells whether the cell lies inside the arena.
    pub fn is_in_arena(self) -> (b: bool)
        ensures
            b == self.in_arena(),
    {
        0 <= self.x && 0 <= self.y && (self.x as u32) < ARENA_WIDTH && (self.y as u32)
            < ARENA_HEIGHT
    }

    /// Tells whether the neighbour in direction `d` is representable.
    pub fn is_steppable(self, d: Direction) -> (b: bool)
        ensures
            b == self.can_step(d),
    {
        match d {
            Direction::Left => self.x > i32::MIN,
            Direction::Right => self.x < i32::MAX,
            Direction::Up => self.y < i32::MAX,
            Direction::Down => self.y > i32::MIN,
        }
    }

    /// The neighbour in direction `d`.
    pub fn stepped(self, d: Direction) -> (r: Position)
        requires
            self.can_step(d),
        ensures
            r == self.step(d),
            r.x == self.x + d.dx(),
            r.y == self.y + d.dy(),
    {
        match d {
            Direction::Left => Position { x: self.x - 1, y: self.y },
            Direction::Right => Position { x: self.x + 1, y: self.y },
            Direction::Up => Position { x: self.x, y: self.y + 1 },
            Direction::Down => Position { x: self.x, y: self.y - 1 },
        }
    }
}

/// One of the two players.
#[derive(Clone, Copy, PartialEq, Eq, Debug, Hash, Structural)]
pub enum PlayerId {
    P1,
    P2,
}

impl PlayerId {
    /// The other player.
    pub open spec fn spec_other(self) -> PlayerId {
        match self {
            PlayerId::P1 => PlayerId::P2,
            PlayerId::P2 => PlayerId::P1,
        }
    }

    /// Cell on which this player's head is placed when the snake is spawned.
    pub open spec fn spec_start_head(self) -> Position {
        match self {
            PlayerId::P1 => Position { x: 4, y: 4 },
            PlayerId::P2 => Position { x: 2, y: 2 },
        }
    }

    /// Cell on which this player's tail is placed when the snake is spawned:
    /// the one right below the head.
    pub open spec fn spec_start_tail(self) -> Position {
        match self {
            PlayerId::P1 => Position { x: 4, y: 3 },
            PlayerId::P2 => Position { x: 2, y: 1 },
        }
    }

    /// The other player.
    #[verifier::when_used_as_spec(spec_other)]
    pub fn other(self) -> (r: PlayerId)
        ensures
            r == self.spec_other(),
    {
        match self {
            PlayerId::P1 => PlayerId::P2,
            PlayerId::P2 => PlayerId::P1,
        }
    }

    /// Cell on which this player's head is placed when the snake is spawned.
    #[verifier::when_used_as_spec(spec_start_head)]
    pub fn start_head(self) -> (r: Position)
        ensures
            r == self.spec_start_head(),
    {
        match self {
            PlayerId::P1 => Position { x: 4, y: 4 },
            PlayerId::P2 => Position { x: 2, y: 2 },
        }
    }

    /// Cell on which this player's tail is placed when the snake is spawned.
    #[verifier::when_used_as_spec(spec_start_tail)]
    pub fn start_tail(self) -> (r: Position)
        ensures
            r == self.spec_start_tail(),
    {
        match self {
            PlayerId::P1 => Position { x: 4, y: 3 },
            PlayerId::P2 => Position { x: 2, y: 1 },
        }
    }
}

} // verus!
