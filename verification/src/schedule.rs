//! Labels for the systems of each snake's chain.
//!
//! A label names one system of one snake. Within a tick the systems of a
//! chain run in the order of the variants: the latch first, then movement,
//! eating and growth.

use vstd::prelude::*;
use crate::grid::PlayerId;
use crate::input::KeyState;
use crate::model::GameState;
use crate::world::World;

verus! {

/// The systems of the first player's chain.
#[derive(Debug, Hash, PartialEq, Eq, Clone, Copy)]
pub enum Snake1Movement {
    Input,
    Movement,
    Eating,
    Growth,
}

/// The systems of the second player's chain.
#[derive(Debug, Hash, PartialEq, Eq, Clone, Copy)]
pub enum Snake2Movement {
    Input,
    Movement,
    Eating,
    Growth,
}

impl Snake1Movement {
    /// The board that the labelled system leaves.
    pub open spec fn applied(self, board: GameState, keys: KeyState) -> GameState {
        match self {
            Snake1Movement::Input => board.latch(PlayerId::P1, keys),
            Snake1Movement::Movement => board.movement(PlayerId::P1),
            Snake1Movement::Eating => board.eating(PlayerId::P1),
            Snake1Movement::Growth => board.growth(PlayerId::P1),
        }
    }

    /// Runs the labelled system on `world`. Only the latch looks at `keys`.
    pub fn run(&self, world: &mut World, keys: KeyState)
        requires
            old(world).wf(),
            *self is Movement ==> old(world)@.snake(PlayerId::P1).can_move(),
        ensures
            final(world).wf(),
            final(world)@ == self.applied(old(world)@, keys),
            final(world).segment_ids(PlayerId::P2) == old(world).segment_ids(PlayerId::P2),
    {
        match self {
            Snake1Movement::Input => world.movement_input(PlayerId::P1, keys),
            Snake1Movement::Movement => world.movement(PlayerId::P1),
            Snake1Movement::Eating => world.eating(PlayerId::P1),
            Snake1Movement::Growth => world.growth(PlayerId::P1),
        }
    }
}

impl Snake2Movement {
    /// The board that the labelled system leaves.
    pub open spec fn applied(self, board: GameState, keys: KeyState) -> GameState {
        match self {
            Snake2Movement::Input => board.latch(PlayerId::P2, keys),
            Snake2Movement::Movement => board.movement(PlayerId::P2),
            Snake2Movement::Eating => board.eating(PlayerId::P2),
            Snake2Movement::Growth => board.growth(PlayerId::P2),
        }
    }

    /// Runs the labelled system on `world`. Only the latch looks at `keys`.
    pub fn run(&self, world: &mut World, keys: KeyState)
        requires
            old(world).wf(),
            *self is Movement ==> old(world)@.snake(PlayerId::P2).can_move(),
        ensures
            final(world).wf(),
            final(world)@ == self.applied(old(world)@, keys),
            final(world).segment_ids(PlayerId::P1) == old(world).segment_ids(PlayerId::P1),
    {
        match self {
            Snake2Movement::Input => world.movement_input(PlayerId::P2, keys),
            Snake2Movement::Movement => world.movement(PlayerId::P2),
            Snake2Movement::Eating => world.eating(PlayerId::P2),
            Snake2Movement::Growth => world.growth(PlayerId::P2),
        }
    }
}

} // verus!
