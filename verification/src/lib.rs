//! A two-player snake simulation on a small square grid.
//!
//! The crate holds the tick-driven engine only: the grid, the input latch,
//! movement, eating, growth, food placement and respawn. Windowing, drawing
//! and timers are left to the program that embeds it.
//!
//! [`model`] says what each system does to a board, as mathematics;
//! [`laws`] proves what follows; [`world`] is the executable world, held to
//! the model by its contracts.

pub mod entity;
pub mod grid;
pub mod input;
pub mod laws;
pub mod model;
pub mod random;
pub mod schedule;
pub mod world;

pub use crate::entity::{Entity, GameOverEvent, GrowthEvent, Role};
pub use crate::grid::{
    Direction, PlayerId, Position, ARENA_HEIGHT, ARENA_WIDTH, FOOD_PERIOD_MS, TICK_PERIOD_MS,
};
pub use crate::input::{latch, KeyState, Keyboard};
pub use crate::random::{cell_of_draws, coordinate_of_draw};
pub use crate::schedule::{Snake1Movement, Snake2Movement};
pub use crate::world::{holds_cell, leaves_with, World};
