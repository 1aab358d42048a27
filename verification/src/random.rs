//! Uniform draws, and the cells they select.

use vstd::prelude::*;
use crate::grid::{Position, ARENA_HEIGHT, ARENA_WIDTH};
use crate::laws::lemma_draw_coordinate_bounds;
use crate::model::{draw_cell, draw_coordinate};

verus! {

/// Draws 32 bits from the calling thread's generator, by `rand::random`.
/// Each bit pattern is as likely as any other. Nothing is claimed of the
/// value: two calls need not agree.
#[verifier::external_body]
pub(crate) fn random_draw() -> (draw: u32) {
    rand::random::<u32>()
}

/// The coordinate that `draw` selects along an axis of `extent` cells: the
/// fraction `draw / 2^32` of the extent, rounded down.
pub fn coordinate_of_draw(draw: u32, extent: u32) -> (c: u32)
    ensures
        c == draw_coordinate(draw, extent),
        extent > 0 ==> c < extent,
        extent == 0 ==> c == 0,
{
    proof {
        if extent > 0 {
            lemma_draw_coordinate_bounds(draw, extent);
        }
        assert(draw as int * extent as int <= 0xffff_ffff * 0xffff_ffff) by (nonlinear_arith)
            requires
                0 <= draw as int <= 0xffff_ffff,
                0 <= extent as int <= 0xffff_ffff,
        ;
    }
    let wide: u64 = (draw as u64) * (extent as u64);
    (wide / 0x1_0000_0000u64) as u32
}

/// The cell of the arena that a pair of draws selects.
pub fn cell_of_draws(draw_x: u32, draw_y: u32) -> (cell: Position)
    ensures
        cell == draw_cell(draw_x, draw_y),
        cell.in_arena(),
{
    let x: u32 = coordinate_of_draw(draw_x, ARENA_WIDTH);
    let y: u32 = coordinate_of_draw(draw_y, ARENA_HEIGHT);
    Position { x: x as i32, y: y as i32 }
}

} // verus!
