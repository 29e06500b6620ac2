//! The static walkability grid and the rule that turns a candidate world
//! position into an accepted spawn position: the tile under it must exist
//! and be passable, and anything out of range fails closed.

use vstd::prelude::*;

use crate::geometry::{Vec2, COORD_BOUND};

verus! {

/// Width and height of one tile in world units.
pub const TILE_SIZE: i64 = 32;

/// Read-only walkability grid: `tile_matrix[tile_y][tile_x]` is true where
/// an entity may stand.
pub struct PassableTiles {
    pub tile_matrix: Vec<Vec<bool>>,
}

impl PassableTiles {
    /// Whether tile `(tile_x, tile_y)` exists in the grid and is passable.
    pub open spec fn passable_spec(&self, tile_x: int, tile_y: int) -> bool {
        &&& 0 <= tile_y < self.tile_matrix@.len()
        &&& 0 <= tile_x < self.tile_matrix@[tile_y]@.len()
        &&& self.tile_matrix@[tile_y]@[tile_x]
    }

    /// Look a tile up, treating a missing row or column as not passable.
    pub fn passable(&self, tile_x: usize, tile_y: usize) -> (b: bool)
        ensures
            b == self.passable_spec(tile_x as int, tile_y as int),
    {
        if tile_y < self.tile_matrix.len() {
            let row = &self.tile_matrix[tile_y];
            if tile_x < row.len() {
                return row[tile_x];
            }
        }
        false
    }
}

/// Whether a candidate spawn position is accepted: it must not be on the
/// negative side of either axis (a negative coordinate has no tile), must
/// not lie beyond the world region, and the tile under it must be
/// passable.
pub open spec fn candidate_ok(grid: &PassableTiles, pos: Vec2) -> bool {
    &&& 0 <= pos.x <= COORD_BOUND
    &&& 0 <= pos.y <= COORD_BOUND
    &&& grid.passable_spec(pos.x as int / TILE_SIZE as int, pos.y as int / TILE_SIZE as int)
}

/// Decide whether a candidate position is an accepted spawn position.
pub fn check_candidate(grid: &PassableTiles, pos: Vec2) -> (b: bool)
    requires
        -2 * COORD_BOUND <= pos.x <= 2 * COORD_BOUND,
        -2 * COORD_BOUND <= pos.y <= 2 * COORD_BOUND,
    ensures
        b == candidate_ok(grid, pos),
{
    if pos.x < 0 || pos.y < 0 || pos.x > COORD_BOUND || pos.y > COORD_BOUND {
        return false;
    }
    let tile_x = (pos.x as u64 / TILE_SIZE as u64) as usize;
    let tile_y = (pos.y as u64 / TILE_SIZE as u64) as usize;
    grid.passable(tile_x, tile_y)
}

} // verus!
