//! Game configuration constants.
use vstd::prelude::*;

verus! {

/// Number of columns in the playfield grid.
pub const GRID_WIDTH: i32 = 60;

/// Number of rows in the playfield grid.
pub const GRID_HEIGHT: i32 = 60;

/// Horizontal grid coordinate of the spawn centre (column index): half of `GRID_WIDTH`.
pub const GRID_CENTRE_X: i32 = 30;

/// Vertical grid coordinate of the spawn centre (row index): half of `GRID_HEIGHT`.
pub const GRID_CENTRE_Y: i32 = 30;

/// Number of cells of the playfield.
pub const GRID_CELLS: usize = 3600;

/// Initial move interval in milliseconds.
pub const SPEED_INITIAL_MS: u64 = 150;

/// Fastest allowed move interval in milliseconds (speed floor).
pub const SPEED_MIN_MS: u64 = 70;

/// Milliseconds to shave off the move interval for each food eaten.
pub const SPEED_DECREMENT_PER_FOOD: u64 = 4;

/// Grid width as `u16`, for terminal coordinate arithmetic.
pub const GRID_WIDTH_U16: u16 = 60;

/// Grid height as `u16`, for terminal coordinate arithmetic.
pub const GRID_HEIGHT_U16: u16 = 60;

} // verus!
