use vstd::prelude::*;

verus! {

// All world quantities are fixed-point integers: 1000 units per pixel,
// per second, per hit point, and so on. Times are in milliseconds.
pub const MILLI: i64 = 1000;

// Board geometry, in milli-pixels. Each board is a 10 x 10 grid of
// 60-pixel cells; the strip between the boards belongs to neither.
pub const CELL_SIZE: i64 = 60_000;
pub const GRID_CELLS: u32 = 10;
pub const LEFT_BOARD_END: i64 = 600_000;
pub const RIGHT_BOARD_START: i64 = 800_000;
pub const RIGHT_BOARD_END: i64 = 1_400_000;
pub const TOTAL_HEIGHT: i64 = 600_000;
pub const ENEMY_SPAWN_Y: i64 = 30_000;
pub const BOARD_CENTER_X: i64 = 300_000;

// Movement, in milli-pixels per second; times in milliseconds.
pub const SPEED: i64 = 80_000;
pub const WORKER_SPEED: i64 = 50_000;
pub const TICK_MS: i64 = 33;
pub const MINING_TIME_MS: i64 = 10_000;
pub const BUILD_PHASE_MS: i64 = 30_000;

// Economy, in whole gold.
pub const STARTING_GOLD: u32 = 100;
pub const WAVE_CLEAR_BONUS: u32 = 50;
pub const WORKER_COST: u32 = 50;
pub const WORKER_DEPOSIT: u32 = 1;

// Caps that keep the fixed-point arithmetic inside i64. A coordinate is
// at most a million pixels from the origin, radii fit on a board, and a
// single tick advances time by at most ten seconds.
pub const MAX_COORD: i64 = 1_000_000_000;
pub const MAX_STAT: i64 = 1_000_000_000;
pub const MAX_RADIUS: i64 = 300_000;
pub const MAX_TIMER: i64 = 1_000_000_000_000;
pub const MAX_DT: i64 = 10_000;
pub const MAX_ENTITIES: usize = 1_000_000;

} // verus!
