use vstd::prelude::*;

verus! {

/// Number of rows of the playing field.
pub const BOARD_BRICK_NODE_ROWS: usize = 20;

/// Number of columns of the playing field.
pub const BOARD_BRICK_NODE_COLS: usize = 10;

/// Number of cells of the playing field.
pub const BOARD_BRICK_NODE_TOTAL: usize = 200;

/// Number of brick kinds in the catalog.
pub const BRICK_KINDS: usize = 7;

/// Column of the anchor of a freshly spawned brick.
pub const SPAWN_COL: i8 = 5;

/// Row of the anchor of a freshly spawned brick; it lies above the visible field.
pub const SPAWN_ROW: i8 = 23;

/// Highest level.
pub const MAX_LEVEL: u32 = 99;

/// Removed rows per level.
pub const LINES_PER_LEVEL: u32 = 10;

/// Most rows that one scored removal can hold.
pub const MAX_ERASE_LINES: u32 = 4;

/// Length of the flashing phase before full rows are removed, in nanoseconds.
pub const ERASE_ANIMATION_NANOS: u64 = 2_000_000_000;

/// Time between two fall ticks at the start of a game, in nanoseconds.
pub const TIMER_FALLING_NANOS: u64 = 725_000_000;

/// Time between two fall ticks while the brick falls fast: a sixtieth of a second.
pub const TIMER_FALLING_SPEED_UP_NANOS: u64 = 16_666_667;

/// Time between two flashes of an erase sequence, in nanoseconds.
pub const TIMER_ERASE_FLASH_NANOS: u64 = 500_000_000;

} // verus!
