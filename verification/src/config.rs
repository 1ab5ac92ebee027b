//! The parameters of level generation.

use vstd::prelude::*;

verus! {

/// Side of a level in world units.
pub const LEVEL_SIZE: u32 = 200;

/// Side of one grid cell, and of a column, in world units.
pub const COLUMN_SIZE: u32 = 5;

/// Height of a column in world units.
pub const COLUMN_HIGHT: u32 = 10;

/// Cells along one side of the grid: `LEVEL_SIZE / COLUMN_SIZE`.
pub const GRID_SIZE: usize = 40;

/// Share of the grid, in percent, that the column strips are meant to fill.
pub const FILL_PERCENT: u32 = 2;

/// Steps of the random walk that lays one strip of columns.
pub const STRIP_LENGTH: u32 = 3;

/// Weapon pickups per level.
pub const LEVEL_WEAPON_SPAWNS: u32 = 4;

/// Enemies per level.
pub const LEVEL_ENEMIES: u32 = 1;

/// The largest grid side a configuration may ask for.
pub const MAX_GRID_SIZE: usize = 4096;

/// Parameters of level generation.
#[derive(Debug, Clone, Copy, PartialEq, Eq, Structural)]
pub struct LevelConfig {
    /// Cells along one side of the grid.
    pub grid_size: usize,
    /// Side of one cell in world units.
    pub column_size: u32,
    /// Share of the grid, in percent, that the column strips are meant to fill.
    pub fill_percent: u32,
    /// Steps of the random walk that lays one strip of columns.
    pub strip_length: u32,
    /// Weapon pickups per level.
    pub weapon_spawns: u32,
    /// Enemies per level.
    pub enemies: u32,
}

impl LevelConfig {
    /// The configurations for which levels can be generated: the grid has an
    /// interior, a cell has a size, so that levels lie side by side and not
    /// on top of each other, the percentages are percentages, and a strip has
    /// a length to divide by.
    pub open spec fn wf(&self) -> bool {
        &&& 5 <= self.grid_size <= MAX_GRID_SIZE
        &&& 1 <= self.column_size
        &&& self.fill_percent <= 100
        &&& 1 <= self.strip_length
    }

    /// Cells that the strips are meant to fill: the share `fill_percent` of
    /// the grid, rounded down.
    pub open spec fn spec_fill_cells(&self) -> nat {
        (self.grid_size * self.grid_size * self.fill_percent / 100) as nat
    }

    /// Strips of columns laid per level.
    pub open spec fn spec_num_strips(&self) -> nat {
        self.spec_fill_cells() / (self.strip_length as nat)
    }

    /// The most cells that the strips can turn into columns: each strip has a
    /// seed cell and `strip_length` steps.
    pub open spec fn max_columns(&self) -> nat {
        self.spec_num_strips() * (self.strip_length + 1) as nat
    }

    /// Cells of the interior, in which columns, weapons and enemies stand.
    pub open spec fn interior_cells(&self) -> nat {
        ((self.grid_size - 4) * (self.grid_size - 4)) as nat
    }

    /// The interior keeps room for every weapon and enemy, whatever the
    /// random draws: the strips, and the cells they trap, leave enough cells
    /// empty.
    pub open spec fn spec_has_room(&self) -> bool {
        2 * self.max_columns() + self.weapon_spawns + self.enemies <= self.interior_cells()
    }

    /// Whether levels can be generated for this configuration.
    pub fn is_wf(&self) -> (valid: bool)
        ensures
            valid == self.wf(),
    {
        5 <= self.grid_size && self.grid_size <= MAX_GRID_SIZE && 1 <= self.column_size
            && self.fill_percent <= 100 && 1 <= self.strip_length
    }

    /// Strips of columns laid per level.
    pub fn num_strips(&self) -> (strips: u64)
        requires
            self.wf(),
        ensures
            strips == self.spec_num_strips(),
    {
        let n: u64 = self.grid_size as u64;
        assert(n * n <= 4096 * 4096) by (nonlinear_arith)
            requires
                n <= 4096,
        ;
        let cells: u64 = n * n;
        assert(cells * self.fill_percent <= 4096 * 4096 * 100) by (nonlinear_arith)
            requires
                cells <= 4096 * 4096,
                self.fill_percent <= 100,
        ;
        let fill_cells: u64 = cells * (self.fill_percent as u64) / 100;
        fill_cells / (self.strip_length as u64)
    }

    /// Whether the interior keeps room for every weapon and enemy, whatever
    /// the random draws.
    pub fn has_room(&self) -> (room: bool)
        requires
            self.wf(),
        ensures
            room == self.spec_has_room(),
    {
        let strips: u64 = self.num_strips();
        let side: u64 = (self.grid_size - 4) as u64;
        assert(strips <= 4096 * 4096) by (nonlinear_arith)
            requires
                strips == (self.grid_size * self.grid_size * self.fill_percent / 100) as nat / (
                self.strip_length as nat),
                self.grid_size <= 4096,
                self.fill_percent <= 100,
                1 <= self.strip_length,
        ;
        assert(side * side <= 4096 * 4096) by (nonlinear_arith)
            requires
                side <= 4096,
        ;
        let per_strip: u64 = self.strip_length as u64 + 1;
        assert(strips * per_strip <= 4096 * 4096 * 0x1_0000_0000) by (nonlinear_arith)
            requires
                strips <= 4096 * 4096,
                per_strip <= 0x1_0000_0000,
        ;
        let demand: u64 = 2 * (strips * per_strip) + self.weapon_spawns as u64
            + self.enemies as u64;
        demand <= side * side
    }
}

impl Default for LevelConfig {
    /// The configuration of the game: a grid of `GRID_SIZE` cells a side with
    /// the game's fill, strip length and spawn counts.
    fn default() -> (config: LevelConfig)
        ensures
            config.wf(),
            config.spec_has_room(),
            config.grid_size == GRID_SIZE,
            config.column_size == COLUMN_SIZE,
            config.fill_percent == FILL_PERCENT,
            config.strip_length == STRIP_LENGTH,
            config.weapon_spawns == LEVEL_WEAPON_SPAWNS,
            config.enemies == LEVEL_ENEMIES,
    {
        LevelConfig {
            grid_size: GRID_SIZE,
            column_size: COLUMN_SIZE,
            fill_percent: FILL_PERCENT,
            strip_length: STRIP_LENGTH,
            weapon_spawns: LEVEL_WEAPON_SPAWNS,
            enemies: LEVEL_ENEMIES,
        }
    }
}

} // verus!
