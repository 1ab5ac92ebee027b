//! The spawner: from a grid to the list of things to put into the world.
//!
//! World coordinates are fixed-point numbers that count half world units, so
//! that the centre of a cell, which lies half a cell from its edges, is
//! exact. `x` grows to the right of the grid and `y` towards its top row.

use crate::config::{LevelConfig, COLUMN_HIGHT};
use crate::grid::{CellType, Door, DoorType, Grid};
use crate::random::gen_range;
use rand::rngs::StdRng;
use vstd::prelude::*;

verus! {

/// The largest distance from the origin, along each axis and in half world
/// units, at which a level can be placed.
pub const WORLD_LIMIT: i64 = 0x1000_0000_0000_0000;

/// A point of the world, in half world units.
#[derive(Debug, Clone, Copy, PartialEq, Eq, Structural)]
pub struct WorldPoint {
    pub x: i64,
    pub y: i64,
    pub z: i64,
}

impl WorldPoint {
    /// The point lies within `WORLD_LIMIT` of the origin along each axis.
    pub open spec fn within_limit(self) -> bool {
        &&& -WORLD_LIMIT <= self.x <= WORLD_LIMIT
        &&& -WORLD_LIMIT <= self.y <= WORLD_LIMIT
        &&& -WORLD_LIMIT <= self.z <= WORLD_LIMIT
    }

    /// Whether the point lies within `WORLD_LIMIT` of the origin along each
    /// axis.
    pub fn is_within_limit(&self) -> (within: bool)
        ensures
            within == self.within_limit(),
    {
        -WORLD_LIMIT <= self.x && self.x <= WORLD_LIMIT && -WORLD_LIMIT <= self.y && self.y
            <= WORLD_LIMIT && -WORLD_LIMIT <= self.z && self.z <= WORLD_LIMIT
    }
}

/// A thing that the spawner asks to be put into the world.
#[derive(Debug, Clone, Copy, PartialEq, Eq, Structural)]
pub enum Spawn {
    /// A column, one cell wide.
    Column,
    /// A door.
    Door(Door),
    /// A weapon to pick up.
    Weapon,
    /// An enemy.
    Enemy,
    /// The player.
    Player,
    /// The floor under the whole level.
    Floor,
}

/// A thing to put into the world, and where.
#[derive(Debug, Clone, Copy, PartialEq, Eq, Structural)]
pub struct Placement {
    pub spawn: Spawn,
    pub position: WorldPoint,
}

/// The side of a level in half world units.
pub open spec fn level_span(config: LevelConfig) -> int {
    2 * config.grid_size * config.column_size
}

/// Where the next level lies: one level further in the direction of the door
/// through which the previous one was left, and where the previous one lies
/// if no level was left.
pub open spec fn spec_next_translation(
    config: LevelConfig,
    translation: WorldPoint,
    previous: Option<Door>,
) -> WorldPoint {
    match previous {
        Some(door) => match door.door_type {
            DoorType::Top => WorldPoint {
                y: (translation.y + level_span(config)) as i64,
                ..translation
            },
            DoorType::Bottom => WorldPoint {
                y: (translation.y - level_span(config)) as i64,
                ..translation
            },
            DoorType::Left => WorldPoint {
                x: (translation.x - level_span(config)) as i64,
                ..translation
            },
            DoorType::Right => WorldPoint {
                x: (translation.x + level_span(config)) as i64,
                ..translation
            },
        },
        None => translation,
    }
}

/// The centre of cell `(y, x)` of a level that lies at `origin`, at half the
/// height of a column: the grid is centred on the origin, its top row
/// furthest along `y` and its left column furthest against `x`.
pub open spec fn spec_cell_position(config: LevelConfig, origin: WorldPoint, y: int, x: int)
    -> WorldPoint {
    let half_cell = config.column_size as int;
    let half_level = config.grid_size * config.column_size;
    WorldPoint {
        x: (origin.x - half_level + 2 * half_cell * x + half_cell) as i64,
        y: (origin.y + half_level - 2 * half_cell * y - half_cell) as i64,
        z: (origin.z + COLUMN_HIGHT) as i64,
    }
}

/// What is put into the world for a cell; nothing for an empty one.
pub open spec fn spec_cell_spawn(cell: CellType) -> Option<Spawn> {
    match cell {
        CellType::Empty => None,
        CellType::Door(door) => Some(Spawn::Door(door)),
        CellType::Column => Some(Spawn::Column),
        CellType::Weapon => Some(Spawn::Weapon),
        CellType::Enemy => Some(Spawn::Enemy),
        CellType::Player => Some(Spawn::Player),
    }
}

/// The placements for the first `x1` cells of row `y`, from left to right.
pub open spec fn row_placements(
    config: LevelConfig,
    g: Seq<Seq<CellType>>,
    origin: WorldPoint,
    y: int,
    x1: int,
) -> Seq<Placement>
    decreases x1,
{
    if x1 <= 0 {
        Seq::empty()
    } else {
        let before = row_placements(config, g, origin, y, x1 - 1);
        match spec_cell_spawn(g[y][x1 - 1]) {
            Some(spawn) => before.push(
                Placement { spawn, position: spec_cell_position(config, origin, y, x1 - 1) },
            ),
            None => before,
        }
    }
}

/// The placements for the first `y1` rows of the grid, from top to bottom.
pub open spec fn rows_placements(
    config: LevelConfig,
    g: Seq<Seq<CellType>>,
    origin: WorldPoint,
    y1: int,
) -> Seq<Placement>
    decreases y1,
{
    if y1 <= 0 {
        Seq::empty()
    } else {
        rows_placements(config, g, origin, y1 - 1) + row_placements(
            config,
            g,
            origin,
            y1 - 1,
            g.len() as int,
        )
    }
}

/// All placements of a level that lies at `origin`: one for each cell that is
/// not empty, row by row, and the floor, at the origin, last.
pub open spec fn level_placements(config: LevelConfig, g: Seq<Seq<CellType>>, origin: WorldPoint)
    -> Seq<Placement> {
    rows_placements(config, g, origin, g.len() as int).push(
        Placement { spawn: Spawn::Floor, position: origin },
    )
}

/// The side of a level in world units stays far below `WORLD_LIMIT`.
pub proof fn lemma_level_span_bound(config: LevelConfig)
    requires
        config.wf(),
    ensures
        0 <= config.grid_size * config.column_size <= 0x1000_0000_0000,
        level_span(config) == 2 * (config.grid_size * config.column_size),
{
    assert(0 <= config.grid_size * config.column_size <= 4096 * 0x1_0000_0000) by (nonlinear_arith)
        requires
            0 <= config.grid_size <= 4096,
            0 <= config.column_size < 0x1_0000_0000,
    ;
    assert(2 * config.grid_size * config.column_size == 2 * (config.grid_size
        * config.column_size)) by (nonlinear_arith);
}

/// Where the next level lies, given the door through which the previous one
/// was left.
pub fn next_translation(config: &LevelConfig, translation: WorldPoint, previus_door: Option<Door>)
    -> (next: WorldPoint)
    requires
        config.wf(),
        translation.within_limit(),
    ensures
        next == spec_next_translation(*config, translation, previus_door),
        next.x == translation.x || next.x == translation.x + level_span(*config) || next.x
            == translation.x - level_span(*config),
        next.y == translation.y || next.y == translation.y + level_span(*config) || next.y
            == translation.y - level_span(*config),
        next.z == translation.z,
{
    proof {
        lemma_level_span_bound(*config);
    }
    let level_size: i64 = (config.grid_size as i64) * (config.column_size as i64);
    let span: i64 = 2 * level_size;
    match previus_door {
        Some(door) => match door.door_type {
            DoorType::Top => WorldPoint {
                x: translation.x,
                y: translation.y + span,
                z: translation.z,
            },
            DoorType::Bottom => WorldPoint {
                x: translation.x,
                y: translation.y - span,
                z: translation.z,
            },
            DoorType::Left => WorldPoint {
                x: translation.x - span,
                y: translation.y,
                z: translation.z,
            },
            DoorType::Right => WorldPoint {
                x: translation.x + span,
                y: translation.y,
                z: translation.z,
            },
        },
        None => translation,
    }
}

/// A level can be placed at `origin`: each cell's centre can be told in half
/// world units.
pub open spec fn placeable(config: LevelConfig, origin: WorldPoint) -> bool {
    &&& -WORLD_LIMIT - level_span(config) <= origin.x <= WORLD_LIMIT + level_span(config)
    &&& -WORLD_LIMIT - level_span(config) <= origin.y <= WORLD_LIMIT + level_span(config)
    &&& -WORLD_LIMIT <= origin.z <= WORLD_LIMIT
}

/// The centre of cell `(y, x)` of a level that lies at `origin`.
pub fn cell_position(config: &LevelConfig, origin: WorldPoint, y: usize, x: usize) -> (position:
    WorldPoint)
    requires
        config.wf(),
        placeable(*config, origin),
        y < config.grid_size,
        x < config.grid_size,
    ensures
        position == spec_cell_position(*config, origin, y as int, x as int),
        position.x == origin.x - config.grid_size * config.column_size + 2 * config.column_size * x
            + config.column_size,
        position.y == origin.y + config.grid_size * config.column_size - 2 * config.column_size * y
            - config.column_size,
        position.z == origin.z + COLUMN_HIGHT,
{
    proof {
        lemma_level_span_bound(*config);
        lemma_cell_offset_bound(*config, y as int);
        lemma_cell_offset_bound(*config, x as int);
    }
    let half_cell: i64 = config.column_size as i64;
    let half_level: i64 = (config.grid_size as i64) * half_cell;
    let across: i64 = 2 * half_cell * (x as i64);
    let down: i64 = 2 * half_cell * (y as i64);
    WorldPoint {
        x: origin.x - half_level + across + half_cell,
        y: origin.y + half_level - down - half_cell,
        z: origin.z + COLUMN_HIGHT as i64,
    }
}

/// The way from the edge of the level to the centre of a cell of index `i`
/// is no longer than the level is wide.
proof fn lemma_cell_offset_bound(config: LevelConfig, i: int)
    requires
        config.wf(),
        0 <= i < config.grid_size,
    ensures
        0 <= 2 * config.column_size * i,
        2 * config.column_size * i + config.column_size <= 2 * (config.grid_size
            * config.column_size),
{
    assert(0 <= 2 * config.column_size * i && 2 * config.column_size * i + 2 * config.column_size
        <= 2 * (config.grid_size * config.column_size)) by (nonlinear_arith)
        requires
            0 <= i < config.grid_size,
            0 <= config.column_size,
    ;
}

/// What is put into the world for a cell; nothing for an empty one.
pub fn cell_spawn(cell: CellType) -> (spawn: Option<Spawn>)
    ensures
        spawn == spec_cell_spawn(cell),
{
    match cell {
        CellType::Empty => None,
        CellType::Door(door) => Some(Spawn::Door(door)),
        CellType::Column => Some(Spawn::Column),
        CellType::Weapon => Some(Spawn::Weapon),
        CellType::Enemy => Some(Spawn::Enemy),
        CellType::Player => Some(Spawn::Player),
    }
}

/// Walks the grid row by row and lists what is to be put into the world for
/// a level entered after leaving through `previus_door`, where the level left
/// lies at `level_translation`. Returns the list, and where the new level
/// lies.
///
/// The new level lies one level further in the direction of the exit. Each
/// cell that is not empty gets one placement, at its centre; the floor, at
/// the centre of the level, comes last.
pub fn spawn_level(
    config: &LevelConfig,
    grid: &Grid,
    level_translation: WorldPoint,
    previus_door: Option<Door>,
) -> (spawned: (Vec<Placement>, WorldPoint))
    requires
        config.wf(),
        grid.wf(),
        grid.spec_size() == config.grid_size,
        level_translation.within_limit(),
    ensures
        spawned.1 == spec_next_translation(*config, level_translation, previus_door),
        spawned.0@ == level_placements(*config, grid@, spawned.1),
{
    let n = grid.size();
    let origin = next_translation(config, level_translation, previus_door);
    let mut placements: Vec<Placement> = Vec::new();
    let mut y: usize = 0;
    while y < n
        invariant
            config.wf(),
            grid.wf(),
            n == grid.spec_size(),
            n == config.grid_size,
            placeable(*config, origin),
            y <= n,
            placements@ == rows_placements(*config, grid@, origin, y as int),
        decreases n - y,
    {
        let ghost rows = placements@;
        let mut x: usize = 0;
        while x < n
            invariant
                config.wf(),
                grid.wf(),
                n == grid.spec_size(),
                n == config.grid_size,
                placeable(*config, origin),
                y < n,
                x <= n,
                placements@ == rows + row_placements(*config, grid@, origin, y as int, x as int),
            decreases n - x,
        {
            let ghost before = row_placements(*config, grid@, origin, y as int, x as int);
            match cell_spawn(grid.get(y, x)) {
                Some(spawn) => {
                    let position = cell_position(config, origin, y, x);
                    placements.push(Placement { spawn, position });
                    assert(placements@ == rows + before.push(Placement { spawn, position }));
                },
                None => {},
            }
            x += 1;
        }
        y += 1;
    }
    placements.push(Placement { spawn: Spawn::Floor, position: origin });
    (placements, origin)
}

/// The colour of a level's sunlight.
#[derive(Debug, Clone, Copy, PartialEq, Eq, Structural)]
pub enum LightColor {
    White,
    Blue,
    OrangeRed,
}

/// How many colours the sunlight can have.
pub const LIGHT_COLORS: usize = 3;

/// The colour with the given index.
pub open spec fn spec_light_color(index: usize) -> LightColor {
    if index == 0 {
        LightColor::White
    } else if index == 1 {
        LightColor::Blue
    } else {
        LightColor::OrangeRed
    }
}

/// The colour with the given index, which must be below `LIGHT_COLORS`.
pub fn light_color(index: usize) -> (color: LightColor)
    requires
        index < LIGHT_COLORS,
    ensures
        color == spec_light_color(index),
{
    if index == 0 {
        LightColor::White
    } else if index == 1 {
        LightColor::Blue
    } else {
        LightColor::OrangeRed
    }
}

/// Draws the colour of a level's sunlight.
pub fn spawn_level_sun(rng: &mut StdRng) -> (color: LightColor)
    ensures
        exists|index: usize| index < LIGHT_COLORS && color == #[trigger] spec_light_color(index),
{
    let index = gen_range(rng, 0, LIGHT_COLORS);
    light_color(index)
}

} // verus!
