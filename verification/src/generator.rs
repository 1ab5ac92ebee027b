//! The level generator: from the door through which the previous level was
//! left, if there was one, to the grid of the next level.

use crate::census::{count_interior, count_kind, holds, holds_door};
use crate::config::LevelConfig;
use crate::count::{
    count_rect, lemma_count_rect_bounds, lemma_count_rect_eq, lemma_count_rect_one,
    lemma_count_rect_sum,
};
use crate::doors::{border_cell, choose_doors, door_for, place_doors, LevelDoors};
use crate::grid::{
    door_cell, in_grid, in_interior, on_border, square, CellType, Door, DoorState, DoorType, Grid,
    GridPos,
};
use crate::random::gen_range;
use crate::spawns::{interior_full, lemma_full_interior_count, place_spawns};
use crate::tutorial::{make_tutorial_level, sole_player};
use crate::walls::{
    generate_walls, is_strip, lemma_trapped_counts, no_trapped, on_strips, remove_trapped_cells,
    stamp_border, trapped, untrapped_cell, walled_in,
};
use rand::rngs::StdRng;
use vstd::prelude::*;

verus! {

/// `door` can be the door of side `side` in a level of side `n` entered
/// after leaving through `previous`: it is the entry door that continuity
/// fixes, or it is locked, with an index two cells away from either end of
/// its side.
pub open spec fn door_fits(n: int, previous: Option<Door>, side: DoorType, door: Door) -> bool {
    &&& door == door_for(previous, side, door.grid_pos)
    &&& door.door_state == DoorState::Locked ==> 2 <= door.grid_pos < n - 2
}

/// `doors` can be the doors of a level of side `n` entered after leaving
/// through `previous`.
pub open spec fn doors_fit(n: int, previous: Option<Door>, doors: LevelDoors) -> bool {
    &&& door_fits(n, previous, DoorType::Top, doors.top)
    &&& door_fits(n, previous, DoorType::Bottom, doors.bottom)
    &&& door_fits(n, previous, DoorType::Left, doors.left)
    &&& door_fits(n, previous, DoorType::Right, doors.right)
}

/// `(y, x)` lies between the outer ring and the interior: in the band, one
/// cell wide, that generation keeps free.
pub open spec fn in_margin(n: int, y: int, x: int) -> bool {
    in_grid(n, y, x) && !on_border(n, y, x) && !in_interior(n, y, x)
}

/// The shape of a generated level with the doors `doors`.
///
/// The outer ring is made of columns but for the doors. The band inside it is
/// empty, but for the player in a first level, who stands right below the top
/// door. The interior holds nothing but columns, weapons and enemies, and no
/// trapped cell.
pub open spec fn level_layout(
    g: Seq<Seq<CellType>>,
    n: int,
    doors: LevelDoors,
    first_level: bool,
) -> bool {
    &&& square(g, n)
    &&& forall|y: int, x: int|
        on_border(n, y, x) ==> #[trigger] g[y][x] == border_cell(n, doors, y, x)
    &&& forall|y: int, x: int|
        in_margin(n, y, x) ==> #[trigger] g[y][x] == (if first_level && y == 1 && x
            == doors.top.grid_pos {
            CellType::Player
        } else {
            CellType::Empty
        })
    &&& forall|y: int, x: int|
        in_interior(n, y, x) ==> (#[trigger] g[y][x] == CellType::Empty || g[y][x]
            == CellType::Column || g[y][x] == CellType::Weapon || g[y][x] == CellType::Enemy)
    &&& no_trapped(g, n)
}

/// The columns of the interior are those of `strips`, and the trapped cells
/// that were filled: each cell of a strip holds a column, and a column of
/// the interior that is on no strip has a column on each of its four sides.
pub open spec fn columns_from(g: Seq<Seq<CellType>>, n: int, strips: Seq<Vec<GridPos>>) -> bool {
    forall|y: int, x: int|
        in_interior(n, y, x) ==> (on_strips(strips, y, x) ==> #[trigger] g[y][x]
            == CellType::Column) && (g[y][x] == CellType::Column && !on_strips(strips, y, x)
            ==> walled_in(g, y, x))
}

/// No cell of the grid holds a weapon or an enemy.
pub open spec fn unarmed(g: Seq<Seq<CellType>>, n: int) -> bool {
    forall|y: int, x: int|
        in_grid(n, y, x) ==> #[trigger] g[y][x] != CellType::Weapon && g[y][x] != CellType::Enemy
}

/// What placing weapons and enemies makes of the grid `before`: a cell holds
/// what it held before, or it lies in the interior, was empty and holds a
/// weapon or an enemy.
pub open spec fn placed_on_empty(
    before: Seq<Seq<CellType>>,
    after: Seq<Seq<CellType>>,
    n: int,
) -> bool {
    forall|y: int, x: int|
        in_grid(n, y, x) ==> #[trigger] after[y][x] == before[y][x] || (in_interior(n, y, x)
            && before[y][x] == CellType::Empty && (after[y][x] == CellType::Weapon || after[y][x]
            == CellType::Enemy))
}

/// No weapon and no enemy of the interior has a column on each of its four
/// sides.
pub open spec fn spawns_reachable(g: Seq<Seq<CellType>>, n: int) -> bool {
    forall|y: int, x: int|
        in_interior(n, y, x) && (#[trigger] g[y][x] == CellType::Weapon || g[y][x]
            == CellType::Enemy) ==> !walled_in(g, y, x)
}

/// How many cells of one side of the grid hold a door. A side is a whole row
/// or column of the outer ring, corners included.
pub open spec fn count_doors_on(g: Seq<Seq<CellType>>, n: int, side: DoorType) -> nat {
    match side {
        DoorType::Top => count_rect(holds_door(g), 0, 1, 0, n),
        DoorType::Bottom => count_rect(holds_door(g), n - 1, n, 0, n),
        DoorType::Left => count_rect(holds_door(g), 0, n, 0, 1),
        DoorType::Right => count_rect(holds_door(g), 0, n, n - 1, n),
    }
}

/// What cell `(y, x)` of a tutorial level with the doors `doors` holds.
///
/// The outer ring is made of columns but for the doors. Inside it, the player
/// stands in row 4 below the top door; columns run two cells to its left and
/// to its right, and in row 6, each from one side of the ring to the other;
/// nothing else stands there.
pub open spec fn tutorial_level_cell(n: int, doors: LevelDoors, y: int, x: int) -> CellType {
    if on_border(n, y, x) {
        border_cell(n, doors, y, x)
    } else if x == doors.top.grid_pos - 2 || x == doors.top.grid_pos + 2 || y == 6 {
        CellType::Column
    } else if y == 4 && x == doors.top.grid_pos {
        CellType::Player
    } else {
        CellType::Empty
    }
}

/// The shape of a generated tutorial level with the doors `doors`.
pub open spec fn tutorial_layout(g: Seq<Seq<CellType>>, n: int, doors: LevelDoors) -> bool {
    &&& square(g, n)
    &&& forall|y: int, x: int|
        in_grid(n, y, x) ==> #[trigger] g[y][x] == tutorial_level_cell(n, doors, y, x)
}

/// What holds of the grid of every level generated with `config` after
/// leaving through `previous`, whatever was drawn.
///
/// - The grid has the shape of a level, or of the tutorial level, for some
///   doors that fit.
/// - No cell of the interior is trapped, and no weapon or enemy has a column
///   on each of its four sides.
/// - Unless the entry door sits in a corner, each side of the grid holds
///   exactly one door, in the tutorial level too.
/// - The entry door, on the side opposite the exit's, has the exit's index
///   and is `TemporaryOpen`.
/// - A first level holds the player once; a later level does not hold it.
/// - The tutorial level holds no weapon and no enemy.
/// - Any other level holds the weapons and enemies that the configuration
///   asks for, each on a cell of its own: all of them where the
///   configuration has room, and otherwise as many as found an empty cell, in
///   which case the interior is full. Each stands on a cell that was empty
///   before the placing began, in a grid that held no trapped cell. The
///   columns of its interior are those of as many strips as the configuration
///   asks for, and the trapped cells that were filled: at most twice
///   `max_columns`.
pub open spec fn generated_level(
    g: Seq<Seq<CellType>>,
    config: LevelConfig,
    previous: Option<Door>,
    tutorial: bool,
) -> bool {
    let n = config.grid_size as int;
    &&& exists|doors: LevelDoors|
        #![trigger doors_fit(n, previous, doors)]
        doors_fit(n, previous, doors) && (if tutorial {
            tutorial_layout(g, n, doors)
        } else {
            level_layout(g, n, doors, previous is None)
        })
    &&& no_trapped(g, n)
    &&& spawns_reachable(g, n)
    &&& (previous is Some ==> 0 < previous->0.grid_pos < n - 1) ==> forall|side: DoorType|
        #[trigger] count_doors_on(g, n, side) == 1
    &&& previous is Some ==> ({
        let entry = previous->0.door_type.spec_opposite();
        let (y, x) = door_cell(n, entry, previous->0.grid_pos as int);
        g[y][x] == CellType::Door(
            Door {
                door_type: entry,
                door_state: DoorState::TemporaryOpen,
                grid_pos: previous->0.grid_pos,
            },
        )
    })
    &&& count_kind(g, CellType::Player) == (if previous is None {
        1nat
    } else {
        0nat
    })
    &&& tutorial ==> count_kind(g, CellType::Weapon) == 0 && count_kind(g, CellType::Enemy) == 0
    &&& !tutorial ==> ({
        &&& count_kind(g, CellType::Weapon) <= config.weapon_spawns
        &&& count_kind(g, CellType::Enemy) <= config.enemies
        &&& count_kind(g, CellType::Weapon) < config.weapon_spawns ==> interior_full(g, n)
        &&& count_kind(g, CellType::Enemy) < config.enemies ==> interior_full(g, n)
        &&& config.spec_has_room() ==> count_kind(g, CellType::Weapon) == config.weapon_spawns
            && count_kind(g, CellType::Enemy) == config.enemies
        &&& count_interior(g, CellType::Column) <= 2 * config.max_columns()
        &&& exists|strips: Seq<Vec<GridPos>>|
            #![trigger columns_from(g, n, strips)]
            {
                &&& strips.len() == config.spec_num_strips()
                &&& forall|i: int|
                    0 <= i < strips.len() ==> is_strip(
                        n,
                        config.strip_length as int,
                        (#[trigger] strips[i])@,
                    )
                &&& columns_from(g, n, strips)
            }
        &&& exists|before: Seq<Seq<CellType>>|
            #![trigger placed_on_empty(before, g, n)]
            {
                &&& square(before, n)
                &&& unarmed(before, n)
                &&& no_trapped(before, n)
                &&& placed_on_empty(before, g, n)
            }
    })
}

/// Generates the grid of a level.
///
/// `previus_door` is the door through which the previous level was left,
/// `None` for the first level of a run. With `tutorial_level` the first level
/// is turned into the tutorial level.
///
/// The draws are made in a fixed order: the four door indices (top, bottom,
/// left, right), the strips of columns, the weapons, the enemies.
///
/// The exit door's index must lie on a side of the grid. A tutorial level is
/// a first level, and needs a grid of seven cells a side for the player's
/// pen.
pub fn generate_level(
    config: &LevelConfig,
    previus_door: Option<Door>,
    tutorial_level: bool,
    rng: &mut StdRng,
) -> (grid: Grid)
    requires
        config.wf(),
        previus_door is Some ==> previus_door->0.grid_pos < config.grid_size,
        tutorial_level ==> previus_door is None && config.grid_size >= 7,
    ensures
        grid.wf(),
        grid.spec_size() == config.grid_size,
        generated_level(grid@, *config, previus_door, tutorial_level),
{
    let n = config.grid_size;
    let first_level = previus_door.is_none();

    let mut grid = Grid::new(n);
    stamp_border(&mut grid);

    let top = gen_range(rng, 2, n - 2);
    let bottom = gen_range(rng, 2, n - 2);
    let left = gen_range(rng, 2, n - 2);
    let right = gen_range(rng, 2, n - 2);
    let doors = choose_doors(previus_door, top, bottom, left, right);
    assert(doors_fit(n as int, previus_door, doors));
    if first_level {
        grid.set(1, doors.top.grid_pos, CellType::Player);
    }
    place_doors(&mut grid, doors);

    let ghost framed = grid@;
    assert forall|y: int, x: int| in_grid(n as int, y, x) implies #[trigger] framed[y][x] == (
    if on_border(n as int, y, x) {
        border_cell(n as int, doors, y, x)
    } else if first_level && y == 1 && x == doors.top.grid_pos {
        CellType::Player
    } else {
        CellType::Empty
    }) by {}

    let strips = generate_walls(&mut grid, config, rng);
    let ghost walled = grid@;
    proof {
        assert forall|y: int, x: int| in_grid(n as int, y, x) implies #[trigger] walled[y][x] == (
        if in_interior(n as int, y, x) {
            walled[y][x]
        } else {
            framed[y][x]
        }) by {}
        assert forall|y: int, x: int| in_interior(n as int, y, x) implies (#[trigger] walled[y][x]
            == CellType::Empty || walled[y][x] == CellType::Column) by {
            assert(in_grid(n as int, y, x));
            assert(framed[y][x] == CellType::Empty);
        }
        lemma_all_empty_interior(framed, n as int);
        lemma_empty_or_column(walled, n as int);
    }

    remove_trapped_cells(&mut grid);
    let ghost cleared = grid@;
    proof {
        assert forall|y: int| 2 <= y < n - 2 implies (#[trigger] walled[y])[n - 2]
            != CellType::Column by {
            assert(in_grid(n as int, y, n - 2));
            assert(walled[y][n - 2] == framed[y][n - 2]);
        }
        lemma_trapped_counts(walled, cleared, n as int);
        assert forall|y: int, x: int| in_grid(n as int, y, x) implies !(#[trigger] cleared[y][x]
            == CellType::Weapon) && cleared[y][x] != CellType::Enemy by {
            assert(in_interior(n as int, y, x) ==> walled[y][x] == CellType::Empty || walled[y][x]
                == CellType::Column);
        }
        lemma_count_rect_bounds(holds(cleared, CellType::Weapon), 0, n as int, 0, n as int);
        lemma_count_rect_bounds(holds(cleared, CellType::Enemy), 0, n as int, 0, n as int);
        assert(config.interior_cells() == (n - 4) * (n - 4));
        assert(count_interior(cleared, CellType::Empty) + 2 * config.max_columns()
            >= config.interior_cells());
    }

    let weapons = place_spawns(&mut grid, CellType::Weapon, config.weapon_spawns, rng);
    let ghost armed = grid@;
    let enemies = place_spawns(&mut grid, CellType::Enemy, config.enemies, rng);
    let ghost manned = grid@;
    proof {
        lemma_count_rect_eq(
            holds(armed, CellType::Weapon),
            holds(manned, CellType::Weapon),
            0,
            n as int,
            0,
            n as int,
        );
        lemma_count_rect_eq(
            holds(cleared, CellType::Enemy),
            holds(armed, CellType::Enemy),
            0,
            n as int,
            0,
            n as int,
        );
        lemma_count_rect_eq(
            holds(cleared, CellType::Column),
            holds(armed, CellType::Column),
            2,
            n - 2,
            2,
            n - 2,
        );
        lemma_count_rect_eq(
            holds(armed, CellType::Column),
            holds(manned, CellType::Column),
            2,
            n - 2,
            2,
            n - 2,
        );
        if weapons < config.weapon_spawns {
            lemma_full_interior_count(armed);
        }
        if enemies < config.enemies {
            lemma_full_interior_count(manned);
        }
        assert forall|y: int, x: int| in_grid(n as int, y, x) implies #[trigger] manned[y][x] == (
        if in_interior(n as int, y, x) {
            manned[y][x]
        } else {
            framed[y][x]
        }) by {
            assert(armed[y][x] == cleared[y][x] || in_interior(n as int, y, x));
            assert(cleared[y][x] == walled[y][x] || in_interior(n as int, y, x));
        }
        assert forall|y: int, x: int| in_interior(n as int, y, x) implies !#[trigger] trapped(
            manned,
            y,
            x,
        ) by {
            assert(in_grid(n as int, y, x));
            assert(in_grid(n as int, y - 1, x));
            assert(in_grid(n as int, y + 1, x));
            assert(in_grid(n as int, y, x + 1));
            assert(in_grid(n as int, y, x - 1));
            assert(!trapped(cleared, y, x));
            assert(armed[y][x] == cleared[y][x] || armed[y][x] == CellType::Weapon);
            assert(armed[y - 1][x] == cleared[y - 1][x] || armed[y - 1][x] == CellType::Weapon);
            assert(armed[y + 1][x] == cleared[y + 1][x] || armed[y + 1][x] == CellType::Weapon);
            assert(armed[y][x + 1] == cleared[y][x + 1] || armed[y][x + 1] == CellType::Weapon);
            assert(armed[y][x - 1] == cleared[y][x - 1] || armed[y][x - 1] == CellType::Weapon);
        }
        assert forall|y: int, x: int| in_interior(n as int, y, x) implies (#[trigger] manned[y][x]
            == CellType::Empty || manned[y][x] == CellType::Column || manned[y][x]
            == CellType::Weapon || manned[y][x] == CellType::Enemy) by {
            assert(in_grid(n as int, y, x));
            assert(walled[y][x] == CellType::Empty || walled[y][x] == CellType::Column);
            assert(armed[y][x] == cleared[y][x] || armed[y][x] == CellType::Weapon);
        }
        assert(level_layout(manned, n as int, doors, first_level));
        assert forall|y: int, x: int| in_interior(n as int, y, x) implies (on_strips(
            strips@,
            y,
            x,
        ) ==> #[trigger] manned[y][x] == CellType::Column) && (manned[y][x] == CellType::Column
            && !on_strips(strips@, y, x) ==> walled_in(manned, y, x)) by {
            assert(in_grid(n as int, y, x));
            assert(in_grid(n as int, y - 1, x));
            assert(in_grid(n as int, y + 1, x));
            assert(in_grid(n as int, y, x + 1));
            assert(in_grid(n as int, y, x - 1));
            assert(framed[y][x] == CellType::Empty);
            assert(walled[y][x] == (if on_strips(strips@, y, x) {
                CellType::Column
            } else {
                CellType::Empty
            }));
            assert(cleared[y][x] == untrapped_cell(walled, n as int, y, x));
            assert(armed[y][x] == cleared[y][x] || armed[y][x] == CellType::Weapon);
            assert(cleared[y - 1][x] == untrapped_cell(walled, n as int, y - 1, x));
            assert(cleared[y + 1][x] == untrapped_cell(walled, n as int, y + 1, x));
            assert(cleared[y][x + 1] == untrapped_cell(walled, n as int, y, x + 1));
            assert(cleared[y][x - 1] == untrapped_cell(walled, n as int, y, x - 1));
            assert(armed[y - 1][x] == cleared[y - 1][x] || cleared[y - 1][x] == CellType::Empty);
            assert(armed[y + 1][x] == cleared[y + 1][x] || cleared[y + 1][x] == CellType::Empty);
            assert(armed[y][x + 1] == cleared[y][x + 1] || cleared[y][x + 1] == CellType::Empty);
            assert(armed[y][x - 1] == cleared[y][x - 1] || cleared[y][x - 1] == CellType::Empty);
        }
        assert(columns_from(manned, n as int, strips@));
        assert forall|y: int, x: int| in_grid(n as int, y, x) implies #[trigger] manned[y][x]
            == cleared[y][x] || (in_interior(n as int, y, x) && cleared[y][x] == CellType::Empty
            && (manned[y][x] == CellType::Weapon || manned[y][x] == CellType::Enemy)) by {
            assert(armed[y][x] == cleared[y][x] || (in_interior(n as int, y, x) && cleared[y][x]
                == CellType::Empty && armed[y][x] == CellType::Weapon));
        }
        assert(placed_on_empty(cleared, manned, n as int));
        assert(unarmed(cleared, n as int));
        assert forall|y: int, x: int|
            in_interior(n as int, y, x) && (#[trigger] manned[y][x] == CellType::Weapon
                || manned[y][x] == CellType::Enemy) implies !walled_in(manned, y, x) by {
            assert(in_grid(n as int, y, x));
            assert(in_grid(n as int, y - 1, x));
            assert(in_grid(n as int, y + 1, x));
            assert(in_grid(n as int, y, x + 1));
            assert(in_grid(n as int, y, x - 1));
            assert(cleared[y][x] == CellType::Empty);
            assert(!trapped(cleared, y, x));
            assert(manned[y - 1][x] == cleared[y - 1][x] || cleared[y - 1][x] == CellType::Empty);
            assert(manned[y + 1][x] == cleared[y + 1][x] || cleared[y + 1][x] == CellType::Empty);
            assert(manned[y][x + 1] == cleared[y][x + 1] || cleared[y][x + 1] == CellType::Empty);
            assert(manned[y][x - 1] == cleared[y][x - 1] || cleared[y][x - 1] == CellType::Empty);
        }
        assert(spawns_reachable(manned, n as int));
        if first_level {
            assert(in_grid(n as int, 1, doors.top.grid_pos as int));
            assert(manned[1][doors.top.grid_pos as int] == CellType::Player);
            assert forall|y: int, x: int|
                in_grid(n as int, y, x) && !(y == 1 && x == doors.top.grid_pos) implies !(
            #[trigger] holds(manned, CellType::Player)(y, x)) by {
                assert(manned[y][x] != CellType::Player);
            }
            lemma_count_rect_one(
                holds(manned, CellType::Player),
                0,
                n as int,
                0,
                n as int,
                1,
                doors.top.grid_pos as int,
            );
        } else {
            assert forall|y: int, x: int| in_grid(n as int, y, x) implies !(#[trigger] holds(
                manned,
                CellType::Player,
            )(y, x)) by {
                assert(manned[y][x] != CellType::Player);
            }
            lemma_count_rect_bounds(holds(manned, CellType::Player), 0, n as int, 0, n as int);
            let exit = previus_door->0;
            let entry = exit.door_type.spec_opposite();
            let (ey, ex) = door_cell(n as int, entry, exit.grid_pos as int);
            assert(on_border(n as int, ey, ex));
        }
        if previus_door is Some ==> 0 < previus_door->0.grid_pos < n - 1 {
            assert forall|side: DoorType| #[trigger]
                count_doors_on(manned, n as int, side) == 1 by {
                lemma_one_door_per_side(manned, n as int, doors, side);
            }
        }
    }

    if tutorial_level {
        proof {
            assert(sole_player(manned, n as int, 1, doors.top.grid_pos as int)) by {
                assert forall|y: int, x: int|
                    in_grid(n as int, y, x) && !on_border(n as int, y, x) && !(y == 1 && x
                        == doors.top.grid_pos) implies #[trigger] manned[y][x]
                    != CellType::Player by {
                    assert(in_margin(n as int, y, x) || in_interior(n as int, y, x));
                }
            }
        }
        make_tutorial_level(&mut grid);
        proof {
            let pen = grid@;
            assert forall|y: int, x: int| in_grid(n as int, y, x) implies #[trigger] pen[y][x]
                == tutorial_level_cell(n as int, doors, y, x) by {}
            assert(tutorial_layout(pen, n as int, doors));
            lemma_tutorial_pen(pen, n as int, doors);
            assert forall|side: DoorType| #[trigger] count_doors_on(pen, n as int, side) == 1 by {
                lemma_one_door_per_side(pen, n as int, doors, side);
            }
            assert forall|y: int, x: int|
                in_interior(n as int, y, x) && (#[trigger] pen[y][x] == CellType::Weapon
                    || pen[y][x] == CellType::Enemy) implies !walled_in(pen, y, x) by {
                assert(in_grid(n as int, y, x));
            }
        }
    }
    grid
}

/// Where every cell of the interior is empty, the interior counts as many
/// empty cells as it has cells, and no column.
proof fn lemma_all_empty_interior(g: Seq<Seq<CellType>>, n: int)
    requires
        square(g, n),
        4 <= n,
        forall|y: int, x: int| in_interior(n, y, x) ==> #[trigger] g[y][x] == CellType::Empty,
    ensures
        count_interior(g, CellType::Empty) == (n - 4) * (n - 4),
        count_interior(g, CellType::Column) == 0,
{
    lemma_count_rect_bounds(holds(g, CellType::Empty), 2, n - 2, 2, n - 2);
    lemma_count_rect_bounds(holds(g, CellType::Column), 2, n - 2, 2, n - 2);
}

/// Where every cell of the interior is empty or a column, the empty cells
/// and the columns of the interior add up to its cells.
proof fn lemma_empty_or_column(g: Seq<Seq<CellType>>, n: int)
    requires
        square(g, n),
        4 <= n,
        forall|y: int, x: int|
            in_interior(n, y, x) ==> (#[trigger] g[y][x] == CellType::Empty || g[y][x]
                == CellType::Column),
    ensures
        count_interior(g, CellType::Empty) + count_interior(g, CellType::Column) == (n - 4) * (n
            - 4),
{
    let either = |y: int, x: int| g[y][x] == CellType::Empty || g[y][x] == CellType::Column;
    lemma_count_rect_sum(
        holds(g, CellType::Empty),
        holds(g, CellType::Column),
        either,
        2,
        n - 2,
        2,
        n - 2,
    );
    lemma_count_rect_bounds(either, 2, n - 2, 2, n - 2);
}

/// One door per side: where the outer ring holds the doors `doors` and
/// columns, and no door sits in a corner, each side of the grid holds
/// exactly one door, its own, and every other cell of the ring is a column.
pub proof fn lemma_one_door_per_side(
    g: Seq<Seq<CellType>>,
    n: int,
    doors: LevelDoors,
    side: DoorType,
)
    requires
        square(g, n),
        doors.wf(n),
        doors.off_corners(n),
        forall|y: int, x: int|
            on_border(n, y, x) ==> #[trigger] g[y][x] == border_cell(n, doors, y, x),
    ensures
        count_doors_on(g, n, side) == 1,
        ({
            let (y, x) = door_cell(n, side, doors.on(side).grid_pos as int);
            g[y][x] == CellType::Door(doors.on(side))
        }),
        forall|y: int, x: int|
            on_border(n, y, x) && !(#[trigger] g[y][x] is Door) ==> g[y][x] == CellType::Column,
{
    let p = holds_door(g);
    let (dy, dx) = door_cell(n, side, doors.on(side).grid_pos as int);
    assert(on_border(n, dy, dx));
    assert forall|y: int, x: int| on_border(n, y, x) && !(y == dy && x == dx) && (match side {
        DoorType::Top => y == 0,
        DoorType::Bottom => y == n - 1,
        DoorType::Left => x == 0,
        DoorType::Right => x == n - 1,
    }) implies !#[trigger] p(y, x) by {
        assert(g[y][x] == border_cell(n, doors, y, x));
    }
    match side {
        DoorType::Top => lemma_count_rect_one(p, 0, 1, 0, n, dy, dx),
        DoorType::Bottom => lemma_count_rect_one(p, n - 1, n, 0, n, dy, dx),
        DoorType::Left => lemma_count_rect_one(p, 0, n, 0, 1, dy, dx),
        DoorType::Right => lemma_count_rect_one(p, 0, n, n - 1, n, dy, dx),
    }
}

/// A cell of the player's pen: it holds a column or, where the pen reaches
/// the outer ring, what the ring holds there, a column or a door.
pub open spec fn pen_wall(g: Seq<Seq<CellType>>, n: int, y: int, x: int) -> bool {
    g[y][x] == CellType::Column || (on_border(n, y, x) && g[y][x] is Door)
}

/// The tutorial level: it holds no weapon and no enemy, and exactly one
/// player, who stands three rows below the place of a first level's player,
/// closed in two cells to the left, two cells to the right and two cells
/// below. No cell of its interior is trapped, and each side of its outer
/// ring holds its door.
pub proof fn lemma_tutorial_pen(g: Seq<Seq<CellType>>, n: int, doors: LevelDoors)
    requires
        tutorial_layout(g, n, doors),
        7 <= n,
        2 <= doors.top.grid_pos < n - 2,
    ensures
        count_kind(g, CellType::Weapon) == 0,
        count_kind(g, CellType::Enemy) == 0,
        count_kind(g, CellType::Player) == 1,
        g[4][doors.top.grid_pos as int] == CellType::Player,
        pen_wall(g, n, 4, doors.top.grid_pos - 2),
        pen_wall(g, n, 4, doors.top.grid_pos + 2),
        pen_wall(g, n, 6, doors.top.grid_pos as int),
        no_trapped(g, n),
        forall|y: int, x: int|
            on_border(n, y, x) ==> #[trigger] g[y][x] == border_cell(n, doors, y, x),
{
    let px = doors.top.grid_pos as int;
    assert(in_grid(n, 4, px) && in_grid(n, 4, px - 2) && in_grid(n, 4, px + 2) && in_grid(
        n,
        6,
        px,
    ));
    assert forall|y: int, x: int| in_grid(n, y, x) implies !(#[trigger] holds(
        g,
        CellType::Weapon,
    )(y, x)) && !(#[trigger] holds(g, CellType::Enemy)(y, x)) by {
        assert(g[y][x] == tutorial_level_cell(n, doors, y, x));
    }
    lemma_count_rect_bounds(holds(g, CellType::Weapon), 0, n, 0, n);
    lemma_count_rect_bounds(holds(g, CellType::Enemy), 0, n, 0, n);
    assert forall|y: int, x: int| in_grid(n, y, x) && !(y == 4 && x == px) implies !(
    #[trigger] holds(g, CellType::Player)(y, x)) by {
        assert(g[y][x] == tutorial_level_cell(n, doors, y, x));
    }
    lemma_count_rect_one(holds(g, CellType::Player), 0, n, 0, n, 4, px);
    assert forall|y: int, x: int| in_interior(n, y, x) implies !#[trigger] trapped(g, y, x) by {
        assert(in_grid(n, y, x) && in_grid(n, y, x - 1) && in_grid(n, y, x + 1));
        assert(g[y][x] == tutorial_level_cell(n, doors, y, x));
        assert(g[y][x - 1] == tutorial_level_cell(n, doors, y, x - 1));
        assert(g[y][x + 1] == tutorial_level_cell(n, doors, y, x + 1));
    }
    assert(g[4][px - 2] == tutorial_level_cell(n, doors, 4, px - 2));
    assert(g[4][px + 2] == tutorial_level_cell(n, doors, 4, px + 2));
    assert(g[6][px] == tutorial_level_cell(n, doors, 6, px));
    assert forall|y: int, x: int| on_border(n, y, x) implies #[trigger] g[y][x] == border_cell(
        n,
        doors,
        y,
        x,
    ) by {
        assert(g[y][x] == tutorial_level_cell(n, doors, y, x));
    }
}

} // verus!
