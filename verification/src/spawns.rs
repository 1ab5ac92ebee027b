//! Placing weapons and enemies on empty cells of the interior.
//!
//! A cell is drawn at random and taken if it is empty. After
//! `MAX_PLACEMENT_ATTEMPTS` draws that hit an occupied cell, the first empty
//! cell of the interior is taken instead, so that a placement ends whatever
//! is drawn, and fails only where the interior has no empty cell left.

use crate::census::{count_interior, count_kind, holds, lemma_count_after_set};
use crate::count::lemma_count_rect_bounds;
use crate::grid::{in_grid, in_interior, with_cell, CellType, Grid, GridPos};
use crate::random::gen_range;
use rand::rngs::StdRng;
use vstd::prelude::*;

verus! {

/// Random draws per placement before the first empty cell is taken.
pub const MAX_PLACEMENT_ATTEMPTS: u32 = 64;

/// `(y, x)` comes before `pos` where the cells are read row by row.
pub open spec fn before_in_rows(y: int, x: int, pos: GridPos) -> bool {
    y < pos.y || (y == pos.y && x < pos.x)
}

/// No cell of the interior is empty.
pub open spec fn interior_full(g: Seq<Seq<CellType>>, n: int) -> bool {
    forall|y: int, x: int| in_interior(n, y, x) ==> #[trigger] g[y][x] != CellType::Empty
}

/// The first empty cell of the interior, reading row by row; `None` if the
/// interior has no empty cell.
pub fn first_empty_interior(grid: &Grid) -> (found: Option<GridPos>)
    requires
        grid.wf(),
    ensures
        match found {
            Some(pos) => {
                &&& in_interior(grid.spec_size() as int, pos.y as int, pos.x as int)
                &&& grid@[pos.y as int][pos.x as int] == CellType::Empty
                &&& forall|y: int, x: int|
                    in_interior(grid.spec_size() as int, y, x) && before_in_rows(y, x, pos)
                        ==> #[trigger] grid@[y][x] != CellType::Empty
            },
            None => interior_full(grid@, grid.spec_size() as int),
        },
{
    let n = grid.size();
    if n < 5 {
        return None;
    }
    let mut y: usize = 2;
    while y < n - 2
        invariant
            5 <= n,
            n == grid.spec_size(),
            grid.wf(),
            2 <= y <= n - 2,
            forall|j: int, i: int|
                in_interior(n as int, j, i) && j < y ==> #[trigger] grid@[j][i] != CellType::Empty,
        decreases n - y,
    {
        let mut x: usize = 2;
        while x < n - 2
            invariant
                5 <= n,
                n == grid.spec_size(),
                grid.wf(),
                2 <= y < n - 2,
                2 <= x <= n - 2,
                forall|j: int, i: int|
                    in_interior(n as int, j, i) && (j < y || (j == y && i < x))
                        ==> #[trigger] grid@[j][i] != CellType::Empty,
            decreases n - x,
        {
            if grid.get(y, x) == CellType::Empty {
                return Some(GridPos { y, x });
            }
            x += 1;
        }
        y += 1;
    }
    None
}

/// Puts `kind` on an empty cell of the interior: on the first of up to
/// `MAX_PLACEMENT_ATTEMPTS` randomly drawn cells that is empty, else on the
/// first empty cell of the interior. Returns the cell taken. Returns `None`,
/// and leaves the grid as it is, exactly if the interior has no empty cell.
pub fn place_in_empty_cell(grid: &mut Grid, kind: CellType, rng: &mut StdRng) -> (placed: Option<
    GridPos,
>)
    requires
        old(grid).wf(),
    ensures
        final(grid).wf(),
        final(grid).spec_size() == old(grid).spec_size(),
        match placed {
            Some(pos) => {
                &&& in_interior(old(grid).spec_size() as int, pos.y as int, pos.x as int)
                &&& old(grid)@[pos.y as int][pos.x as int] == CellType::Empty
                &&& final(grid)@ == with_cell(old(grid)@, pos.y as int, pos.x as int, kind)
            },
            None => {
                &&& final(grid)@ == old(grid)@
                &&& interior_full(old(grid)@, old(grid).spec_size() as int)
            },
        },
{
    let n = grid.size();
    if n < 5 {
        return None;
    }
    let mut attempt: u32 = 0;
    while attempt < MAX_PLACEMENT_ATTEMPTS
        invariant
            5 <= n,
            n == grid.spec_size(),
            grid.wf(),
            grid@ == old(grid)@,
        decreases MAX_PLACEMENT_ATTEMPTS - attempt,
    {
        let random_cell_x = gen_range(rng, 2, n - 2);
        let random_cell_y = gen_range(rng, 2, n - 2);
        if grid.get(random_cell_y, random_cell_x) == CellType::Empty {
            grid.set(random_cell_y, random_cell_x, kind);
            return Some(GridPos { y: random_cell_y, x: random_cell_x });
        }
        attempt += 1;
    }
    match first_empty_interior(grid) {
        Some(pos) => {
            grid.set(pos.y, pos.x, kind);
            Some(pos)
        },
        None => None,
    }
}

/// What placing leaves of a grid: a cell holds what it held before, or it
/// lies in the interior, was empty and holds `kind`.
pub open spec fn spawned(
    before: Seq<Seq<CellType>>,
    after: Seq<Seq<CellType>>,
    n: int,
    kind: CellType,
) -> bool {
    forall|y: int, x: int|
        in_grid(n, y, x) ==> #[trigger] after[y][x] == before[y][x] || (in_interior(n, y, x)
            && before[y][x] == CellType::Empty && after[y][x] == kind)
}

/// Puts `kind` on `count` empty cells of the interior, one after the other,
/// and stops early only where the interior has no empty cell left. Returns
/// how many were placed.
pub fn place_spawns(grid: &mut Grid, kind: CellType, count: u32, rng: &mut StdRng) -> (placed: u32)
    requires
        old(grid).wf(),
        kind != CellType::Empty,
    ensures
        final(grid).wf(),
        final(grid).spec_size() == old(grid).spec_size(),
        placed <= count,
        spawned(old(grid)@, final(grid)@, old(grid).spec_size() as int, kind),
        count_kind(final(grid)@, kind) == count_kind(old(grid)@, kind) + placed,
        count_interior(final(grid)@, CellType::Empty) + placed == count_interior(
            old(grid)@,
            CellType::Empty,
        ),
        placed < count ==> interior_full(final(grid)@, old(grid).spec_size() as int),
{
    let ghost n = grid.spec_size() as int;
    let mut placed: u32 = 0;
    let mut full = false;
    while placed < count && !full
        invariant
            n == old(grid).spec_size(),
            old(grid).wf(),
            grid.wf(),
            grid.spec_size() == n,
            kind != CellType::Empty,
            placed <= count,
            spawned(old(grid)@, grid@, n, kind),
            count_kind(grid@, kind) == count_kind(old(grid)@, kind) + placed,
            count_interior(grid@, CellType::Empty) + placed == count_interior(
                old(grid)@,
                CellType::Empty,
            ),
            full ==> interior_full(grid@, n),
        decreases count - placed + (if full { 0int } else { 1int }),
    {
        let ghost before = grid@;
        match place_in_empty_cell(grid, kind, rng) {
            Some(pos) => {
                proof {
                    lemma_count_after_set(
                        before,
                        pos.y as int,
                        pos.x as int,
                        kind,
                        kind,
                        0,
                        n,
                        0,
                        n,
                    );
                    lemma_count_after_set(
                        before,
                        pos.y as int,
                        pos.x as int,
                        kind,
                        CellType::Empty,
                        2,
                        n - 2,
                        2,
                        n - 2,
                    );
                }
                placed += 1;
            },
            None => {
                full = true;
            },
        }
    }
    placed
}

/// An interior without an empty cell counts no empty cell.
pub proof fn lemma_full_interior_count(g: Seq<Seq<CellType>>)
    requires
        interior_full(g, g.len() as int),
    ensures
        count_interior(g, CellType::Empty) == 0,
{
    if g.len() >= 4 {
        lemma_count_rect_bounds(holds(g, CellType::Empty), 2, g.len() - 2, 2, g.len() - 2);
    }
}

} // verus!
