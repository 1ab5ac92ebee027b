//! Columns: the ring around the level and the strips that random walks lay
//! in its interior.

use crate::census::{count_interior, holds, lemma_count_after_set};
use crate::config::LevelConfig;
use crate::count::{
    count_rect, count_row, lemma_count_rect_sum, lemma_count_row_first, lemma_count_row_shift,
};
use crate::grid::{in_grid, in_interior, on_border, square, CellType, Grid, GridPos};
use crate::random::gen_range;
use rand::rngs::StdRng;
use vstd::prelude::*;

verus! {

/// Turns every cell of the outer ring into a column; the cells inside stay.
pub fn stamp_border(grid: &mut Grid)
    requires
        old(grid).wf(),
    ensures
        final(grid).wf(),
        final(grid).spec_size() == old(grid).spec_size(),
        forall|y: int, x: int|
            in_grid(old(grid).spec_size() as int, y, x) ==> #[trigger] final(grid)@[y][x] == (
            if on_border(old(grid).spec_size() as int, y, x) {
                CellType::Column
            } else {
                old(grid)@[y][x]
            }),
{
    let n = grid.size();
    if n == 0 {
        return ;
    }
    let mut i: usize = 0;
    while i < n
        invariant
            n >= 1,
            i <= n,
            grid.wf(),
            grid.spec_size() == n,
            n == old(grid).spec_size(),
            old(grid).wf(),
            forall|y: int, x: int|
                in_grid(n as int, y, x) ==> #[trigger] grid@[y][x] == (if ((y == 0 || y == n - 1)
                    && x < i) || ((x == 0 || x == n - 1) && y < i) {
                    CellType::Column
                } else {
                    old(grid)@[y][x]
                }),
        decreases n - i,
    {
        grid.set(0, i, CellType::Column);
        grid.set(n - 1, i, CellType::Column);
        grid.set(i, 0, CellType::Column);
        grid.set(i, n - 1, CellType::Column);
        i += 1;
    }
}

/// The step to cell `(y, x)`, if that cell lies in the interior.
pub open spec fn step_to(n: int, y: int, x: int) -> Seq<GridPos> {
    if in_interior(n, y, x) {
        seq![GridPos { y: y as usize, x: x as usize }]
    } else {
        Seq::empty()
    }
}

/// The cells to which a walk can step from `from`: its neighbours to the
/// left, to the right, above and below, in this order, without those outside
/// the interior.
pub open spec fn spec_valid_steps(n: int, from: GridPos) -> Seq<GridPos> {
    step_to(n, from.y as int, from.x - 1) + step_to(n, from.y as int, from.x + 1) + step_to(
        n,
        from.y - 1,
        from.x as int,
    ) + step_to(n, from.y + 1, from.x as int)
}

/// Whether `(y, x)` lies in the interior of a grid of side `n`.
pub fn is_interior(n: usize, y: usize, x: usize) -> (inside: bool)
    ensures
        inside == in_interior(n as int, y as int, x as int),
{
    n >= 2 && 2 <= y && y < n - 2 && 2 <= x && x < n - 2
}

/// The cells to which a walk can step from `from` in a grid of side `n`.
pub fn valid_steps(n: usize, from: GridPos) -> (steps: Vec<GridPos>)
    ensures
        steps@ == spec_valid_steps(n as int, from),
{
    let mut steps: Vec<GridPos> = Vec::new();
    if from.x >= 1 && is_interior(n, from.y, from.x - 1) {
        steps.push(GridPos { y: from.y, x: from.x - 1 });
    }
    if from.x < usize::MAX && is_interior(n, from.y, from.x + 1) {
        steps.push(GridPos { y: from.y, x: from.x + 1 });
    }
    if from.y >= 1 && is_interior(n, from.y - 1, from.x) {
        steps.push(GridPos { y: from.y - 1, x: from.x });
    }
    if from.y < usize::MAX && is_interior(n, from.y + 1, from.x) {
        steps.push(GridPos { y: from.y + 1, x: from.x });
    }
    assert(steps@ =~= spec_valid_steps(n as int, from));
    steps
}

/// A walk through the interior: it starts in the interior, and each cell
/// after the first is a valid step from the one before.
pub open spec fn is_walk(n: int, walk: Seq<GridPos>) -> bool {
    &&& forall|i: int|
        0 <= i < walk.len() ==> in_interior(n, (#[trigger] walk[i]).y as int, walk[i].x as int)
    &&& forall|i: int|
        1 <= i < walk.len() ==> spec_valid_steps(n, walk[i - 1]).contains(#[trigger] walk[i])
}

/// The walk passes through cell `(y, x)`.
pub open spec fn on_walk(walk: Seq<GridPos>, y: int, x: int) -> bool {
    exists|i: int| 0 <= i < walk.len() && (#[trigger] walk[i]).y == y && walk[i].x == x
}

/// `walk` can be a strip of up to `strip_length` steps in a grid of side
/// `n`: a walk through the interior that is shorter only where it got stuck.
pub open spec fn is_strip(n: int, strip_length: int, walk: Seq<GridPos>) -> bool {
    &&& is_walk(n, walk)
    &&& 1 <= walk.len() <= strip_length + 1
    &&& walk.len() <= strip_length ==> spec_valid_steps(n, walk.last()).len() == 0
}

/// Lays one strip of columns: a random interior cell, then up to
/// `strip_length` steps of a random walk, each to a neighbour in the interior
/// drawn among those there are. Returns the cells of the walk in the order in
/// which they were visited; they are the cells that hold a column afterwards
/// whatever they held before, and every other cell stays.
///
/// The walk is one step short of its length only where it got stuck, with
/// no neighbour in the interior to step to.
pub fn carve_strip(grid: &mut Grid, strip_length: u32, rng: &mut StdRng) -> (walk: Vec<GridPos>)
    requires
        old(grid).wf(),
        old(grid).spec_size() >= 5,
    ensures
        final(grid).wf(),
        final(grid).spec_size() == old(grid).spec_size(),
        is_strip(old(grid).spec_size() as int, strip_length as int, walk@),
        forall|y: int, x: int|
            in_grid(old(grid).spec_size() as int, y, x) ==> #[trigger] final(grid)@[y][x] == (
            if on_walk(walk@, y, x) {
                CellType::Column
            } else {
                old(grid)@[y][x]
            }),
        count_interior(final(grid)@, CellType::Column) <= count_interior(
            old(grid)@,
            CellType::Column,
        ) + walk@.len(),
{
    let n = grid.size();
    let random_cell_x = gen_range(rng, 2, n - 2);
    let random_cell_y = gen_range(rng, 2, n - 2);
    let mut current = GridPos { y: random_cell_y, x: random_cell_x };
    let mut walk: Vec<GridPos> = Vec::new();
    proof {
        lemma_count_after_set(
            grid@,
            current.y as int,
            current.x as int,
            CellType::Column,
            CellType::Column,
            2,
            n - 2,
            2,
            n - 2,
        );
    }
    grid.set(current.y, current.x, CellType::Column);
    walk.push(current);
    assert(walk@[0] == current);
    let mut step: u32 = 0;
    let mut stuck = false;
    while step < strip_length && !stuck
        invariant
            n >= 5,
            n == old(grid).spec_size(),
            grid.wf(),
            grid.spec_size() == n,
            old(grid).wf(),
            step <= strip_length,
            walk@.len() == step + 1,
            walk@.last() == current,
            is_walk(n as int, walk@),
            stuck ==> spec_valid_steps(n as int, current).len() == 0,
            forall|y: int, x: int|
                in_grid(n as int, y, x) ==> #[trigger] grid@[y][x] == (if on_walk(walk@, y, x) {
                    CellType::Column
                } else {
                    old(grid)@[y][x]
                }),
            count_interior(grid@, CellType::Column) <= count_interior(old(grid)@, CellType::Column)
                + walk@.len(),
        decreases strip_length - step + (if stuck { 0int } else { 1int }),
    {
        let valid_pos = valid_steps(n, current);
        if valid_pos.len() == 0 {
            stuck = true;
        } else {
            let random_cell = gen_range(rng, 0, valid_pos.len());
            let next = valid_pos[random_cell];
            proof {
                assert(spec_valid_steps(n as int, current).contains(next));
                assert(in_interior(n as int, next.y as int, next.x as int));
                lemma_count_after_set(
                    grid@,
                    next.y as int,
                    next.x as int,
                    CellType::Column,
                    CellType::Column,
                    2,
                    n - 2,
                    2,
                    n - 2,
                );
            }
            let ghost before = walk@;
            grid.set(next.y, next.x, CellType::Column);
            walk.push(next);
            current = next;
            step += 1;
            proof {
                assert forall|i: int| 0 <= i < walk@.len() implies in_interior(
                    n as int,
                    (#[trigger] walk@[i]).y as int,
                    walk@[i].x as int,
                ) by {
                    if i < before.len() {
                        assert(walk@[i] == before[i]);
                    }
                }
                assert forall|i: int| 1 <= i < walk@.len() implies spec_valid_steps(
                    n as int,
                    walk@[i - 1],
                ).contains(#[trigger] walk@[i]) by {
                    if i < before.len() {
                        assert(walk@[i] == before[i]);
                        assert(walk@[i - 1] == before[i - 1]);
                    }
                }
                assert forall|y: int, x: int| in_grid(n as int, y, x) implies #[trigger] grid@[y][x]
                    == (if on_walk(walk@, y, x) {
                    CellType::Column
                } else {
                    old(grid)@[y][x]
                }) by {
                    if on_walk(before, y, x) {
                        let i = choose|i: int|
                            0 <= i < before.len() && (#[trigger] before[i]).y == y && before[i].x
                                == x;
                        assert(walk@[i] == before[i]);
                    }
                    if y == next.y && x == next.x {
                        assert(walk@[before.len() as int] == next);
                    }
                    if on_walk(walk@, y, x) {
                        let i = choose|i: int|
                            0 <= i < walk@.len() && (#[trigger] walk@[i]).y == y && walk@[i].x == x;
                        if i < before.len() {
                            assert(walk@[i] == before[i]);
                        }
                    }
                }
            }
        }
    }
    walk
}

/// What carving leaves of a grid: a cell holds what it held before, or it
/// lies in the interior and holds a column.
pub open spec fn carved(before: Seq<Seq<CellType>>, after: Seq<Seq<CellType>>, n: int) -> bool {
    forall|y: int, x: int|
        in_grid(n, y, x) ==> #[trigger] after[y][x] == before[y][x] || (in_interior(n, y, x)
            && after[y][x] == CellType::Column)
}

/// One of the strips passes through cell `(y, x)`.
pub open spec fn on_strips(strips: Seq<Vec<GridPos>>, y: int, x: int) -> bool {
    exists|i: int| 0 <= i < strips.len() && on_walk((#[trigger] strips[i])@, y, x)
}

/// Lays the strips of columns that the configuration asks for, one after the
/// other, and returns them. The cells of the strips hold a column afterwards,
/// and every other cell stays: only cells of the interior change, and only
/// into columns, at most `max_columns` of them.
pub fn generate_walls(grid: &mut Grid, config: &LevelConfig, rng: &mut StdRng) -> (strips: Vec<
    Vec<GridPos>,
>)
    requires
        old(grid).wf(),
        config.wf(),
        old(grid).spec_size() == config.grid_size,
    ensures
        final(grid).wf(),
        final(grid).spec_size() == old(grid).spec_size(),
        strips@.len() == config.spec_num_strips(),
        forall|i: int|
            0 <= i < strips@.len() ==> is_strip(
                config.grid_size as int,
                config.strip_length as int,
                (#[trigger] strips@[i])@,
            ),
        forall|y: int, x: int|
            in_grid(config.grid_size as int, y, x) ==> #[trigger] final(grid)@[y][x] == (
            if on_strips(strips@, y, x) {
                CellType::Column
            } else {
                old(grid)@[y][x]
            }),
        carved(old(grid)@, final(grid)@, config.grid_size as int),
        count_interior(final(grid)@, CellType::Column) <= count_interior(
            old(grid)@,
            CellType::Column,
        ) + config.max_columns(),
{
    let num_strips = config.num_strips();
    let ghost n = config.grid_size as int;
    let ghost per_strip = config.strip_length + 1;
    let mut strips: Vec<Vec<GridPos>> = Vec::new();
    let mut strip: u64 = 0;
    while strip < num_strips
        invariant
            strip <= num_strips,
            num_strips == config.spec_num_strips(),
            config.wf(),
            n == config.grid_size,
            per_strip == config.strip_length + 1,
            old(grid).wf(),
            grid.wf(),
            grid.spec_size() == n,
            old(grid).spec_size() == n,
            strips@.len() == strip,
            forall|i: int|
                0 <= i < strips@.len() ==> is_strip(
                    n,
                    config.strip_length as int,
                    (#[trigger] strips@[i])@,
                ),
            forall|y: int, x: int|
                in_grid(n, y, x) ==> #[trigger] grid@[y][x] == (if on_strips(strips@, y, x) {
                    CellType::Column
                } else {
                    old(grid)@[y][x]
                }),
            carved(old(grid)@, grid@, n),
            count_interior(grid@, CellType::Column) <= count_interior(old(grid)@, CellType::Column)
                + strip * per_strip,
        decreases num_strips - strip,
    {
        let ghost before = grid@;
        let ghost laid = strips@;
        let walk = carve_strip(grid, config.strip_length, rng);
        assert(strip * per_strip + walk@.len() <= (strip + 1) * per_strip) by (nonlinear_arith)
            requires
                walk@.len() <= per_strip,
        ;
        assert forall|y: int, x: int| in_grid(n, y, x) implies #[trigger] grid@[y][x] == old(
            grid,
        )@[y][x] || (in_interior(n, y, x) && grid@[y][x] == CellType::Column) by {
            if on_walk(walk@, y, x) {
                let i = choose|i: int|
                    0 <= i < walk@.len() && (#[trigger] walk@[i]).y == y && walk@[i].x == x;
                assert(in_interior(n, walk@[i].y as int, walk@[i].x as int));
            } else {
                assert(grid@[y][x] == before[y][x]);
            }
        }
        let ghost cells = walk@;
        strips.push(walk);
        strip += 1;
        proof {
            assert(strips@[laid.len() as int]@ == cells);
            assert forall|i: int| 0 <= i < strips@.len() implies is_strip(
                n,
                config.strip_length as int,
                (#[trigger] strips@[i])@,
            ) by {
                if i < laid.len() {
                    assert(strips@[i] == laid[i]);
                }
            }
            assert forall|y: int, x: int| in_grid(n, y, x) implies #[trigger] grid@[y][x] == (
            if on_strips(strips@, y, x) {
                CellType::Column
            } else {
                old(grid)@[y][x]
            }) by {
                if on_strips(laid, y, x) {
                    let i = choose|i: int|
                        0 <= i < laid.len() && on_walk((#[trigger] laid[i])@, y, x);
                    assert(strips@[i] == laid[i]);
                    assert(on_walk(strips@[i]@, y, x));
                }
                if on_walk(cells, y, x) {
                    assert(on_walk(strips@[laid.len() as int]@, y, x));
                }
                if on_strips(strips@, y, x) {
                    let i = choose|i: int|
                        0 <= i < strips@.len() && on_walk((#[trigger] strips@[i])@, y, x);
                    if i < laid.len() {
                        assert(strips@[i] == laid[i]);
                        assert(on_walk(laid[i]@, y, x));
                    }
                }
            }
        }
    }
    assert(num_strips * per_strip == config.max_columns());
    strips
}

/// Cell `(y, x)` has a column on each of its four sides: nothing can reach
/// it.
pub open spec fn walled_in(g: Seq<Seq<CellType>>, y: int, x: int) -> bool {
    &&& g[y - 1][x] == CellType::Column
    &&& g[y + 1][x] == CellType::Column
    &&& g[y][x + 1] == CellType::Column
    &&& g[y][x - 1] == CellType::Column
}

/// An empty cell with a column on each of its four sides.
pub open spec fn trapped(g: Seq<Seq<CellType>>, y: int, x: int) -> bool {
    g[y][x] == CellType::Empty && walled_in(g, y, x)
}

/// No cell of the interior is trapped.
pub open spec fn no_trapped(g: Seq<Seq<CellType>>, n: int) -> bool {
    forall|y: int, x: int| in_interior(n, y, x) ==> !#[trigger] trapped(g, y, x)
}

/// What a cell holds once the trapped cells of the interior are filled.
pub open spec fn untrapped_cell(g: Seq<Seq<CellType>>, n: int, y: int, x: int) -> CellType {
    if in_interior(n, y, x) && trapped(g, y, x) {
        CellType::Column
    } else {
        g[y][x]
    }
}

/// Fills each trapped cell of the interior with a column. The cells are
/// visited row by row and filled on the spot; the outcome is the same as if
/// all cells that were trapped at the start had been filled at once, and it
/// has no trapped cell left.
pub fn remove_trapped_cells(grid: &mut Grid)
    requires
        old(grid).wf(),
    ensures
        final(grid).wf(),
        final(grid).spec_size() == old(grid).spec_size(),
        forall|y: int, x: int|
            in_grid(old(grid).spec_size() as int, y, x) ==> #[trigger] final(grid)@[y][x]
                == untrapped_cell(old(grid)@, old(grid).spec_size() as int, y, x),
        no_trapped(final(grid)@, old(grid).spec_size() as int),
{
    let n = grid.size();
    if n < 5 {
        return ;
    }
    let mut y: usize = 2;
    while y < n - 2
        invariant
            5 <= n,
            2 <= y <= n - 2,
            n == old(grid).spec_size(),
            old(grid).wf(),
            grid.wf(),
            grid.spec_size() == n,
            forall|j: int, i: int|
                in_grid(n as int, j, i) ==> #[trigger] grid@[j][i] == (if j < y {
                    untrapped_cell(old(grid)@, n as int, j, i)
                } else {
                    old(grid)@[j][i]
                }),
        decreases n - y,
    {
        let mut x: usize = 2;
        while x < n - 2
            invariant
                5 <= n,
                2 <= y < n - 2,
                2 <= x <= n - 2,
                n == old(grid).spec_size(),
                old(grid).wf(),
                grid.wf(),
                grid.spec_size() == n,
                forall|j: int, i: int|
                    in_grid(n as int, j, i) ==> #[trigger] grid@[j][i] == (if j < y || (j == y && i
                        < x) {
                        untrapped_cell(old(grid)@, n as int, j, i)
                    } else {
                        old(grid)@[j][i]
                    }),
            decreases n - x,
        {
            assert(in_grid(n as int, y as int, x as int));
            assert(in_grid(n as int, y - 1, x as int));
            assert(in_grid(n as int, y + 1, x as int));
            assert(in_grid(n as int, y as int, x + 1));
            assert(in_grid(n as int, y as int, x - 1));
            if grid.get(y, x) == CellType::Empty && grid.get(y - 1, x) == CellType::Column
                && grid.get(y + 1, x) == CellType::Column && grid.get(y, x + 1)
                == CellType::Column && grid.get(y, x - 1) == CellType::Column {
                assert(trapped(old(grid)@, y as int, x as int));
                grid.set(y, x, CellType::Column);
            } else {
                assert(!trapped(old(grid)@, y as int, x as int));
            }
            x += 1;
        }
        y += 1;
    }
    proof {
        lemma_no_trapped_left(old(grid)@, grid@, n as int);
    }
}

/// Filling the trapped cells of the interior leaves none: the cells around a
/// trapped cell are columns, so filling it traps no other.
pub proof fn lemma_no_trapped_left(before: Seq<Seq<CellType>>, after: Seq<Seq<CellType>>, n: int)
    requires
        square(before, n),
        square(after, n),
        forall|y: int, x: int|
            in_grid(n, y, x) ==> #[trigger] after[y][x] == untrapped_cell(before, n, y, x),
    ensures
        no_trapped(after, n),
{
    assert forall|y: int, x: int| in_interior(n, y, x) implies !#[trigger] trapped(after, y, x) by {
        assert(in_grid(n, y, x));
        assert(in_grid(n, y - 1, x));
        assert(in_grid(n, y + 1, x));
        assert(in_grid(n, y, x + 1));
        assert(in_grid(n, y, x - 1));
        assert(after[y][x] == untrapped_cell(before, n, y, x));
        assert(after[y - 1][x] == untrapped_cell(before, n, y - 1, x));
        assert(after[y + 1][x] == untrapped_cell(before, n, y + 1, x));
        assert(after[y][x + 1] == untrapped_cell(before, n, y, x + 1));
        assert(after[y][x - 1] == untrapped_cell(before, n, y, x - 1));
    }
}

/// The predicate "cell `(y, x)` of `g` is trapped".
pub open spec fn holds_trapped(g: Seq<Seq<CellType>>) -> spec_fn(int, int) -> bool {
    |y: int, x: int| trapped(g, y, x)
}

/// In the rows `[2, y1)` of the interior there are no more trapped cells
/// than columns: each trapped cell has a column to its right, which is the
/// right-hand neighbour of no other cell.
proof fn lemma_trapped_rows(g: Seq<Seq<CellType>>, n: int, y1: int)
    requires
        square(g, n),
        5 <= n,
        2 <= y1 <= n - 2,
        forall|y: int| 2 <= y < n - 2 ==> (#[trigger] g[y])[n - 2] != CellType::Column,
    ensures
        count_rect(holds_trapped(g), 2, y1, 2, n - 2) <= count_rect(
            holds(g, CellType::Column),
            2,
            y1,
            2,
            n - 2,
        ),
    decreases y1,
{
    if 2 < y1 {
        let y = y1 - 1;
        let t = holds_trapped(g);
        let c = holds(g, CellType::Column);
        lemma_trapped_rows(g, n, y);
        lemma_count_row_shift(t, c, y, 2, n - 2);
        assert(!c(y, n - 2));
        assert(count_row(c, y, 3, n - 1) == count_row(c, y, 3, n - 2));
        lemma_count_row_first(c, y, 2, n - 2);
    }
}

/// What filling the trapped cells does to the interior, where the column
/// next to the interior's right edge holds no column: the columns at most
/// double, and the empty cells shrink by no more than there were columns.
pub proof fn lemma_trapped_counts(before: Seq<Seq<CellType>>, after: Seq<Seq<CellType>>, n: int)
    requires
        square(before, n),
        square(after, n),
        5 <= n,
        forall|y: int, x: int|
            in_grid(n, y, x) ==> #[trigger] after[y][x] == untrapped_cell(before, n, y, x),
        forall|y: int| 2 <= y < n - 2 ==> (#[trigger] before[y])[n - 2] != CellType::Column,
    ensures
        count_interior(after, CellType::Column) <= 2 * count_interior(before, CellType::Column),
        count_interior(after, CellType::Empty) + count_interior(before, CellType::Column)
            >= count_interior(before, CellType::Empty),
{
    let t = holds_trapped(before);
    assert forall|y: int, x: int| 2 <= y < n - 2 && 2 <= x < n - 2 implies #[trigger] after[y][x]
        == untrapped_cell(before, n, y, x) by {
        assert(in_grid(n, y, x));
    }
    lemma_trapped_rows(before, n, n - 2);
    lemma_count_rect_sum(
        holds(before, CellType::Column),
        t,
        holds(after, CellType::Column),
        2,
        n - 2,
        2,
        n - 2,
    );
    lemma_count_rect_sum(
        holds(after, CellType::Empty),
        t,
        holds(before, CellType::Empty),
        2,
        n - 2,
        2,
        n - 2,
    );
}

} // verus!
