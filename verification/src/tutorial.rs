//! The tutorial level: the first level of a run with everything but the
//! player taken out, the player moved three rows down, and walls to its
//! left, to its right and below it. The outer ring stays as it is.

use crate::grid::{in_grid, on_border, square, CellType, Grid, GridPos};
use vstd::prelude::*;

verus! {

/// `(py, px)` is inside the outer ring and holds the player, and no other
/// cell inside the outer ring does.
pub open spec fn sole_player(g: Seq<Seq<CellType>>, n: int, py: int, px: int) -> bool {
    &&& 0 < py < n - 1
    &&& 0 < px < n - 1
    &&& g[py][px] == CellType::Player
    &&& forall|y: int, x: int|
        in_grid(n, y, x) && !on_border(n, y, x) && !(y == py && x == px) ==> #[trigger] g[y][x]
            != CellType::Player
}

/// What cell `(y, x)` of the tutorial level holds, made of the grid `g` with
/// its player at `(py, px)`. The outer ring is as it was. Inside it, columns
/// stand two cells to the left and to the right of the player's column, and
/// five rows below the player's row, each run from one side of the ring to
/// the other; the player stands three rows further down; every other cell is
/// empty.
pub open spec fn tutorial_cell(
    g: Seq<Seq<CellType>>,
    n: int,
    py: int,
    px: int,
    y: int,
    x: int,
) -> CellType {
    if on_border(n, y, x) {
        g[y][x]
    } else if x == px - 2 || x == px + 2 || y == py + 5 {
        CellType::Column
    } else if y == py + 3 && x == px {
        CellType::Player
    } else {
        CellType::Empty
    }
}

/// Turns a first level into the tutorial level.
///
/// The grid must hold the player once inside its outer ring, with two
/// columns to either side of it and rows down to the fifth below it.
pub fn make_tutorial_level(grid: &mut Grid)
    requires
        old(grid).wf(),
        exists|py: int, px: int|
            #![trigger sole_player(old(grid)@, old(grid).spec_size() as int, py, px)]
            sole_player(old(grid)@, old(grid).spec_size() as int, py, px) && 2 <= px < old(
                grid,
            ).spec_size() - 2 && py + 5 < old(grid).spec_size(),
    ensures
        final(grid).wf(),
        final(grid).spec_size() == old(grid).spec_size(),
        forall|py: int, px: int|
            #![trigger sole_player(old(grid)@, old(grid).spec_size() as int, py, px)]
            sole_player(old(grid)@, old(grid).spec_size() as int, py, px) ==> forall|
                y: int,
                x: int,
            |
                in_grid(old(grid).spec_size() as int, y, x) ==> #[trigger] final(grid)@[y][x]
                    == tutorial_cell(old(grid)@, old(grid).spec_size() as int, py, px, y, x),
{
    let n = grid.size();
    let ghost (py, px) = choose|py: int, px: int|
        #![trigger sole_player(old(grid)@, n as int, py, px)]
        sole_player(old(grid)@, n as int, py, px) && 2 <= px < n - 2 && py + 5 < n;
    assert(in_grid(n as int, py, px) && !on_border(n as int, py, px));
    let mut player_pos = GridPos { y: 0, x: 0 };

    // remove all content from the level
    let mut y: usize = 1;
    while y < n - 1
        invariant
            7 <= n,
            n == old(grid).spec_size(),
            old(grid).wf(),
            grid.wf(),
            grid.spec_size() == n,
            1 <= y <= n - 1,
            sole_player(old(grid)@, n as int, py, px),
            py < y ==> player_pos.y == py && player_pos.x == px,
            forall|j: int, i: int|
                in_grid(n as int, j, i) ==> #[trigger] grid@[j][i] == (if !on_border(n as int, j, i)
                    && j < y && !(j == py && i == px) {
                    CellType::Empty
                } else {
                    old(grid)@[j][i]
                }),
        decreases n - y,
    {
        let mut x: usize = 1;
        while x < n - 1
            invariant
                7 <= n,
                n == old(grid).spec_size(),
                old(grid).wf(),
                grid.wf(),
                grid.spec_size() == n,
                1 <= y < n - 1,
                1 <= x <= n - 1,
                sole_player(old(grid)@, n as int, py, px),
                py < y || (py == y && px < x) ==> player_pos.y == py && player_pos.x == px,
                forall|j: int, i: int|
                    in_grid(n as int, j, i) ==> #[trigger] grid@[j][i] == (if !on_border(
                        n as int,
                        j,
                        i,
                    ) && (j < y || (j == y && i < x)) && !(j == py && i == px) {
                        CellType::Empty
                    } else {
                        old(grid)@[j][i]
                    }),
            decreases n - x,
        {
            assert(in_grid(n as int, y as int, x as int));
            assert(!on_border(n as int, y as int, x as int));
            if grid.get(y, x) != CellType::Player {
                grid.set(y, x, CellType::Empty);
            } else {
                player_pos = GridPos { y, x };
            }
            x += 1;
        }
        y += 1;
    }

    // move player back
    let new_player_pos = GridPos { y: player_pos.y + 3, x: player_pos.x };
    grid.set(player_pos.y, player_pos.x, CellType::Empty);
    grid.set(new_player_pos.y, new_player_pos.x, CellType::Player);

    // place walls around player
    let ghost cleared = grid@;
    assert forall|j: int, i: int| in_grid(n as int, j, i) implies #[trigger] cleared[j][i] == (
    if j == py + 3 && i == px {
        CellType::Player
    } else if !on_border(n as int, j, i) {
        CellType::Empty
    } else {
        old(grid)@[j][i]
    }) by {}
    let left = new_player_pos.x - 2;
    let right = new_player_pos.x + 2;
    let below = new_player_pos.y + 2;
    let mut i: usize = 1;
    while i < n - 1
        invariant
            7 <= n,
            1 <= i <= n - 1,
            grid.wf(),
            grid.spec_size() == n,
            square(cleared, n as int),
            left + 4 == right,
            right < n,
            1 <= below < n,
            forall|y: int, x: int|
                in_grid(n as int, y, x) ==> #[trigger] grid@[y][x] == (if !on_border(n as int, y, x)
                    && ((y < i && (x == left || x == right)) || (x < i && y == below)) {
                    CellType::Column
                } else {
                    cleared[y][x]
                }),
        decreases n - i,
    {
        if 1 <= left {
            grid.set(i, left, CellType::Column);
        }
        if right < n - 1 {
            grid.set(i, right, CellType::Column);
        }
        if below < n - 1 {
            grid.set(below, i, CellType::Column);
        }
        i += 1;
    }
    assert forall|qy: int, qx: int|
        #![trigger sole_player(old(grid)@, n as int, qy, qx)]
        sole_player(old(grid)@, n as int, qy, qx) implies qy == py && qx == px by {
        if !(qy == py && qx == px) {
            assert(in_grid(n as int, qy, qx) && !on_border(n as int, qy, qx));
            assert(old(grid)@[qy][qx] != CellType::Player);
        }
    }
}

} // verus!
