//! How many cells of a grid hold a given content: in all of the grid, or in
//! its interior only.

use crate::count::{count_rect, lemma_count_rect_eq, lemma_count_rect_set, one_if};
use crate::grid::{in_grid, square, with_cell, CellType};
use vstd::prelude::*;

verus! {

/// The predicate "cell `(y, x)` of `g` holds `kind`".
pub open spec fn holds(g: Seq<Seq<CellType>>, kind: CellType) -> spec_fn(int, int) -> bool {
    |y: int, x: int| g[y][x] == kind
}

/// The predicate "cell `(y, x)` of `g` holds a door".
pub open spec fn holds_door(g: Seq<Seq<CellType>>) -> spec_fn(int, int) -> bool {
    |y: int, x: int| g[y][x] is Door
}

/// How many cells of the grid hold `kind`.
pub open spec fn count_kind(g: Seq<Seq<CellType>>, kind: CellType) -> nat {
    count_rect(holds(g, kind), 0, g.len() as int, 0, g.len() as int)
}

/// How many cells of the interior hold `kind`.
pub open spec fn count_interior(g: Seq<Seq<CellType>>, kind: CellType) -> nat {
    count_rect(holds(g, kind), 2, g.len() - 2, 2, g.len() - 2)
}

/// Replacing one cell changes the count of `kind` in a rectangle by what the
/// cell loses and gains, if it lies in the rectangle, and not at all if it
/// lies outside.
pub proof fn lemma_count_after_set(
    g: Seq<Seq<CellType>>,
    y: int,
    x: int,
    cell: CellType,
    kind: CellType,
    y0: int,
    y1: int,
    x0: int,
    x1: int,
)
    requires
        square(g, g.len() as int),
        in_grid(g.len() as int, y, x),
        0 <= y0 <= y1 <= g.len(),
        0 <= x0 <= x1 <= g.len(),
    ensures
        (y0 <= y < y1 && x0 <= x < x1) ==> count_rect(
            holds(with_cell(g, y, x, cell), kind),
            y0,
            y1,
            x0,
            x1,
        ) + one_if(g[y][x] == kind) == count_rect(holds(g, kind), y0, y1, x0, x1) + one_if(
            cell == kind,
        ),
        !(y0 <= y < y1 && x0 <= x < x1) ==> count_rect(
            holds(with_cell(g, y, x, cell), kind),
            y0,
            y1,
            x0,
            x1,
        ) == count_rect(holds(g, kind), y0, y1, x0, x1),
{
    let p = holds(g, kind);
    let q = holds(with_cell(g, y, x, cell), kind);
    if y0 <= y < y1 && x0 <= x < x1 {
        lemma_count_rect_set(p, q, y0, y1, x0, x1, y, x);
    } else {
        lemma_count_rect_eq(p, q, y0, y1, x0, x1);
    }
}

} // verus!
