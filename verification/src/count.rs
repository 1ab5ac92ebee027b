//! Counting the cells of a rectangle that satisfy a predicate.
//!
//! A predicate is a `spec_fn(int, int) -> bool` over row and column. The
//! rectangle `[y0, y1) x [x0, x1)` is counted row by row; the lemmas say how a
//! count reacts when the predicate changes.

use vstd::prelude::*;

verus! {

/// 1 if `b` holds, else 0.
pub open spec fn one_if(b: bool) -> nat {
    if b {
        1
    } else {
        0
    }
}

/// How many `x` in `[x0, x1)` satisfy `p(y, x)`.
pub open spec fn count_row(p: spec_fn(int, int) -> bool, y: int, x0: int, x1: int) -> nat
    decreases x1 - x0,
{
    if x1 <= x0 {
        0
    } else {
        count_row(p, y, x0, x1 - 1) + one_if(p(y, x1 - 1))
    }
}

/// How many `(y, x)` in `[y0, y1) x [x0, x1)` satisfy `p(y, x)`.
pub open spec fn count_rect(
    p: spec_fn(int, int) -> bool,
    y0: int,
    y1: int,
    x0: int,
    x1: int,
) -> nat
    decreases y1 - y0,
{
    if y1 <= y0 {
        0
    } else {
        count_rect(p, y0, y1 - 1, x0, x1) + count_row(p, y1 - 1, x0, x1)
    }
}

/// Predicates that agree on a row are satisfied equally often in it.
pub proof fn lemma_count_row_eq(
    p: spec_fn(int, int) -> bool,
    q: spec_fn(int, int) -> bool,
    y: int,
    x0: int,
    x1: int,
)
    requires
        forall|x: int| x0 <= x < x1 ==> #[trigger] p(y, x) == q(y, x),
    ensures
        count_row(p, y, x0, x1) == count_row(q, y, x0, x1),
    decreases x1 - x0,
{
    if x0 < x1 {
        lemma_count_row_eq(p, q, y, x0, x1 - 1);
    }
}

/// A row holds at most as many hits as it has cells; exactly that many if
/// every cell is one, none if no cell is.
pub proof fn lemma_count_row_bounds(p: spec_fn(int, int) -> bool, y: int, x0: int, x1: int)
    requires
        x0 <= x1,
    ensures
        count_row(p, y, x0, x1) <= x1 - x0,
        (forall|x: int| x0 <= x < x1 ==> #[trigger] p(y, x)) ==> count_row(p, y, x0, x1) == x1
            - x0,
        (forall|x: int| x0 <= x < x1 ==> !#[trigger] p(y, x)) ==> count_row(p, y, x0, x1) == 0,
    decreases x1 - x0,
{
    if x0 < x1 {
        lemma_count_row_bounds(p, y, x0, x1 - 1);
    }
}

/// Where two predicates differ in one cell of a row only, their counts differ
/// by that cell.
pub proof fn lemma_count_row_set(
    p: spec_fn(int, int) -> bool,
    q: spec_fn(int, int) -> bool,
    y: int,
    x0: int,
    x1: int,
    x: int,
)
    requires
        x0 <= x < x1,
        forall|i: int| x0 <= i < x1 && i != x ==> #[trigger] p(y, i) == q(y, i),
    ensures
        count_row(q, y, x0, x1) + one_if(p(y, x)) == count_row(p, y, x0, x1) + one_if(q(y, x)),
    decreases x1 - x0,
{
    if x == x1 - 1 {
        lemma_count_row_eq(p, q, y, x0, x1 - 1);
    } else {
        lemma_count_row_set(p, q, y, x0, x1 - 1, x);
    }
}

/// Where every cell of a row satisfies `r` exactly if it satisfies one of `p`
/// and `q`, and none satisfies both, the counts add up.
pub proof fn lemma_count_row_sum(
    p: spec_fn(int, int) -> bool,
    q: spec_fn(int, int) -> bool,
    r: spec_fn(int, int) -> bool,
    y: int,
    x0: int,
    x1: int,
)
    requires
        forall|x: int|
            x0 <= x < x1 ==> (#[trigger] r(y, x) == (p(y, x) || q(y, x))) && !(p(y, x) && q(
                y,
                x,
            )),
    ensures
        count_row(r, y, x0, x1) == count_row(p, y, x0, x1) + count_row(q, y, x0, x1),
    decreases x1 - x0,
{
    if x0 < x1 {
        lemma_count_row_sum(p, q, r, y, x0, x1 - 1);
    }
}

/// A row's count is that of its first cell plus that of the rest.
pub proof fn lemma_count_row_first(p: spec_fn(int, int) -> bool, y: int, x0: int, x1: int)
    requires
        x0 < x1,
    ensures
        count_row(p, y, x0, x1) == one_if(p(y, x0)) + count_row(p, y, x0 + 1, x1),
    decreases x1 - x0,
{
    if x0 + 1 < x1 {
        lemma_count_row_first(p, y, x0, x1 - 1);
    } else {
        assert(count_row(p, y, x0, x1 - 1) == 0);
        assert(count_row(p, y, x0 + 1, x1) == 0);
    }
}

/// Where each hit of `p` has a hit of `q` as its right-hand neighbour, `p` is
/// satisfied no more often than `q` is one column further right.
pub proof fn lemma_count_row_shift(
    p: spec_fn(int, int) -> bool,
    q: spec_fn(int, int) -> bool,
    y: int,
    x0: int,
    x1: int,
)
    requires
        forall|x: int| x0 <= x < x1 && #[trigger] p(y, x) ==> q(y, x + 1),
    ensures
        count_row(p, y, x0, x1) <= count_row(q, y, x0 + 1, x1 + 1),
    decreases x1 - x0,
{
    if x0 < x1 {
        lemma_count_row_shift(p, q, y, x0, x1 - 1);
    }
}

/// Predicates that agree on a rectangle are satisfied equally often in it.
pub proof fn lemma_count_rect_eq(
    p: spec_fn(int, int) -> bool,
    q: spec_fn(int, int) -> bool,
    y0: int,
    y1: int,
    x0: int,
    x1: int,
)
    requires
        forall|y: int, x: int| y0 <= y < y1 && x0 <= x < x1 ==> #[trigger] p(y, x) == q(y, x),
    ensures
        count_rect(p, y0, y1, x0, x1) == count_rect(q, y0, y1, x0, x1),
    decreases y1 - y0,
{
    if y0 < y1 {
        lemma_count_rect_eq(p, q, y0, y1 - 1, x0, x1);
        lemma_count_row_eq(p, q, y1 - 1, x0, x1);
    }
}

/// A rectangle holds at most as many hits as it has cells; exactly that many
/// if every cell is one, none if no cell is.
pub proof fn lemma_count_rect_bounds(
    p: spec_fn(int, int) -> bool,
    y0: int,
    y1: int,
    x0: int,
    x1: int,
)
    requires
        y0 <= y1,
        x0 <= x1,
    ensures
        count_rect(p, y0, y1, x0, x1) <= (y1 - y0) * (x1 - x0),
        (forall|y: int, x: int| y0 <= y < y1 && x0 <= x < x1 ==> #[trigger] p(y, x))
            ==> count_rect(p, y0, y1, x0, x1) == (y1 - y0) * (x1 - x0),
        (forall|y: int, x: int| y0 <= y < y1 && x0 <= x < x1 ==> !#[trigger] p(y, x))
            ==> count_rect(p, y0, y1, x0, x1) == 0,
    decreases y1 - y0,
{
    if y0 < y1 {
        lemma_count_rect_bounds(p, y0, y1 - 1, x0, x1);
        lemma_count_row_bounds(p, y1 - 1, x0, x1);
        assert((y1 - y0) * (x1 - x0) == (y1 - 1 - y0) * (x1 - x0) + (x1 - x0))
            by (nonlinear_arith);
    } else {
        assert((y1 - y0) * (x1 - x0) == 0) by (nonlinear_arith)
            requires
                y1 - y0 == 0,
        ;
    }
}

/// Where two predicates differ in one cell of a rectangle only, their counts
/// differ by that cell.
pub proof fn lemma_count_rect_set(
    p: spec_fn(int, int) -> bool,
    q: spec_fn(int, int) -> bool,
    y0: int,
    y1: int,
    x0: int,
    x1: int,
    y: int,
    x: int,
)
    requires
        y0 <= y < y1,
        x0 <= x < x1,
        forall|j: int, i: int|
            y0 <= j < y1 && x0 <= i < x1 && !(j == y && i == x) ==> #[trigger] p(j, i) == q(j, i),
    ensures
        count_rect(q, y0, y1, x0, x1) + one_if(p(y, x)) == count_rect(p, y0, y1, x0, x1) + one_if(
            q(y, x),
        ),
    decreases y1 - y0,
{
    if y == y1 - 1 {
        lemma_count_rect_eq(p, q, y0, y1 - 1, x0, x1);
        lemma_count_row_set(p, q, y, x0, x1, x);
    } else {
        lemma_count_rect_set(p, q, y0, y1 - 1, x0, x1, y, x);
        lemma_count_row_eq(p, q, y1 - 1, x0, x1);
    }
}

/// Where every cell of a rectangle satisfies `r` exactly if it satisfies one
/// of `p` and `q`, and none satisfies both, the counts add up.
pub proof fn lemma_count_rect_sum(
    p: spec_fn(int, int) -> bool,
    q: spec_fn(int, int) -> bool,
    r: spec_fn(int, int) -> bool,
    y0: int,
    y1: int,
    x0: int,
    x1: int,
)
    requires
        forall|y: int, x: int|
            y0 <= y < y1 && x0 <= x < x1 ==> (#[trigger] r(y, x) == (p(y, x) || q(y, x))) && !(p(
                y,
                x,
            ) && q(y, x)),
    ensures
        count_rect(r, y0, y1, x0, x1) == count_rect(p, y0, y1, x0, x1) + count_rect(
            q,
            y0,
            y1,
            x0,
            x1,
        ),
    decreases y1 - y0,
{
    if y0 < y1 {
        lemma_count_rect_sum(p, q, r, y0, y1 - 1, x0, x1);
        lemma_count_row_sum(p, q, r, y1 - 1, x0, x1);
    }
}

/// A rectangle in which exactly one cell is a hit counts one.
pub proof fn lemma_count_rect_one(
    p: spec_fn(int, int) -> bool,
    y0: int,
    y1: int,
    x0: int,
    x1: int,
    y: int,
    x: int,
)
    requires
        y0 <= y < y1,
        x0 <= x < x1,
        p(y, x),
        forall|j: int, i: int|
            y0 <= j < y1 && x0 <= i < x1 && !(j == y && i == x) ==> !#[trigger] p(j, i),
    ensures
        count_rect(p, y0, y1, x0, x1) == 1,
{
    let none = |j: int, i: int| false;
    lemma_count_rect_bounds(none, y0, y1, x0, x1);
    lemma_count_rect_set(none, p, y0, y1, x0, x1, y, x);
}

} // verus!
