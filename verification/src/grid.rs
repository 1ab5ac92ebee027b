//! The grid model: a square matrix of typed cells, and the doors that sit in
//! its outer ring.
//!
//! Rows are indexed by `y` from the top, columns by `x` from the left:
//! `grid@[y][x]` is the cell in row `y`, column `x`.

use vstd::prelude::*;

verus! {

/// The side of the level on which a door sits.
#[derive(Debug, Clone, Copy, PartialEq, Eq, Structural)]
pub enum DoorType {
    Top,
    Bottom,
    Left,
    Right,
}

/// What a door currently allows. The generator only ever hands out `Locked`
/// and `TemporaryOpen`; the other states are set by whoever animates the door.
#[derive(Debug, Clone, Copy, PartialEq, Eq, Structural)]
pub enum DoorState {
    Locked,
    TemporaryOpen,
    Unlocked,
    Open,
}

/// A door: its side, its state and its index along that side.
#[derive(Debug, Clone, Copy, PartialEq, Eq, Structural)]
pub struct Door {
    pub door_type: DoorType,
    pub door_state: DoorState,
    pub grid_pos: usize,
}

/// The content of one grid cell.
#[derive(Debug, Clone, Copy, PartialEq, Eq, Structural)]
pub enum CellType {
    Empty,
    Door(Door),
    Column,
    Weapon,
    Enemy,
    Player,
}

/// A cell of the grid by its row `y` and its column `x`.
#[derive(Debug, Clone, Copy, PartialEq, Eq, Structural)]
pub struct GridPos {
    pub y: usize,
    pub x: usize,
}

impl DoorType {
    /// The side facing this one.
    pub open spec fn spec_opposite(self) -> DoorType {
        match self {
            DoorType::Top => DoorType::Bottom,
            DoorType::Bottom => DoorType::Top,
            DoorType::Left => DoorType::Right,
            DoorType::Right => DoorType::Left,
        }
    }

    /// The side facing this one: a level entered through a door is left, on
    /// the other side of the wall, through the door of the opposite side.
    #[verifier::when_used_as_spec(spec_opposite)]
    pub fn opposite(self) -> (side: DoorType)
        ensures
            side == self.spec_opposite(),
    {
        match self {
            DoorType::Top => DoorType::Bottom,
            DoorType::Bottom => DoorType::Top,
            DoorType::Left => DoorType::Right,
            DoorType::Right => DoorType::Left,
        }
    }
}

/// A matrix of cells is square with side `n`.
pub open spec fn square(g: Seq<Seq<CellType>>, n: int) -> bool {
    &&& g.len() == n
    &&& forall|y: int| 0 <= y < n ==> (#[trigger] g[y]).len() == n
}

/// `(y, x)` lies in a square of side `n`.
pub open spec fn in_grid(n: int, y: int, x: int) -> bool {
    0 <= y < n && 0 <= x < n
}

/// `(y, x)` lies in the outer ring of a square of side `n`.
pub open spec fn on_border(n: int, y: int, x: int) -> bool {
    in_grid(n, y, x) && (y == 0 || y == n - 1 || x == 0 || x == n - 1)
}

/// `(y, x)` lies in the interior, the part of the square in which columns,
/// weapons and enemies are placed: two cells away from every edge.
pub open spec fn in_interior(n: int, y: int, x: int) -> bool {
    2 <= y < n - 2 && 2 <= x < n - 2
}

/// The matrix `g` with the cell at `(y, x)` replaced by `cell`.
pub open spec fn with_cell(g: Seq<Seq<CellType>>, y: int, x: int, cell: CellType) -> Seq<
    Seq<CellType>,
> {
    g.update(y, g[y].update(x, cell))
}

/// The grid cell in which a door of side `side` with index `pos` sits.
pub open spec fn door_cell(n: int, side: DoorType, pos: int) -> (int, int) {
    match side {
        DoorType::Top => (0, pos),
        DoorType::Bottom => (n - 1, pos),
        DoorType::Left => (pos, 0),
        DoorType::Right => (pos, n - 1),
    }
}

/// A square grid of cells.
pub struct Grid {
    cells: Vec<Vec<CellType>>,
}

impl View for Grid {
    type V = Seq<Seq<CellType>>;

    /// The rows of the grid, top row first.
    closed spec fn view(&self) -> Seq<Seq<CellType>> {
        Seq::new(self.cells@.len(), |y: int| self.cells@[y]@)
    }
}

impl Grid {
    /// The side of the grid.
    pub open spec fn spec_size(&self) -> nat {
        self@.len()
    }

    /// Every row is as long as the grid is high.
    pub open spec fn wf(&self) -> bool {
        square(self@, self@.len() as int)
    }

    /// A grid of side `size` with every cell `Empty`.
    pub fn new(size: usize) -> (grid: Grid)
        ensures
            grid.wf(),
            grid.spec_size() == size,
            forall|y: int, x: int| in_grid(size as int, y, x) ==> grid@[y][x] == CellType::Empty,
    {
        let mut cells: Vec<Vec<CellType>> = Vec::new();
        let mut y: usize = 0;
        while y < size
            invariant
                y <= size,
                cells@.len() == y,
                forall|j: int| 0 <= j < y ==> (#[trigger] cells@[j])@.len() == size,
                forall|j: int, i: int|
                    0 <= j < y && 0 <= i < size ==> (#[trigger] cells@[j]@[i]) == CellType::Empty,
            decreases size - y,
        {
            let mut row: Vec<CellType> = Vec::new();
            let mut x: usize = 0;
            while x < size
                invariant
                    x <= size,
                    row@.len() == x,
                    forall|i: int| 0 <= i < x ==> (#[trigger] row@[i]) == CellType::Empty,
                decreases size - x,
            {
                row.push(CellType::Empty);
                x += 1;
            }
            cells.push(row);
            y += 1;
        }
        Grid { cells }
    }

    /// The side of the grid.
    pub fn size(&self) -> (n: usize)
        ensures
            n == self.spec_size(),
    {
        self.cells.len()
    }

    /// The cell in row `y`, column `x`.
    pub fn get(&self, y: usize, x: usize) -> (cell: CellType)
        requires
            self.wf(),
            y < self.spec_size(),
            x < self.spec_size(),
        ensures
            cell == self@[y as int][x as int],
    {
        assert(self@[y as int] == self.cells@[y as int]@);
        self.cells[y][x]
    }

    /// Replaces the cell in row `y`, column `x`; every other cell stays.
    pub fn set(&mut self, y: usize, x: usize, cell: CellType)
        requires
            old(self).wf(),
            y < old(self).spec_size(),
            x < old(self).spec_size(),
        ensures
            final(self).wf(),
            final(self).spec_size() == old(self).spec_size(),
            final(self)@ == with_cell(old(self)@, y as int, x as int, cell),
    {
        assert(self@[y as int] == self.cells@[y as int]@);
        self.cells[y][x] = cell;
        proof {
            let before = old(self)@;
            let after = self@;
            assert forall|j: int| 0 <= j < after.len() implies #[trigger] after[j] == with_cell(
                before,
                y as int,
                x as int,
                cell,
            )[j] by {
                assert(before[j] == old(self).cells@[j]@);
            }
            assert(after =~= with_cell(before, y as int, x as int, cell));
        }
    }
}

} // verus!
