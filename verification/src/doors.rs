//! The four doors of a level: where they sit, which state they start in, and
//! how the door through which the player arrives is tied to the one through
//! which they left the level before.

use crate::grid::{in_grid, CellType, Door, DoorState, DoorType, Grid};
use vstd::prelude::*;

verus! {

/// The four doors of a level, one per side.
#[derive(Debug, Clone, Copy, PartialEq, Eq, Structural)]
pub struct LevelDoors {
    pub top: Door,
    pub bottom: Door,
    pub left: Door,
    pub right: Door,
}

impl LevelDoors {
    /// The door of the given side.
    pub open spec fn on(self, side: DoorType) -> Door {
        match side {
            DoorType::Top => self.top,
            DoorType::Bottom => self.bottom,
            DoorType::Left => self.left,
            DoorType::Right => self.right,
        }
    }

    /// Each door names the side that it is the door of, and its index lies
    /// on a side of length `n`.
    pub open spec fn wf(self, n: int) -> bool {
        &&& self.top.door_type == DoorType::Top
        &&& self.bottom.door_type == DoorType::Bottom
        &&& self.left.door_type == DoorType::Left
        &&& self.right.door_type == DoorType::Right
        &&& self.top.grid_pos < n
        &&& self.bottom.grid_pos < n
        &&& self.left.grid_pos < n
        &&& self.right.grid_pos < n
    }

    /// No door sits in a corner of the grid.
    pub open spec fn off_corners(self, n: int) -> bool {
        &&& 0 < self.top.grid_pos < n - 1
        &&& 0 < self.bottom.grid_pos < n - 1
        &&& 0 < self.left.grid_pos < n - 1
        &&& 0 < self.right.grid_pos < n - 1
    }
}

/// The door of side `side` in a level entered after leaving through
/// `previous`: the door opposite the exit takes over the exit's index and
/// starts `TemporaryOpen`; any other door is `Locked` at the index drawn for
/// it.
pub open spec fn door_for(previous: Option<Door>, side: DoorType, drawn: usize) -> Door {
    if previous is Some && previous->0.door_type.spec_opposite() == side {
        Door {
            door_type: side,
            door_state: DoorState::TemporaryOpen,
            grid_pos: previous->0.grid_pos,
        }
    } else {
        Door { door_type: side, door_state: DoorState::Locked, grid_pos: drawn }
    }
}

/// The doors of a level entered after leaving through `previous`, given the
/// index drawn for each side.
pub open spec fn level_doors(
    previous: Option<Door>,
    top: usize,
    bottom: usize,
    left: usize,
    right: usize,
) -> LevelDoors {
    LevelDoors {
        top: door_for(previous, DoorType::Top, top),
        bottom: door_for(previous, DoorType::Bottom, bottom),
        left: door_for(previous, DoorType::Left, left),
        right: door_for(previous, DoorType::Right, right),
    }
}

/// The door, if any, that `doors` puts into cell `(y, x)` of a grid of side
/// `n`. Where two doors claim one cell, the right door wins over the left,
/// the left over the bottom and the bottom over the top one.
pub open spec fn door_at(n: int, doors: LevelDoors, y: int, x: int) -> Option<Door> {
    if x == n - 1 && y == doors.right.grid_pos {
        Some(doors.right)
    } else if x == 0 && y == doors.left.grid_pos {
        Some(doors.left)
    } else if y == n - 1 && x == doors.bottom.grid_pos {
        Some(doors.bottom)
    } else if y == 0 && x == doors.top.grid_pos {
        Some(doors.top)
    } else {
        None
    }
}

/// What a cell of the outer ring holds once the doors are set into a ring of
/// columns.
pub open spec fn border_cell(n: int, doors: LevelDoors, y: int, x: int) -> CellType {
    match door_at(n, doors, y, x) {
        Some(door) => CellType::Door(door),
        None => CellType::Column,
    }
}

/// Decides the doors of a level from the index drawn for each side and the
/// door through which the previous level was left, if there was one.
pub fn choose_doors(
    previus_door: Option<Door>,
    top: usize,
    bottom: usize,
    left: usize,
    right: usize,
) -> (doors: LevelDoors)
    ensures
        doors == level_doors(previus_door, top, bottom, left, right),
{
    let mut door_top_pos = top;
    let mut door_top_state = DoorState::Locked;
    let mut door_bottom_pos = bottom;
    let mut door_bottom_state = DoorState::Locked;
    let mut door_left_pos = left;
    let mut door_left_state = DoorState::Locked;
    let mut door_right_pos = right;
    let mut door_right_state = DoorState::Locked;

    if let Some(door) = previus_door {
        match door.door_type {
            DoorType::Top => {
                door_bottom_pos = door.grid_pos;
                door_bottom_state = DoorState::TemporaryOpen;
            },
            DoorType::Bottom => {
                door_top_pos = door.grid_pos;
                door_top_state = DoorState::TemporaryOpen;
            },
            DoorType::Left => {
                door_right_pos = door.grid_pos;
                door_right_state = DoorState::TemporaryOpen;
            },
            DoorType::Right => {
                door_left_pos = door.grid_pos;
                door_left_state = DoorState::TemporaryOpen;
            },
        }
    }
    LevelDoors {
        top: Door {
            door_type: DoorType::Top,
            door_state: door_top_state,
            grid_pos: door_top_pos,
        },
        bottom: Door {
            door_type: DoorType::Bottom,
            door_state: door_bottom_state,
            grid_pos: door_bottom_pos,
        },
        left: Door {
            door_type: DoorType::Left,
            door_state: door_left_state,
            grid_pos: door_left_pos,
        },
        right: Door {
            door_type: DoorType::Right,
            door_state: door_right_state,
            grid_pos: door_right_pos,
        },
    }
}

/// Sets the four doors into the outer ring of the grid, top door first, then
/// bottom, left and right; every other cell stays.
pub fn place_doors(grid: &mut Grid, doors: LevelDoors)
    requires
        old(grid).wf(),
        old(grid).spec_size() >= 1,
        doors.wf(old(grid).spec_size() as int),
    ensures
        final(grid).wf(),
        final(grid).spec_size() == old(grid).spec_size(),
        forall|y: int, x: int|
            in_grid(old(grid).spec_size() as int, y, x) ==> #[trigger] final(grid)@[y][x] == (
            match door_at(old(grid).spec_size() as int, doors, y, x) {
                Some(door) => CellType::Door(door),
                None => old(grid)@[y][x],
            }),
{
    let n = grid.size();
    grid.set(0, doors.top.grid_pos, CellType::Door(doors.top));
    grid.set(n - 1, doors.bottom.grid_pos, CellType::Door(doors.bottom));
    grid.set(doors.left.grid_pos, 0, CellType::Door(doors.left));
    grid.set(doors.right.grid_pos, n - 1, CellType::Door(doors.right));
}

/// Door continuity: the level entered after leaving through the door `exit`
/// has, on the side opposite the exit's, a door with the exit's index that
/// starts `TemporaryOpen`; its other three doors are `Locked` at the indices
/// drawn for them.
pub proof fn lemma_door_continuity(exit: Door, top: usize, bottom: usize, left: usize, right: usize)
    ensures
        ({
            let doors = level_doors(Some(exit), top, bottom, left, right);
            let entry = exit.door_type.spec_opposite();
            &&& doors.on(entry) == Door {
                door_type: entry,
                door_state: DoorState::TemporaryOpen,
                grid_pos: exit.grid_pos,
            }
            &&& forall|side: DoorType|
                side != entry ==> #[trigger] doors.on(side) == Door {
                    door_type: side,
                    door_state: DoorState::Locked,
                    grid_pos: match side {
                        DoorType::Top => top,
                        DoorType::Bottom => bottom,
                        DoorType::Left => left,
                        DoorType::Right => right,
                    },
                }
        }),
{
}

} // verus!
