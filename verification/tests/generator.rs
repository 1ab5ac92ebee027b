use fridges_must_die::config::{
    LevelConfig, COLUMN_SIZE, FILL_PERCENT, GRID_SIZE, LEVEL_ENEMIES, LEVEL_WEAPON_SPAWNS,
    STRIP_LENGTH,
};
use fridges_must_die::generator::generate_level;
use fridges_must_die::grid::{CellType, Door, DoorState, DoorType, Grid};
use rand::rngs::StdRng;
use rand::SeedableRng;

fn small_config() -> LevelConfig {
    LevelConfig {
        grid_size: 8,
        column_size: 5,
        fill_percent: 10,
        strip_length: 3,
        weapon_spawns: 4,
        enemies: 1,
    }
}

fn count(grid: &Grid, kind: CellType) -> usize {
    let n = grid.size();
    let mut found = 0;
    for y in 0..n {
        for x in 0..n {
            if grid.get(y, x) == kind {
                found += 1;
            }
        }
    }
    found
}

fn doors_on(grid: &Grid, side: DoorType) -> Vec<(usize, Door)> {
    let n = grid.size();
    let mut doors = Vec::new();
    for i in 0..n {
        let cell = match side {
            DoorType::Top => grid.get(0, i),
            DoorType::Bottom => grid.get(n - 1, i),
            DoorType::Left => grid.get(i, 0),
            DoorType::Right => grid.get(i, n - 1),
        };
        if let CellType::Door(door) = cell {
            doors.push((i, door));
        }
    }
    doors
}

fn is_trapped(grid: &Grid, y: usize, x: usize) -> bool {
    grid.get(y, x) == CellType::Empty
        && grid.get(y - 1, x) == CellType::Column
        && grid.get(y + 1, x) == CellType::Column
        && grid.get(y, x + 1) == CellType::Column
        && grid.get(y, x - 1) == CellType::Column
}

const SIDES: [DoorType; 4] = [DoorType::Top, DoorType::Bottom, DoorType::Left, DoorType::Right];

#[test]
fn default_config_is_the_game() {
    let config = LevelConfig::default();
    assert_eq!(config.grid_size, GRID_SIZE);
    assert_eq!(config.grid_size, 40);
    assert_eq!(config.column_size, COLUMN_SIZE);
    assert_eq!(config.fill_percent, FILL_PERCENT);
    assert_eq!(config.strip_length, STRIP_LENGTH);
    assert_eq!(config.weapon_spawns, LEVEL_WEAPON_SPAWNS);
    assert_eq!(config.enemies, LEVEL_ENEMIES);
    // 40 * 40 * 2 / 100 = 32 cells, 32 / 3 = 10 strips
    assert_eq!(config.num_strips(), 10);
    assert!(config.has_room());
}

#[test]
fn configurations_need_an_interior_and_a_strip_length() {
    let config = LevelConfig::default();
    assert!(config.is_wf());
    assert!(LevelConfig { grid_size: 5, ..config }.is_wf());
    assert!(!LevelConfig { grid_size: 4, ..config }.is_wf());
    assert!(LevelConfig { grid_size: 4096, ..config }.is_wf());
    assert!(!LevelConfig { grid_size: 4097, ..config }.is_wf());
    assert!(!LevelConfig { strip_length: 0, ..config }.is_wf());
    assert!(LevelConfig { column_size: 1, ..config }.is_wf());
    assert!(!LevelConfig { column_size: 0, ..config }.is_wf());
    assert!(LevelConfig { fill_percent: 100, ..config }.is_wf());
    assert!(!LevelConfig { fill_percent: 101, ..config }.is_wf());
}

#[test]
fn strips_of_a_small_grid() {
    // 8 * 8 * 10 / 100 = 6 cells, 6 / 3 = 2 strips
    let config = small_config();
    assert_eq!(config.num_strips(), 2);
    // 2 * 2 * 4 + 4 + 1 = 21 > 16 cells of interior
    assert!(!config.has_room());
}

#[test]
fn room_is_counted_exactly() {
    // 20 * 20 * 5 / 100 = 20 cells, 20 / 4 = 5 strips of up to 5 columns:
    // 2 * 25 + 200 + 6 = 256 = 16 * 16
    let mut config = LevelConfig {
        grid_size: 20,
        column_size: 5,
        fill_percent: 5,
        strip_length: 4,
        weapon_spawns: 200,
        enemies: 6,
    };
    assert_eq!(config.num_strips(), 5);
    assert!(config.has_room());
    config.enemies = 7;
    assert!(!config.has_room());
}

#[test]
fn every_side_has_one_door() {
    let config = LevelConfig::default();
    for seed in 0..40 {
        let mut rng = StdRng::seed_from_u64(seed);
        let grid = generate_level(&config, None, false, &mut rng);
        let n = grid.size();
        assert_eq!(n, 40);
        for side in SIDES {
            let doors = doors_on(&grid, side);
            assert_eq!(doors.len(), 1);
            let (index, door) = doors[0];
            assert_eq!(door.door_type, side);
            assert_eq!(door.grid_pos, index);
            assert_eq!(door.door_state, DoorState::Locked);
            assert!(2 <= index && index < n - 2);
        }
        for i in 0..n {
            for cell in [grid.get(0, i), grid.get(n - 1, i), grid.get(i, 0), grid.get(i, n - 1)] {
                assert!(cell == CellType::Column || matches!(cell, CellType::Door(_)));
            }
        }
        assert_eq!(count(&grid, CellType::Column) + 4 >= 4 * (n - 1), true);
    }
}

#[test]
fn entry_door_mirrors_the_exit() {
    let config = LevelConfig::default();
    for (seed, side) in SIDES.iter().enumerate() {
        for pos in [2usize, 17, 37] {
            let exit = Door { door_type: *side, door_state: DoorState::Open, grid_pos: pos };
            let mut rng = StdRng::seed_from_u64(100 + seed as u64);
            let grid = generate_level(&config, Some(exit), false, &mut rng);
            let entry = side.opposite();
            let doors = doors_on(&grid, entry);
            assert_eq!(doors.len(), 1);
            assert_eq!(
                doors[0],
                (
                    pos,
                    Door { door_type: entry, door_state: DoorState::TemporaryOpen, grid_pos: pos }
                )
            );
            for other in SIDES {
                if other != entry {
                    let doors = doors_on(&grid, other);
                    assert_eq!(doors.len(), 1);
                    assert_eq!(doors[0].1.door_state, DoorState::Locked);
                    assert_eq!(doors[0].1.door_type, other);
                }
            }
            assert_eq!(count(&grid, CellType::Player), 0);
        }
    }
}

#[test]
fn opposite_sides() {
    assert_eq!(DoorType::Top.opposite(), DoorType::Bottom);
    assert_eq!(DoorType::Bottom.opposite(), DoorType::Top);
    assert_eq!(DoorType::Left.opposite(), DoorType::Right);
    assert_eq!(DoorType::Right.opposite(), DoorType::Left);
}

#[test]
fn first_level_has_the_player_below_the_top_door() {
    let config = LevelConfig::default();
    for seed in 0..40 {
        let mut rng = StdRng::seed_from_u64(seed);
        let grid = generate_level(&config, None, false, &mut rng);
        assert_eq!(count(&grid, CellType::Player), 1);
        let top = doors_on(&grid, DoorType::Top)[0].0;
        assert_eq!(grid.get(1, top), CellType::Player);
    }
}

#[test]
fn no_cell_is_trapped() {
    let config = LevelConfig {
        grid_size: 12,
        column_size: 5,
        fill_percent: 60,
        strip_length: 2,
        weapon_spawns: 2,
        enemies: 1,
    };
    for seed in 0..60 {
        let mut rng = StdRng::seed_from_u64(seed);
        let grid = generate_level(&config, None, false, &mut rng);
        let n = grid.size();
        for y in 2..n - 2 {
            for x in 2..n - 2 {
                assert!(!is_trapped(&grid, y, x));
            }
        }
    }
}

#[test]
fn weapons_and_enemies_are_counted() {
    let config = LevelConfig::default();
    for seed in 0..40 {
        let mut rng = StdRng::seed_from_u64(seed);
        let grid = generate_level(&config, None, false, &mut rng);
        assert_eq!(count(&grid, CellType::Weapon), 4);
        assert_eq!(count(&grid, CellType::Enemy), 1);
        let n = grid.size();
        for y in 0..n {
            for x in 0..n {
                let cell = grid.get(y, x);
                let interior = 2 <= y && y < n - 2 && 2 <= x && x < n - 2;
                if cell == CellType::Weapon || cell == CellType::Enemy {
                    assert!(interior);
                }
                if !interior && 0 < y && y < n - 1 && 0 < x && x < n - 1 {
                    assert!(cell == CellType::Empty || cell == CellType::Player);
                }
            }
        }
        // ten strips of at most four columns, and as many trapped cells
        let ring = 4 * (n - 1) - 4;
        assert!(count(&grid, CellType::Column) <= ring + 80);
    }
}

#[test]
fn a_crowded_grid_takes_what_fits() {
    // an interior of one cell, and five things to place in it
    let config = LevelConfig {
        grid_size: 5,
        column_size: 5,
        fill_percent: 0,
        strip_length: 3,
        weapon_spawns: 4,
        enemies: 1,
    };
    assert!(!config.has_room());
    let mut rng = StdRng::seed_from_u64(3);
    let grid = generate_level(&config, None, false, &mut rng);
    assert_eq!(grid.get(2, 2), CellType::Weapon);
    assert_eq!(count(&grid, CellType::Weapon), 1);
    assert_eq!(count(&grid, CellType::Enemy), 0);
}

#[test]
fn tutorial_level_is_a_pen() {
    let config = LevelConfig::default();
    for seed in 0..40 {
        let mut rng = StdRng::seed_from_u64(seed);
        let grid = generate_level(&config, None, true, &mut rng);
        let n = grid.size();
        assert_eq!(count(&grid, CellType::Weapon), 0);
        assert_eq!(count(&grid, CellType::Enemy), 0);
        assert_eq!(count(&grid, CellType::Player), 1);
        let top = doors_on(&grid, DoorType::Top);
        assert_eq!(top.len(), 1);
        let px = top[0].0;
        assert_eq!(grid.get(4, px), CellType::Player);
        for (y, x) in [(4, px - 2), (4, px + 2), (6, px)] {
            let ring = y == 0 || y == n - 1 || x == 0 || x == n - 1;
            let cell = grid.get(y, x);
            assert!(cell == CellType::Column || (ring && matches!(cell, CellType::Door(_))));
        }
        for y in 0..n {
            for x in 0..n {
                let border = y == 0 || y == n - 1 || x == 0 || x == n - 1;
                let cell = grid.get(y, x);
                if border {
                    assert!(cell == CellType::Column || matches!(cell, CellType::Door(_)));
                } else if x == px - 2 || x == px + 2 || y == 6 {
                    assert_eq!(cell, CellType::Column);
                } else if y == 4 && x == px {
                    assert_eq!(cell, CellType::Player);
                } else {
                    assert_eq!(cell, CellType::Empty);
                }
            }
        }
    }
}

#[test]
fn tutorial_level_keeps_its_four_doors() {
    // on a grid of seven cells a side the pen reaches the ring on all three
    // sides, whatever is drawn
    let small = LevelConfig { grid_size: 7, ..LevelConfig::default() };
    for config in [LevelConfig::default(), small] {
        for seed in 0..60 {
            let mut rng = StdRng::seed_from_u64(seed);
            let grid = generate_level(&config, None, true, &mut rng);
            let n = grid.size();
            for side in SIDES {
                let doors = doors_on(&grid, side);
                assert_eq!(doors.len(), 1);
                let (index, door) = doors[0];
                assert_eq!(door.door_type, side);
                assert_eq!(door.grid_pos, index);
                assert_eq!(door.door_state, DoorState::Locked);
                assert!(2 <= index && index < n - 2);
            }
            let px = doors_on(&grid, DoorType::Top)[0].0;
            assert_eq!(grid.get(4, px), CellType::Player);
            assert_eq!(count(&grid, CellType::Player), 1);
        }
    }
}

#[test]
fn small_grid_entered_from_below_a_top_exit() {
    let config = small_config();
    let exit = Door { door_type: DoorType::Top, door_state: DoorState::Open, grid_pos: 4 };
    for seed in 0..50 {
        let mut rng = StdRng::seed_from_u64(seed);
        let grid = generate_level(&config, Some(exit), false, &mut rng);
        assert_eq!(grid.size(), 8);
        assert_eq!(
            doors_on(&grid, DoorType::Bottom),
            vec![(
                4,
                Door {
                    door_type: DoorType::Bottom,
                    door_state: DoorState::TemporaryOpen,
                    grid_pos: 4
                }
            )]
        );
        assert_eq!(
            grid.get(7, 4),
            CellType::Door(Door {
                door_type: DoorType::Bottom,
                door_state: DoorState::TemporaryOpen,
                grid_pos: 4
            })
        );
        for side in [DoorType::Top, DoorType::Left, DoorType::Right] {
            let doors = doors_on(&grid, side);
            assert_eq!(doors.len(), 1);
            let (index, door) = doors[0];
            assert_eq!(door.door_state, DoorState::Locked);
            assert_eq!(door.door_type, side);
            assert_eq!(door.grid_pos, index);
            assert!(2 <= index && index < 6);
        }
        assert_eq!(count(&grid, CellType::Player), 0);
        assert_eq!(count(&grid, CellType::Weapon), 4);
        assert_eq!(count(&grid, CellType::Enemy), 1);
        // two strips of at most four columns, and the cells they trap
        assert!(count(&grid, CellType::Column) <= 24 + 16);
        for y in 2..6 {
            for x in 2..6 {
                assert!(!is_trapped(&grid, y, x));
            }
        }
    }
}

#[test]
fn draws_differ_between_seeds() {
    let config = LevelConfig::default();
    let mut tops = Vec::new();
    for seed in 0..30 {
        let mut rng = StdRng::seed_from_u64(seed);
        let grid = generate_level(&config, None, false, &mut rng);
        let top = doors_on(&grid, DoorType::Top)[0].0;
        if !tops.contains(&top) {
            tops.push(top);
        }
    }
    assert!(tops.len() > 3);
}

#[test]
fn one_seed_gives_one_level() {
    let config = LevelConfig::default();
    let mut first = StdRng::seed_from_u64(11);
    let mut second = StdRng::seed_from_u64(11);
    let a = generate_level(&config, None, false, &mut first);
    let b = generate_level(&config, None, false, &mut second);
    for y in 0..40 {
        for x in 0..40 {
            assert_eq!(a.get(y, x), b.get(y, x));
        }
    }
}
