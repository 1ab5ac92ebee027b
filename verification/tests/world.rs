use fridges_must_die::config::LevelConfig;
use fridges_must_die::generator::generate_level;
use fridges_must_die::grid::{CellType, Door, DoorState, DoorType, Grid};
use fridges_must_die::movement::{
    resolve_pass, resolve_sweeps, MoveOutcome, PassAction, SweepStatus, MAX_PASSES,
};
use fridges_must_die::progression::{DoorAnimationType, LevelState};
use fridges_must_die::spawner::{
    cell_position, cell_spawn, light_color, next_translation, spawn_level, spawn_level_sun,
    LightColor, Placement, Spawn, WorldPoint, WORLD_LIMIT,
};
use rand::rngs::StdRng;
use rand::SeedableRng;

fn origin() -> WorldPoint {
    WorldPoint { x: 0, y: 0, z: 0 }
}

fn exit(side: DoorType) -> Door {
    Door { door_type: side, door_state: DoorState::Open, grid_pos: 7 }
}

#[test]
fn cell_centres_in_half_units() {
    let config = LevelConfig::default();
    // x = -100 + 5 * 0 + 2.5 = -97.5, y = 100 - 5 * 0 - 2.5 = 97.5, z = 5
    assert_eq!(cell_position(&config, origin(), 0, 0), WorldPoint { x: -195, y: 195, z: 10 });
    // x = -100 + 5 * 39 + 2.5 = 97.5, y = 100 - 5 * 39 - 2.5 = -97.5
    assert_eq!(cell_position(&config, origin(), 39, 39), WorldPoint { x: 195, y: -195, z: 10 });
    // x = -100 + 5 * 3 + 2.5 = -82.5, y = 100 - 5 * 10 - 2.5 = 47.5
    assert_eq!(cell_position(&config, origin(), 10, 3), WorldPoint { x: -165, y: 95, z: 10 });
    let moved = WorldPoint { x: 400, y: -800, z: 6 };
    assert_eq!(cell_position(&config, moved, 10, 3), WorldPoint { x: 235, y: -705, z: 16 });
}

#[test]
fn next_level_lies_beyond_the_exit() {
    let config = LevelConfig::default();
    let at = WorldPoint { x: 10, y: 20, z: 30 };
    // one level is 200 units, 400 half units
    assert_eq!(
        next_translation(&config, at, Some(exit(DoorType::Top))),
        WorldPoint { x: 10, y: 420, z: 30 }
    );
    assert_eq!(
        next_translation(&config, at, Some(exit(DoorType::Bottom))),
        WorldPoint { x: 10, y: -380, z: 30 }
    );
    assert_eq!(
        next_translation(&config, at, Some(exit(DoorType::Left))),
        WorldPoint { x: -390, y: 20, z: 30 }
    );
    assert_eq!(
        next_translation(&config, at, Some(exit(DoorType::Right))),
        WorldPoint { x: 410, y: 20, z: 30 }
    );
    assert_eq!(next_translation(&config, at, None), at);
}

#[test]
fn world_limit() {
    assert!(origin().is_within_limit());
    assert!(WorldPoint { x: WORLD_LIMIT, y: -WORLD_LIMIT, z: 0 }.is_within_limit());
    assert!(!WorldPoint { x: WORLD_LIMIT + 1, y: 0, z: 0 }.is_within_limit());
    assert!(!WorldPoint { x: 0, y: -WORLD_LIMIT - 1, z: 0 }.is_within_limit());
    assert!(!WorldPoint { x: 0, y: 0, z: i64::MAX }.is_within_limit());
}

#[test]
fn empty_cells_spawn_nothing() {
    let door = exit(DoorType::Left);
    assert_eq!(cell_spawn(CellType::Empty), None);
    assert_eq!(cell_spawn(CellType::Column), Some(Spawn::Column));
    assert_eq!(cell_spawn(CellType::Door(door)), Some(Spawn::Door(door)));
    assert_eq!(cell_spawn(CellType::Weapon), Some(Spawn::Weapon));
    assert_eq!(cell_spawn(CellType::Enemy), Some(Spawn::Enemy));
    assert_eq!(cell_spawn(CellType::Player), Some(Spawn::Player));
}

#[test]
fn placements_follow_the_rows() {
    let config = LevelConfig {
        grid_size: 5,
        column_size: 2,
        fill_percent: 0,
        strip_length: 1,
        weapon_spawns: 0,
        enemies: 0,
    };
    let mut grid = Grid::new(5);
    grid.set(3, 1, CellType::Enemy);
    grid.set(0, 4, CellType::Column);
    grid.set(3, 0, CellType::Player);
    grid.set(2, 2, CellType::Weapon);
    let (placements, translation) =
        spawn_level(&config, &grid, origin(), Some(exit(DoorType::Right)));
    // the level is 10 units wide: 20 half units
    assert_eq!(translation, WorldPoint { x: 20, y: 0, z: 0 });
    let at = |x: i64, y: i64| WorldPoint { x: 20 + x, y, z: 10 };
    assert_eq!(
        placements,
        vec![
            Placement { spawn: Spawn::Column, position: at(-10 + 16 + 2, 10 - 2) },
            Placement { spawn: Spawn::Weapon, position: at(-10 + 8 + 2, 10 - 8 - 2) },
            Placement { spawn: Spawn::Player, position: at(-10 + 2, 10 - 12 - 2) },
            Placement { spawn: Spawn::Enemy, position: at(-10 + 4 + 2, 10 - 12 - 2) },
            Placement { spawn: Spawn::Floor, position: translation },
        ]
    );
}

#[test]
fn empty_grid_spawns_the_floor() {
    let config = LevelConfig::default();
    let grid = Grid::new(40);
    let (placements, translation) = spawn_level(&config, &grid, origin(), None);
    assert_eq!(translation, origin());
    assert_eq!(placements, vec![Placement { spawn: Spawn::Floor, position: origin() }]);
}

#[test]
fn generated_level_spawns_every_cell() {
    let config = LevelConfig::default();
    let mut rng = StdRng::seed_from_u64(21);
    let grid = generate_level(&config, None, false, &mut rng);
    let (placements, translation) = spawn_level(&config, &grid, origin(), None);
    let mut expected = Vec::new();
    for y in 0..40 {
        for x in 0..40 {
            if let Some(spawn) = cell_spawn(grid.get(y, x)) {
                expected.push(Placement {
                    spawn,
                    position: cell_position(&config, translation, y, x),
                });
            }
        }
    }
    expected.push(Placement { spawn: Spawn::Floor, position: translation });
    assert_eq!(placements, expected);
    let of = |spawn: Spawn| placements.iter().filter(|p| p.spawn == spawn).count();
    assert_eq!(of(Spawn::Weapon), 4);
    assert_eq!(of(Spawn::Enemy), 1);
    assert_eq!(of(Spawn::Player), 1);
    assert_eq!(of(Spawn::Floor), 1);
}

#[test]
fn light_colours() {
    assert_eq!(light_color(0), LightColor::White);
    assert_eq!(light_color(1), LightColor::Blue);
    assert_eq!(light_color(2), LightColor::OrangeRed);
    let mut seen = Vec::new();
    for seed in 0..40 {
        let mut rng = StdRng::seed_from_u64(seed);
        let color = spawn_level_sun(&mut rng);
        if !seen.contains(&color) {
            seen.push(color);
        }
    }
    assert_eq!(seen.len(), 3);
}

#[test]
fn level_is_finished_once() {
    let mut state = LevelState::new();
    assert!(!state.finished());
    assert!(!state.enemies_seen());
    assert_eq!(state.translation(), origin());
    assert!(state.old_level_objects().is_empty());
    assert!(!state.level_progress(true, 3));
    assert!(state.enemies_seen());
    assert!(!state.level_progress(false, 1));
    assert!(!state.finished());
    assert!(state.level_progress(false, 0));
    assert!(state.finished());
    assert!(!state.level_progress(false, 0));
    assert!(!state.level_progress(false, 2));
    assert!(!state.level_progress(false, 0));
    assert!(state.finished());
}

#[test]
fn level_without_enemies_is_never_finished() {
    let mut state = LevelState::new();
    assert!(!state.level_progress(false, 0));
    assert!(!state.level_progress(true, 0));
    assert!(!state.level_progress(false, 0));
    assert!(!state.level_progress(false, 0));
    assert!(!state.finished());
    assert!(!state.enemies_seen());
}

#[test]
fn next_level_is_finished_anew() {
    let mut state = LevelState::new();
    assert!(!state.level_progress(true, 1));
    assert!(state.level_progress(false, 0));
    assert!(!state.level_progress(false, 0));
    // the enemies seen in the level before do not count for the next one
    assert!(!state.level_progress(true, 0));
    assert!(!state.finished());
    assert!(!state.enemies_seen());
    assert!(!state.level_progress(false, 0));
    assert!(!state.level_progress(false, 2));
    assert!(state.level_progress(false, 0));
    assert!(state.finished());
    // a level that starts while enemies are about is open again
    assert!(!state.level_progress(true, 2));
    assert!(!state.finished());
    assert!(state.level_progress(false, 0));
}

#[test]
fn old_level_waits_for_the_door_to_close() {
    let config = LevelConfig::default();
    let mut rng = StdRng::seed_from_u64(4);
    let mut state = LevelState::new();
    assert!(!state.level_progress(true, 1));
    assert!(state.level_progress(false, 0));
    let spawned = state.level_switch(&config, exit(DoorType::Top), vec![5, 9, 2], &mut rng);
    assert_eq!(state.old_level_objects(), &vec![5, 9, 2]);
    assert_eq!(state.translation(), WorldPoint { x: 0, y: 400, z: 0 });
    assert!(state.finished());
    assert_eq!(spawned.grid.size(), 40);
    assert_eq!(
        spawned.grid.get(39, 7),
        CellType::Door(Door {
            door_type: DoorType::Bottom,
            door_state: DoorState::TemporaryOpen,
            grid_pos: 7
        })
    );
    let (placements, translation) =
        spawn_level(&config, &spawned.grid, origin(), Some(exit(DoorType::Top)));
    assert_eq!(translation, state.translation());
    assert_eq!(spawned.placements, placements);

    assert_eq!(state.level_delete_old(DoorAnimationType::Open), Vec::<u64>::new());
    assert_eq!(state.level_delete_old(DoorAnimationType::Open), Vec::<u64>::new());
    assert_eq!(state.old_level_objects(), &vec![5, 9, 2]);
    assert_eq!(state.level_delete_old(DoorAnimationType::Close), vec![5, 9, 2]);
    assert!(state.old_level_objects().is_empty());
    assert_eq!(state.level_delete_old(DoorAnimationType::Close), Vec::<u64>::new());
    assert_eq!(state.translation(), WorldPoint { x: 0, y: 400, z: 0 });
}

#[test]
fn levels_tile_the_world() {
    let config = LevelConfig::default();
    let mut rng = StdRng::seed_from_u64(8);
    let mut state = LevelState::new();
    state.level_switch(&config, exit(DoorType::Right), vec![1], &mut rng);
    assert_eq!(state.level_delete_old(DoorAnimationType::Close), vec![1]);
    state.level_switch(&config, exit(DoorType::Bottom), vec![2, 3], &mut rng);
    assert_eq!(state.translation(), WorldPoint { x: 400, y: -400, z: 0 });
    assert_eq!(state.level_delete_old(DoorAnimationType::Open), Vec::<u64>::new());
    assert_eq!(state.level_delete_old(DoorAnimationType::Close), vec![2, 3]);
    state.level_switch(&config, exit(DoorType::Left), vec![4], &mut rng);
    assert_eq!(state.level_delete_old(DoorAnimationType::Close), vec![4]);
    assert_eq!(state.translation(), WorldPoint { x: 0, y: -400, z: 0 });
}

#[test]
fn first_level_is_the_tutorial() {
    let config = LevelConfig::default();
    let mut rng = StdRng::seed_from_u64(2);
    let state = LevelState::new();
    let spawned = state.spawn_initial_level(&config, &mut rng);
    assert_eq!(state.translation(), origin());
    let of = |spawn: Spawn| spawned.placements.iter().filter(|p| p.spawn == spawn).count();
    assert_eq!(of(Spawn::Player), 1);
    assert_eq!(of(Spawn::Weapon), 0);
    assert_eq!(of(Spawn::Enemy), 0);
    assert_eq!(spawned.placements.last().unwrap().spawn, Spawn::Floor);
    assert_eq!(spawned.placements.last().unwrap().position, origin());
    let player = spawned.placements.iter().find(|p| p.spawn == Spawn::Player).unwrap();
    // row 4: y = 100 - 5 * 4 - 2.5 = 77.5
    assert_eq!(player.position.y, 155);
    assert_eq!(player.position.z, 10);
}

#[test]
fn what_to_do_after_a_sweep() {
    assert_eq!(MAX_PASSES, 4);
    for pass in 0..6 {
        assert_eq!(resolve_pass(pass, SweepStatus::NoContact), PassAction::Commit);
        assert_eq!(resolve_pass(pass, SweepStatus::Penetrating), PassAction::Abort);
    }
    for pass in 0..3 {
        assert_eq!(resolve_pass(pass, SweepStatus::Converged), PassAction::Slide);
        assert_eq!(resolve_pass(pass, SweepStatus::Unresolved), PassAction::Retry);
    }
    assert_eq!(resolve_pass(3, SweepStatus::Converged), PassAction::Block);
    assert_eq!(resolve_pass(3, SweepStatus::Unresolved), PassAction::Commit);
}

#[test]
fn free_path_moves_unturned() {
    let end = resolve_sweeps(&vec![SweepStatus::NoContact]);
    assert_eq!(end, Some(MoveOutcome::Moved { slides: 0 }));
    let end = resolve_sweeps(&vec![SweepStatus::NoContact, SweepStatus::Penetrating]);
    assert_eq!(end, Some(MoveOutcome::Moved { slides: 0 }));
}

#[test]
fn blocked_path_does_not_move() {
    let end = resolve_sweeps(&vec![SweepStatus::Converged; 4]);
    assert_eq!(end, Some(MoveOutcome::Blocked));
    let end = resolve_sweeps(&vec![SweepStatus::Converged; 7]);
    assert_eq!(end, Some(MoveOutcome::Blocked));
}

#[test]
fn sliding_counts_the_turns() {
    let (converged, no_contact) = (SweepStatus::Converged, SweepStatus::NoContact);
    let (penetrating, unresolved) = (SweepStatus::Penetrating, SweepStatus::Unresolved);
    assert_eq!(
        resolve_sweeps(&vec![converged, no_contact]),
        Some(MoveOutcome::Moved { slides: 1 })
    );
    assert_eq!(
        resolve_sweeps(&vec![converged, converged, converged, no_contact]),
        Some(MoveOutcome::Moved { slides: 3 })
    );
    assert_eq!(
        resolve_sweeps(&vec![converged, unresolved, converged, unresolved]),
        Some(MoveOutcome::Moved { slides: 2 })
    );
    assert_eq!(resolve_sweeps(&vec![converged, penetrating]), Some(MoveOutcome::Aborted));
    assert_eq!(resolve_sweeps(&vec![penetrating]), Some(MoveOutcome::Aborted));
    assert_eq!(resolve_sweeps(&vec![unresolved; 4]), Some(MoveOutcome::Moved { slides: 0 }));
    assert_eq!(resolve_sweeps(&vec![converged, converged]), None);
    assert_eq!(resolve_sweeps(&vec![]), None);
}
