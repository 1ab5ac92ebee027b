//! The progression controller: whether the current level is cleared, where
//! it lies, and which objects of the previous level still wait to be
//! deleted.
//!
//! The controller decides; its caller counts the enemies, reads the events
//! and carries out what the controller returns.

use crate::config::LevelConfig;
use crate::generator::{generate_level, generated_level};
use crate::grid::{Door, Grid};
use crate::spawner::{
    level_placements, spawn_level, spawn_level_sun, spec_next_translation, LightColor, Placement,
    WorldPoint,
};
use rand::rngs::StdRng;
use vstd::prelude::*;

verus! {

/// Which animation of a door has come to its end.
#[derive(Debug, Clone, Copy, PartialEq, Eq, Structural)]
pub enum DoorAnimationType {
    Open,
    Close,
}

/// The state of the progression, one for a whole session.
pub struct LevelState {
    finished: bool,
    enemies_seen: bool,
    translation: WorldPoint,
    old_level_objects: Vec<u64>,
}

/// The state of the progression as a value.
pub struct LevelStateView {
    /// The current level is cleared, and this was made known.
    pub finished: bool,
    /// Some tick of the current level saw an enemy.
    pub enemies_seen: bool,
    /// Where the current level lies.
    pub translation: WorldPoint,
    /// The objects of the previous level that wait for the door to close.
    pub old_level_objects: Seq<u64>,
}

impl View for LevelState {
    type V = LevelStateView;

    closed spec fn view(&self) -> LevelStateView {
        LevelStateView {
            finished: self.finished,
            enemies_seen: self.enemies_seen,
            translation: self.translation,
            old_level_objects: self.old_level_objects@,
        }
    }
}

/// A new level, ready to be put into the world.
pub struct LevelSpawn {
    /// The grid of the level.
    pub grid: Grid,
    /// What to put into the world, in this order.
    pub placements: Vec<Placement>,
    /// The colour of the level's sunlight.
    pub sun: LightColor,
}

/// The state at the start of a session: no level cleared, no enemy seen,
/// the first level at the origin, nothing to delete.
pub open spec fn initial_state() -> LevelStateView {
    LevelStateView {
        finished: false,
        enemies_seen: false,
        translation: WorldPoint { x: 0, y: 0, z: 0 },
        old_level_objects: Seq::empty(),
    }
}

/// One tick of progress. A level that started in this tick is not cleared,
/// and no enemy of it was seen before. The tick then notes whether it sees an
/// enemy. If it sees none, an earlier tick of this level saw one, and the
/// level is not yet marked as cleared, it is marked, and the second
/// component says to make it known.
pub open spec fn progress_step(s: LevelStateView, level_started: bool, remaining_enemies: int) -> (
    LevelStateView,
    bool,
) {
    let finished = s.finished && !level_started;
    let seen_before = s.enemies_seen && !level_started;
    if remaining_enemies == 0 && seen_before && !finished {
        (LevelStateView { finished: true, enemies_seen: true, ..s }, true)
    } else {
        (
            LevelStateView {
                finished,
                enemies_seen: seen_before || remaining_enemies > 0,
                ..s
            },
            false,
        )
    }
}

/// A level switch: the objects of the level that is left wait to be deleted,
/// and the current level is the next one in the direction of the exit.
pub open spec fn switch_step(
    s: LevelStateView,
    config: LevelConfig,
    exit_door: Door,
    level_objects: Seq<u64>,
) -> LevelStateView {
    LevelStateView {
        finished: s.finished,
        enemies_seen: s.enemies_seen,
        translation: spec_next_translation(config, s.translation, Some(exit_door)),
        old_level_objects: level_objects,
    }
}

/// The end of a door animation: after a door has closed, the waiting objects
/// are deleted, all at once; after a door has opened, nothing happens. The
/// second component holds the objects to delete.
pub open spec fn teardown_step(s: LevelStateView, animation_type: DoorAnimationType) -> (
    LevelStateView,
    Seq<u64>,
) {
    match animation_type {
        DoorAnimationType::Open => (s, Seq::empty()),
        DoorAnimationType::Close => (
            LevelStateView { old_level_objects: Seq::empty(), ..s },
            s.old_level_objects,
        ),
    }
}

impl LevelState {
    /// The state at the start of a session.
    pub fn new() -> (state: LevelState)
        ensures
            state@ == initial_state(),
    {
        LevelState {
            finished: false,
            enemies_seen: false,
            translation: WorldPoint { x: 0, y: 0, z: 0 },
            old_level_objects: Vec::new(),
        }
    }

    /// Whether the current level is marked as cleared.
    pub fn finished(&self) -> (finished: bool)
        ensures
            finished == self@.finished,
    {
        self.finished
    }

    /// Where the current level lies.
    pub fn translation(&self) -> (translation: WorldPoint)
        ensures
            translation == self@.translation,
    {
        self.translation
    }

    /// The objects of the previous level that wait to be deleted.
    pub fn old_level_objects(&self) -> (objects: &Vec<u64>)
        ensures
            objects@ == self@.old_level_objects,
    {
        &self.old_level_objects
    }

    /// Whether some tick of the current level saw an enemy.
    pub fn enemies_seen(&self) -> (seen: bool)
        ensures
            seen == self@.enemies_seen,
    {
        self.enemies_seen
    }

    /// One tick of progress. `level_started` says whether a level started
    /// since the last tick, `remaining_enemies` how many enemies are in the
    /// world. Returns whether to make known that the level is finished: that
    /// is so exactly if no enemy remains, an earlier tick of this level saw
    /// one, and the level was not yet marked as cleared.
    pub fn level_progress(&mut self, level_started: bool, remaining_enemies: usize) -> (notify:
        bool)
        ensures
            final(self)@ == progress_step(old(self)@, level_started, remaining_enemies as int).0,
            notify == progress_step(old(self)@, level_started, remaining_enemies as int).1,
            notify ==> remaining_enemies == 0 && old(self)@.enemies_seen && !level_started
                && final(self)@.finished,
    {
        if level_started {
            self.finished = false;
            self.enemies_seen = false;
        }
        if remaining_enemies == 0 && self.enemies_seen && !self.finished {
            self.finished = true;
            true
        } else {
            if remaining_enemies > 0 {
                self.enemies_seen = true;
            }
            false
        }
    }

    /// Generates the first level of a session, the tutorial level, where the
    /// state says the current level lies. The state stays as it is.
    pub fn spawn_initial_level(&self, config: &LevelConfig, rng: &mut StdRng) -> (spawned:
        LevelSpawn)
        requires
            config.wf(),
            config.grid_size >= 7,
            self@.translation.within_limit(),
        ensures
            spawned.grid.wf(),
            spawned.grid.spec_size() == config.grid_size,
            generated_level(spawned.grid@, *config, None, true),
            spawned.placements@ == level_placements(*config, spawned.grid@, self@.translation),
    {
        let grid = generate_level(config, None, true, rng);
        let (placements, _) = spawn_level(config, &grid, self.translation, None);
        let sun = spawn_level_sun(rng);
        LevelSpawn { grid, placements, sun }
    }

    /// A level switch through the door `exit_door`. `level_objects` are the
    /// objects that make up the level that is left.
    ///
    /// Generates the next level and lists its placements, one level further
    /// in the direction of the exit. Nothing is deleted: the objects of the
    /// level that is left are kept in the state until a door has closed.
    /// Switches must not overlap: no batch may still be waiting.
    pub fn level_switch(
        &mut self,
        config: &LevelConfig,
        exit_door: Door,
        level_objects: Vec<u64>,
        rng: &mut StdRng,
    ) -> (spawned: LevelSpawn)
        requires
            config.wf(),
            exit_door.grid_pos < config.grid_size,
            old(self)@.translation.within_limit(),
            old(self)@.old_level_objects.len() == 0,
        ensures
            final(self)@ == switch_step(old(self)@, *config, exit_door, level_objects@),
            spawned.grid.wf(),
            spawned.grid.spec_size() == config.grid_size,
            generated_level(spawned.grid@, *config, Some(exit_door), false),
            spawned.placements@ == level_placements(
                *config,
                spawned.grid@,
                final(self)@.translation,
            ),
    {
        let grid = generate_level(config, Some(exit_door), false, rng);
        let (placements, new_translation) = spawn_level(
            config,
            &grid,
            self.translation,
            Some(exit_door),
        );
        let sun = spawn_level_sun(rng);
        self.translation = new_translation;
        self.old_level_objects = level_objects;
        LevelSpawn { grid, placements, sun }
    }

    /// The end of a door animation. Returns the objects to delete: after a
    /// door has closed, all that were waiting, which the state then forgets;
    /// after a door has opened, none.
    pub fn level_delete_old(&mut self, animation_type: DoorAnimationType) -> (deleted: Vec<u64>)
        ensures
            final(self)@ == teardown_step(old(self)@, animation_type).0,
            deleted@ == teardown_step(old(self)@, animation_type).1,
            animation_type == DoorAnimationType::Open ==> final(self)@ == old(self)@
                && deleted@.len() == 0,
    {
        let mut deleted: Vec<u64> = Vec::new();
        match animation_type {
            DoorAnimationType::Open => {},
            DoorAnimationType::Close => {
                std::mem::swap(&mut deleted, &mut self.old_level_objects);
            },
        }
        deleted
    }
}

/// What one tick tells the controller.
pub struct Tick {
    /// A level started since the last tick.
    pub level_started: bool,
    /// The enemies in the world.
    pub remaining_enemies: usize,
}

/// The state after the ticks `ticks`, one after the other.
pub open spec fn after_ticks(s: LevelStateView, ticks: Seq<Tick>) -> LevelStateView
    decreases ticks.len(),
{
    if ticks.len() == 0 {
        s
    } else {
        progress_step(
            after_ticks(s, ticks.drop_last()),
            ticks.last().level_started,
            ticks.last().remaining_enemies as int,
        ).0
    }
}

/// How often the ticks `ticks` make known that a level is finished.
pub open spec fn notifications(s: LevelStateView, ticks: Seq<Tick>) -> nat
    decreases ticks.len(),
{
    if ticks.len() == 0 {
        0
    } else {
        let fired = progress_step(
            after_ticks(s, ticks.drop_last()),
            ticks.last().level_started,
            ticks.last().remaining_enemies as int,
        ).1;
        notifications(s, ticks.drop_last()) + (if fired {
            1nat
        } else {
            0nat
        })
    }
}

/// Some tick of `ticks` sees no enemy.
pub open spec fn some_tick_clear(ticks: Seq<Tick>) -> bool {
    exists|k: int| 0 <= k < ticks.len() && (#[trigger] ticks[k]).remaining_enemies == 0
}

/// Some tick of `ticks` sees an enemy.
pub open spec fn some_tick_armed(ticks: Seq<Tick>) -> bool {
    exists|j: int| 0 <= j < ticks.len() && (#[trigger] ticks[j]).remaining_enemies > 0
}

/// The count of enemies goes from above zero to zero: some tick of `ticks`
/// sees an enemy, and a later one sees none.
pub open spec fn cleared_after_seen(ticks: Seq<Tick>) -> bool {
    exists|j: int, k: int|
        0 <= j < k < ticks.len() && (#[trigger] ticks[j]).remaining_enemies > 0 && (
        #[trigger] ticks[k]).remaining_enemies == 0
}

/// How the three questions about `ticks` follow from those about all its
/// ticks but the last.
proof fn lemma_last_tick(ticks: Seq<Tick>)
    requires
        ticks.len() > 0,
    ensures
        some_tick_clear(ticks) == (some_tick_clear(ticks.drop_last())
            || ticks.last().remaining_enemies == 0),
        some_tick_armed(ticks) == (some_tick_armed(ticks.drop_last())
            || ticks.last().remaining_enemies > 0),
        cleared_after_seen(ticks) == (cleared_after_seen(ticks.drop_last()) || (some_tick_armed(
            ticks.drop_last(),
        ) && ticks.last().remaining_enemies == 0)),
{
    let head = ticks.drop_last();
    let last = ticks.last();
    let end = ticks.len() - 1;
    assert(last == ticks[end]);
    assert forall|k: int| 0 <= k < head.len() implies #[trigger] head[k] == ticks[k] by {}
    if some_tick_clear(head) {
        let k = choose|k: int| 0 <= k < head.len() && (#[trigger] head[k]).remaining_enemies == 0;
        assert(ticks[k].remaining_enemies == 0);
    }
    if some_tick_clear(ticks) {
        let k = choose|k: int| 0 <= k < ticks.len() && (#[trigger] ticks[k]).remaining_enemies == 0;
        if k < end {
            assert(head[k].remaining_enemies == 0);
        }
    }
    if last.remaining_enemies == 0 {
        assert(ticks[end].remaining_enemies == 0);
    }
    if some_tick_armed(head) {
        let j = choose|j: int| 0 <= j < head.len() && (#[trigger] head[j]).remaining_enemies > 0;
        assert(ticks[j].remaining_enemies > 0);
        if last.remaining_enemies == 0 {
            assert(0 <= j < end < ticks.len() && ticks[j].remaining_enemies > 0
                && ticks[end].remaining_enemies == 0);
        }
    }
    if some_tick_armed(ticks) {
        let j = choose|j: int| 0 <= j < ticks.len() && (#[trigger] ticks[j]).remaining_enemies > 0;
        if j < end {
            assert(head[j].remaining_enemies > 0);
        }
    }
    if last.remaining_enemies > 0 {
        assert(ticks[end].remaining_enemies > 0);
    }
    if cleared_after_seen(head) {
        let (j, k) = choose|j: int, k: int|
            0 <= j < k < head.len() && (#[trigger] head[j]).remaining_enemies > 0 && (
            #[trigger] head[k]).remaining_enemies == 0;
        assert(0 <= j < k < ticks.len() && ticks[j].remaining_enemies > 0
            && ticks[k].remaining_enemies == 0);
    }
    if cleared_after_seen(ticks) {
        let (j, k) = choose|j: int, k: int|
            0 <= j < k < ticks.len() && (#[trigger] ticks[j]).remaining_enemies > 0 && (
            #[trigger] ticks[k]).remaining_enemies == 0;
        assert(head[j].remaining_enemies > 0);
        if k < end {
            assert(0 <= j < k < head.len() && head[j].remaining_enemies > 0
                && head[k].remaining_enemies == 0);
        }
    }
}

/// Over ticks of which none but the first may start a level: an enemy counts
/// as seen if one was seen before or some tick sees one; and the level is
/// made known as finished at most once, once exactly if it was open at the
/// first tick and the count of enemies went from above zero to zero.
proof fn lemma_notifications(s: LevelStateView, ticks: Seq<Tick>)
    requires
        ticks.len() > 0,
        forall|k: int| 1 <= k < ticks.len() ==> !(#[trigger] ticks[k]).level_started,
    ensures
        ({
            let seen = s.enemies_seen && !ticks[0].level_started;
            let finished = s.finished && !ticks[0].level_started;
            let cleared = (seen && some_tick_clear(ticks)) || cleared_after_seen(ticks);
            &&& after_ticks(s, ticks).enemies_seen == (seen || some_tick_armed(ticks))
            &&& after_ticks(s, ticks).finished == (finished || cleared)
            &&& notifications(s, ticks) == (if !finished && cleared {
                1nat
            } else {
                0nat
            })
        }),
    decreases ticks.len(),
{
    let head = ticks.drop_last();
    let last = ticks.last();
    lemma_last_tick(ticks);
    assert(last == ticks[ticks.len() - 1]);
    if head.len() == 0 {
        assert(after_ticks(s, head) == s);
        assert(notifications(s, head) == 0);
        assert(!some_tick_clear(head));
        assert(!some_tick_armed(head));
        assert(!cleared_after_seen(head));
        assert(last == ticks[0]);
    } else {
        assert(head[0] == ticks[0]);
        assert(!last.level_started);
        assert forall|k: int| 1 <= k < head.len() implies !(#[trigger] head[k]).level_started by {
            assert(head[k] == ticks[k]);
        }
        lemma_notifications(s, head);
    }
}

/// Once per level, and only after the enemies are gone: over the ticks of one
/// level, from the tick in which it started up to the tick before the next
/// level starts, the level is made known as finished exactly once if the
/// count of enemies goes from above zero to zero, and never otherwise.
pub proof fn lemma_finished_once_per_level(s: LevelStateView, ticks: Seq<Tick>)
    requires
        ticks.len() > 0,
        ticks[0].level_started,
        forall|k: int| 1 <= k < ticks.len() ==> !(#[trigger] ticks[k]).level_started,
    ensures
        notifications(s, ticks) == (if cleared_after_seen(ticks) {
            1nat
        } else {
            0nat
        }),
        after_ticks(s, ticks).finished == cleared_after_seen(ticks),
{
    lemma_notifications(s, ticks);
}

/// The state after the door animations `events` have ended, one after the
/// other.
pub open spec fn after_animations(s: LevelStateView, events: Seq<DoorAnimationType>)
    -> LevelStateView
    decreases events.len(),
{
    if events.len() == 0 {
        s
    } else {
        teardown_step(after_animations(s, events.drop_last()), events.last()).0
    }
}

/// All objects that were to be deleted as the door animations `events`
/// ended, in this order.
pub open spec fn deleted_by(s: LevelStateView, events: Seq<DoorAnimationType>) -> Seq<u64>
    decreases events.len(),
{
    if events.len() == 0 {
        Seq::empty()
    } else {
        deleted_by(s, events.drop_last()) + teardown_step(
            after_animations(s, events.drop_last()),
            events.last(),
        ).1
    }
}

/// Doors that open delete nothing: after any number of animations that all
/// were openings, the state is as it was and nothing was to be deleted.
pub proof fn lemma_opening_deletes_nothing(s: LevelStateView, events: Seq<DoorAnimationType>)
    requires
        forall|i: int| 0 <= i < events.len() ==> events[i] == DoorAnimationType::Open,
    ensures
        after_animations(s, events) == s,
        deleted_by(s, events) == Seq::<u64>::empty(),
    decreases events.len(),
{
    if events.len() > 0 {
        lemma_opening_deletes_nothing(s, events.drop_last());
    }
}

/// Teardown waits for the door to close: after a level switch, the objects
/// of the level that was left are deleted by no opening door, however many
/// there are, and by the first door that closes, all of them and nothing
/// else.
pub proof fn lemma_teardown_after_close(
    s: LevelStateView,
    config: LevelConfig,
    exit_door: Door,
    level_objects: Seq<u64>,
    openings: Seq<DoorAnimationType>,
)
    requires
        forall|i: int| 0 <= i < openings.len() ==> openings[i] == DoorAnimationType::Open,
    ensures
        deleted_by(switch_step(s, config, exit_door, level_objects), openings) == Seq::<
            u64,
        >::empty(),
        after_animations(
            switch_step(s, config, exit_door, level_objects),
            openings,
        ).old_level_objects == level_objects,
        deleted_by(
            switch_step(s, config, exit_door, level_objects),
            openings.push(DoorAnimationType::Close),
        ) == level_objects,
        after_animations(
            switch_step(s, config, exit_door, level_objects),
            openings.push(DoorAnimationType::Close),
        ).old_level_objects == Seq::<u64>::empty(),
{
    let switched = switch_step(s, config, exit_door, level_objects);
    lemma_opening_deletes_nothing(switched, openings);
    let events = openings.push(DoorAnimationType::Close);
    assert(events.drop_last() == openings);
    assert(events.last() == DoorAnimationType::Close);
    assert(Seq::<u64>::empty() + level_objects == level_objects);
}

} // verus!
