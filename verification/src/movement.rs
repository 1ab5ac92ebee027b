//! The pass control of the movement resolver.
//!
//! Each tick a body asks to be moved by some displacement. Its shape is
//! swept along the displacement; where the sweep hits a wall, the
//! displacement is turned to run along the wall and swept again, for up to
//! `MAX_PASSES` sweeps. The sweeps and the vectors are the caller's; what to
//! do after each sweep is decided here.

use vstd::prelude::*;

verus! {

/// The most sweeps made for one body in one tick.
pub const MAX_PASSES: u32 = 4;

/// What a sweep reports.
#[derive(Debug, Clone, Copy, PartialEq, Eq, Structural)]
pub enum SweepStatus {
    /// Nothing is in the way.
    NoContact,
    /// The shape comes to touch an obstacle, and the contact is known.
    Converged,
    /// The shape overlaps an obstacle before it moves.
    Penetrating,
    /// The sweep found an obstacle but could not settle the contact.
    Unresolved,
}

/// What to do after a sweep.
#[derive(Debug, Clone, Copy, PartialEq, Eq, Structural)]
pub enum PassAction {
    /// Stop, and move by the displacement that was swept.
    Commit,
    /// Turn the displacement to run along the wall that was hit, and sweep
    /// again.
    Slide,
    /// Stop, and do not move: the body is blocked.
    Block,
    /// Stop, and do not move: the body is inside an obstacle.
    Abort,
    /// Sweep again with the same displacement.
    Retry,
}

/// How a tick ends for a body.
#[derive(Debug, Clone, Copy, PartialEq, Eq, Structural)]
pub enum MoveOutcome {
    /// The body moves, by the displacement it asked for turned `slides` times
    /// to run along a wall.
    Moved { slides: u32 },
    /// The body stays: it was still stopped by a wall in the last sweep.
    Blocked,
    /// The body stays: it is inside an obstacle.
    Aborted,
}

/// What to do after sweep number `pass`, counted from 0, reported `status`.
pub open spec fn pass_action(pass: int, status: SweepStatus) -> PassAction {
    match status {
        SweepStatus::NoContact => PassAction::Commit,
        SweepStatus::Converged => if pass + 1 >= MAX_PASSES {
            PassAction::Block
        } else {
            PassAction::Slide
        },
        SweepStatus::Penetrating => PassAction::Abort,
        SweepStatus::Unresolved => if pass + 1 >= MAX_PASSES {
            PassAction::Commit
        } else {
            PassAction::Retry
        },
    }
}

/// Decides what to do after sweep number `pass`, counted from 0, reported
/// `status`.
///
/// Without contact the displacement stands. A settled contact turns the
/// displacement along the wall, but blocks the body in the last sweep.
/// Overlap ends the tick without motion. An unsettled contact is swept again,
/// and in the last sweep the displacement stands.
pub fn resolve_pass(pass: u32, status: SweepStatus) -> (action: PassAction)
    ensures
        action == pass_action(pass as int, status),
{
    let last = pass >= MAX_PASSES - 1;
    match status {
        SweepStatus::NoContact => PassAction::Commit,
        SweepStatus::Converged => {
            if last {
                PassAction::Block
            } else {
                PassAction::Slide
            }
        },
        SweepStatus::Penetrating => PassAction::Abort,
        SweepStatus::Unresolved => {
            if last {
                PassAction::Commit
            } else {
                PassAction::Retry
            }
        },
    }
}

/// How the tick ends if the sweeps from number `pass` on report `statuses`
/// in turn, after `slides` turns of the displacement; `None` if the reports
/// run out before the tick has ended.
pub open spec fn outcome_from(statuses: Seq<SweepStatus>, pass: int, slides: int) -> Option<
    MoveOutcome,
>
    decreases statuses.len(),
{
    if statuses.len() == 0 {
        None
    } else {
        match pass_action(pass, statuses[0]) {
            PassAction::Commit => Some(MoveOutcome::Moved { slides: slides as u32 }),
            PassAction::Slide => outcome_from(statuses.drop_first(), pass + 1, slides + 1),
            PassAction::Block => Some(MoveOutcome::Blocked),
            PassAction::Abort => Some(MoveOutcome::Aborted),
            PassAction::Retry => outcome_from(statuses.drop_first(), pass + 1, slides),
        }
    }
}

/// How the tick ends if the sweeps report `statuses` in turn.
pub open spec fn outcome(statuses: Seq<SweepStatus>) -> Option<MoveOutcome> {
    outcome_from(statuses, 0, 0)
}

/// Replays the reports of a tick's sweeps: how the tick ends if the sweeps
/// report `statuses` in turn, and `None` if they run out before it has
/// ended. Reports after the end of the tick are not read.
pub fn resolve_sweeps(statuses: &Vec<SweepStatus>) -> (end: Option<MoveOutcome>)
    ensures
        end == outcome(statuses@),
{
    let mut pass: u32 = 0;
    let mut slides: u32 = 0;
    assert(statuses@.skip(0) == statuses@);
    while (pass as usize) < statuses.len()
        invariant
            slides <= pass < MAX_PASSES,
            pass <= statuses@.len(),
            outcome(statuses@) == outcome_from(
                statuses@.skip(pass as int),
                pass as int,
                slides as int,
            ),
        decreases MAX_PASSES - pass,
    {
        let ghost rest = statuses@.skip(pass as int);
        assert(rest[0] == statuses@[pass as int]);
        assert(rest.drop_first() == statuses@.skip(pass + 1));
        match resolve_pass(pass, statuses[pass as usize]) {
            PassAction::Commit => {
                return Some(MoveOutcome::Moved { slides });
            },
            PassAction::Slide => {
                slides += 1;
            },
            PassAction::Block => {
                return Some(MoveOutcome::Blocked);
            },
            PassAction::Abort => {
                return Some(MoveOutcome::Aborted);
            },
            PassAction::Retry => {},
        }
        pass += 1;
    }
    None
}

/// A tick ends with the sweep of number `MAX_PASSES - 1` at the latest:
/// where the reports reach that far, there is an outcome, and a body that
/// moves has had its displacement turned fewer than `MAX_PASSES` times.
pub proof fn lemma_ends_within_passes(statuses: Seq<SweepStatus>, pass: int, slides: int)
    requires
        0 <= slides <= pass < MAX_PASSES,
    ensures
        pass + statuses.len() >= MAX_PASSES ==> outcome_from(statuses, pass, slides) is Some,
        outcome_from(statuses, pass, slides) matches Some(MoveOutcome::Moved { slides: turns })
            ==> turns < MAX_PASSES,
    decreases statuses.len(),
{
    if statuses.len() > 0 && pass + 1 < MAX_PASSES {
        lemma_ends_within_passes(statuses.drop_first(), pass + 1, slides);
        lemma_ends_within_passes(statuses.drop_first(), pass + 1, slides + 1);
    }
}

/// A free path: where the first sweep reports no contact, the body moves by
/// the displacement it asked for, unturned, whatever later sweeps would
/// report.
pub proof fn lemma_free_path(statuses: Seq<SweepStatus>)
    requires
        statuses.len() > 0,
        statuses[0] == SweepStatus::NoContact,
    ensures
        outcome(statuses) == Some(MoveOutcome::Moved { slides: 0 }),
{
}

/// A blocked path: where every sweep up to the last reports a settled
/// contact, the body does not move.
pub proof fn lemma_blocked_path(statuses: Seq<SweepStatus>)
    requires
        statuses.len() >= MAX_PASSES,
        forall|i: int| 0 <= i < MAX_PASSES ==> statuses[i] == SweepStatus::Converged,
    ensures
        outcome(statuses) == Some(MoveOutcome::Blocked),
{
    let s1 = statuses.drop_first();
    let s2 = s1.drop_first();
    let s3 = s2.drop_first();
    assert(s1[0] == statuses[1]);
    assert(s2[0] == statuses[2]);
    assert(s3[0] == statuses[3]);
    assert(outcome_from(s3, 3, 3) == Some(MoveOutcome::Blocked));
    assert(outcome_from(s2, 2, 2) == outcome_from(s3, 3, 3));
    assert(outcome_from(s1, 1, 1) == outcome_from(s2, 2, 2));
    assert(outcome_from(statuses, 0, 0) == outcome_from(s1, 1, 1));
}

} // verus!
