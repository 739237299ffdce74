//! Round progress: the score counters, the removal of flock members that
//! reach a goal or a hazard, and the win/loss resolution.
//!
//! The invariant `lost + saved <= total_sheep` holds after every removal
//! event, because each event turns exactly one live flock member into a
//! saved or lost one.

use vstd::prelude::*;
use crate::agents::{AnimalState, Cooldown, FlockAgent, LifeTime};
use crate::sheep::{flock_wf, zerov};

verus! {

/// How long a saved agent lingers (celebrating) before despawning (ms).
pub const GOAL_LINGER: u64 = 200;

/// How long a lost agent lingers (dying) before despawning (ms).
pub const TRAP_LINGER: u64 = 500;

/// The round's counters. Reset at round start; `saved` and `lost` are
/// each bumped exactly once per removal event.
#[derive(Clone, Copy, Debug, PartialEq, Eq, Structural)]
pub struct Score {
    /// Flock members that entered a hazard.
    pub lost: usize,
    /// Flock members that reached a goal.
    pub saved: usize,
    /// Flock members spawned this round.
    pub total_sheep: usize,
}

impl Score {
    /// Zero all counters (round start).
    pub fn reset(&mut self)
        ensures
            final(self).lost == 0,
            final(self).saved == 0,
            final(self).total_sheep == 0,
    {
        self.lost = 0;
        self.saved = 0;
        self.total_sheep = 0;
    }
}

impl Default for Score {
    /// A zeroed score.
    fn default() -> (r: Score)
        ensures
            r.lost == 0 && r.saved == 0 && r.total_sheep == 0,
    {
        Score { lost: 0, saved: 0, total_sheep: 0 }
    }
}

/// A flock member that can still be removed by a goal or hazard.
pub open spec fn live(a: FlockAgent) -> bool {
    a.in_flock && !a.despawned
}

/// Number of live flock members in the arena.
pub open spec fn flock_members(s: Seq<FlockAgent>) -> int
    decreases s.len(),
{
    if s.len() == 0 {
        0
    } else {
        flock_members(s.drop_last()) + if live(s.last()) {
            1int
        } else {
            0int
        }
    }
}

/// The member count is a count: nonnegative and at most the arena size.
pub proof fn lemma_members_bounds(s: Seq<FlockAgent>)
    ensures
        0 <= flock_members(s) <= s.len(),
    decreases s.len(),
{
    if s.len() > 0 {
        lemma_members_bounds(s.drop_last());
    }
}

/// A live member makes the count positive.
pub proof fn lemma_members_pos(s: Seq<FlockAgent>, i: int)
    requires
        0 <= i < s.len(),
        live(s[i]),
    ensures
        flock_members(s) >= 1,
    decreases s.len(),
{
    lemma_members_bounds(s.drop_last());
    if i < s.len() - 1 {
        assert(s.drop_last()[i] == s[i]);
        lemma_members_pos(s.drop_last(), i);
        lemma_members_bounds(s);
        assert(flock_members(s) >= flock_members(s.drop_last()));
    }
}

/// Replacing one live member by a non-live agent lowers the count by one.
pub proof fn lemma_members_remove(s: Seq<FlockAgent>, i: int, na: FlockAgent)
    requires
        0 <= i < s.len(),
        live(s[i]),
        !live(na),
    ensures
        flock_members(s.update(i, na)) == flock_members(s) - 1,
    decreases s.len(),
{
    let u = s.update(i, na);
    if i == s.len() - 1 {
        assert(u.drop_last() =~= s.drop_last());
        assert(u.last() == na);
    } else {
        assert(u.drop_last() =~= s.drop_last().update(i, na));
        assert(u.last() == s.last());
        assert(s.drop_last()[i] == s[i]);
        lemma_members_remove(s.drop_last(), i, na);
    }
}

/// The score's counters plus the live members never exceed the spawned
/// total; removal events preserve this.
pub open spec fn round_wf(score: Score, flock: Seq<FlockAgent>) -> bool {
    score.lost + score.saved + flock_members(flock) <= score.total_sheep
}

/// The counters never exceed the spawned total while the round invariant
/// holds; with no live member left, equality is reachable.
pub proof fn lemma_score_within_total(score: Score, flock: Seq<FlockAgent>)
    requires
        round_wf(score, flock),
    ensures
        score.lost + score.saved <= score.total_sheep,
{
    lemma_members_bounds(flock);
}

/// A saved agent: out of the flock, still, celebrating with a timed jump
/// override, despawning after `GOAL_LINGER`.
pub open spec fn saved_version(a: FlockAgent) -> FlockAgent {
    FlockAgent {
        vel: zerov(),
        state: AnimalState::Jumping,
        in_flock: false,
        life: Option::Some(LifeTime::spec_new(GOAL_LINGER)),
        jump: Option::Some(Cooldown::spec_new(GOAL_LINGER)),
        ..a
    }
}

/// A lost agent: out of the flock, still, dead, despawning after
/// `TRAP_LINGER`.
pub open spec fn lost_version(a: FlockAgent) -> FlockAgent {
    FlockAgent {
        vel: zerov(),
        state: AnimalState::Dead,
        in_flock: false,
        life: Option::Some(LifeTime::spec_new(TRAP_LINGER)),
        ..a
    }
}

/// The arena and counter after a batch of goal events, processed in
/// order; an id that is out of range or not a live member is skipped, so
/// each agent is counted at most once.
pub open spec fn apply_goal_events(flock: Seq<FlockAgent>, saved: int, evs: Seq<usize>) -> (
    Seq<FlockAgent>,
    int,
)
    decreases evs.len(),
{
    if evs.len() == 0 {
        (flock, saved)
    } else {
        let id = evs.first() as int;
        if 0 <= id < flock.len() && live(flock[id]) {
            apply_goal_events(flock.update(id, saved_version(flock[id])), saved + 1, evs.drop_first())
        } else {
            apply_goal_events(flock, saved, evs.drop_first())
        }
    }
}

/// The arena and counter after a batch of hazard events, processed in
/// order, skipping ids that are not live members.
pub open spec fn apply_trap_events(flock: Seq<FlockAgent>, lost: int, evs: Seq<usize>) -> (
    Seq<FlockAgent>,
    int,
)
    decreases evs.len(),
{
    if evs.len() == 0 {
        (flock, lost)
    } else {
        let id = evs.first() as int;
        if 0 <= id < flock.len() && live(flock[id]) {
            apply_trap_events(flock.update(id, lost_version(flock[id])), lost + 1, evs.drop_first())
        } else {
            apply_trap_events(flock, lost, evs.drop_first())
        }
    }
}

/// Remove every live flock member named by a goal-collision event: bump
/// `saved` once per removed member and mark it for despawn.
pub fn watch_goal_enter(flock: &mut Vec<FlockAgent>, score: &mut Score, entered: &Vec<usize>)
    requires
        flock_wf(old(flock)@),
        round_wf(*old(score), old(flock)@),
    ensures
        final(flock)@.len() == old(flock)@.len(),
        (final(flock)@, final(score).saved as int) == apply_goal_events(
            old(flock)@,
            old(score).saved as int,
            entered@,
        ),
        final(score).lost == old(score).lost,
        final(score).total_sheep == old(score).total_sheep,
        round_wf(*final(score), final(flock)@),
        flock_wf(final(flock)@),
{
    let ghost target = apply_goal_events(old(flock)@, old(score).saved as int, entered@);
    proof {
        assert(entered@.skip(0) =~= entered@);
    }
    let mut j: usize = 0;
    while j < entered.len()
        invariant
            j <= entered@.len(),
            flock@.len() == old(flock)@.len(),
            flock_wf(flock@),
            round_wf(*score, flock@),
            score.lost == old(score).lost,
            score.total_sheep == old(score).total_sheep,
            target == apply_goal_events(flock@, score.saved as int, entered@.skip(j as int)),
        decreases entered@.len() - j,
    {
        let id = entered[j];
        proof {
            assert(entered@.skip(j as int).first() == entered@[j as int]);
            assert(entered@.skip(j as int).drop_first() =~= entered@.skip(j + 1));
        }
        if id < flock.len() {
            let a = flock[id];
            if a.in_flock && !a.despawned {
                proof {
                    lemma_members_pos(flock@, id as int);
                }
                let na = FlockAgent {
                    vel: crate::vec2::Vec2 { x: 0, y: 0 },
                    state: AnimalState::Jumping,
                    in_flock: false,
                    life: Option::Some(LifeTime::new(GOAL_LINGER)),
                    jump: Option::Some(Cooldown::new(GOAL_LINGER)),
                    ..a
                };
                proof {
                    assert(na == saved_version(flock@[id as int]));
                    lemma_members_remove(flock@, id as int, na);
                }
                flock.set(id, na);
                score.saved = score.saved + 1;
            }
        }
        j = j + 1;
    }
    proof {
        assert(entered@.skip(entered@.len() as int) =~= Seq::<usize>::empty());
    }
}

/// Remove every live flock member named by a hazard-collision event: bump
/// `lost` once per removed member and mark it for despawn.
pub fn watch_trap_enter(flock: &mut Vec<FlockAgent>, score: &mut Score, entered: &Vec<usize>)
    requires
        flock_wf(old(flock)@),
        round_wf(*old(score), old(flock)@),
    ensures
        final(flock)@.len() == old(flock)@.len(),
        (final(flock)@, final(score).lost as int) == apply_trap_events(
            old(flock)@,
            old(score).lost as int,
            entered@,
        ),
        final(score).saved == old(score).saved,
        final(score).total_sheep == old(score).total_sheep,
        round_wf(*final(score), final(flock)@),
        flock_wf(final(flock)@),
{
    let ghost target = apply_trap_events(old(flock)@, old(score).lost as int, entered@);
    proof {
        assert(entered@.skip(0) =~= entered@);
    }
    let mut j: usize = 0;
    while j < entered.len()
        invariant
            j <= entered@.len(),
            flock@.len() == old(flock)@.len(),
            flock_wf(flock@),
            round_wf(*score, flock@),
            score.saved == old(score).saved,
            score.total_sheep == old(score).total_sheep,
            target == apply_trap_events(flock@, score.lost as int, entered@.skip(j as int)),
        decreases entered@.len() - j,
    {
        let id = entered[j];
        proof {
            assert(entered@.skip(j as int).first() == entered@[j as int]);
            assert(entered@.skip(j as int).drop_first() =~= entered@.skip(j + 1));
        }
        if id < flock.len() {
            let a = flock[id];
            if a.in_flock && !a.despawned {
                proof {
                    lemma_members_pos(flock@, id as int);
                }
                let na = FlockAgent {
                    vel: crate::vec2::Vec2 { x: 0, y: 0 },
                    state: AnimalState::Dead,
                    in_flock: false,
                    life: Option::Some(LifeTime::new(TRAP_LINGER)),
                    ..a
                };
                proof {
                    assert(na == lost_version(flock@[id as int]));
                    lemma_members_remove(flock@, id as int, na);
                }
                flock.set(id, na);
                score.lost = score.lost + 1;
            }
        }
        j = j + 1;
    }
    proof {
        assert(entered@.skip(entered@.len() as int) =~= Seq::<usize>::empty());
    }
}

/// Marker set once the round has resolved; while present the evaluator
/// fires nothing more.
#[derive(Clone, Copy, Debug, PartialEq, Eq, Structural)]
pub struct LevelOver;

/// The round was won: over `win_percent` of the flock was saved.
#[derive(Clone, Copy, Debug, PartialEq, Eq, Structural)]
pub struct LevelWon;

/// The round was lost: over `100 - win_percent` of the flock was lost.
#[derive(Clone, Copy, Debug, PartialEq, Eq, Structural)]
pub struct LevelLost;

/// A win-percent threshold clamped into `[0, 100]`.
pub open spec fn clamp_percent(w: int) -> int {
    if w < 0 {
        0
    } else if w > 100 {
        100
    } else {
        w
    }
}

/// Whether the score crosses the winning threshold: strictly more than
/// `win_percent` of the total was saved. Exact rational comparison.
pub open spec fn won(score: Score, win_percent: int) -> bool {
    score.total_sheep > 0 && score.saved * 100 > clamp_percent(win_percent) * score.total_sheep
}

/// Whether the score crosses the losing threshold: strictly more than
/// `100 - win_percent` of the total was lost.
pub open spec fn lost(score: Score, win_percent: int) -> bool {
    score.total_sheep > 0 && score.lost * 100 > (100 - clamp_percent(win_percent))
        * score.total_sheep
}

/// Resolve the round once per tick while the level is active.
///
/// Fires `LevelWon` when the saved share exceeds the threshold, else
/// `LevelLost` when the lost share exceeds its complement; at most one of
/// the two, and never again once `over` is set (idempotent per round). An
/// empty round (`total_sheep == 0`) never resolves.
pub fn check_progress(score: &Score, win_percent: i64, over: &mut Option<LevelOver>) -> (r: (
    Option<LevelWon>,
    Option<LevelLost>,
))
    ensures
        r.0 is Some <==> *old(over) is None && won(*score, win_percent as int),
        r.1 is Some <==> *old(over) is None && !won(*score, win_percent as int) && lost(
            *score,
            win_percent as int,
        ),
        (*final(over) is Some) == (*old(over) is Some || r.0 is Some || r.1 is Some),
{
    if over.is_some() {
        return (Option::None, Option::None);
    }
    let w: i64 = if win_percent < 0 {
        0
    } else if win_percent > 100 {
        100
    } else {
        win_percent
    };
    if score.total_sheep == 0 {
        return (Option::None, Option::None);
    }
    proof {
        assert((w as int) * (score.total_sheep as int) <= u128::MAX && ((100 - w) as int) * (
        score.total_sheep as int) <= u128::MAX) by (nonlinear_arith)
            requires
                0 <= w <= 100,
                0 <= score.total_sheep <= 0xFFFF_FFFF_FFFF_FFFF,
        ;
    }
    let saved_share = (score.saved as u128) * 100;
    let win_bar = (w as u128) * (score.total_sheep as u128);
    if saved_share > win_bar {
        *over = Option::Some(LevelOver);
        return (Option::Some(LevelWon), Option::None);
    }
    let lost_share = (score.lost as u128) * 100;
    let lose_bar = ((100 - w) as u128) * (score.total_sheep as u128);
    if lost_share > lose_bar {
        *over = Option::Some(LevelOver);
        return (Option::None, Option::Some(LevelLost));
    }
    (Option::None, Option::None)
}

} // verus!
