//! The discrete behavior state machine, driven once per tick by each
//! agent's velocity magnitude.
//!
//! `Dead` is terminal for this rule, and a timed `Jumping` override
//! suppresses it until the override expires; both of those states are
//! imposed externally and never entered from the velocity rule.

use vstd::prelude::*;
use crate::agents::{AnimalState, FlockAgent, HerderAgent};
use crate::sheep::{flock_wf, herders_wf};
use crate::vec2::{norm_sq, nsq, Vec2};

verus! {

/// Speed above which an agent walks (milli-units per second).
pub const WALK_THRESHOLD: i64 = 1000;

/// Speed above which an agent runs (milli-units per second).
pub const RUN_THRESHOLD: i64 = 10_000;

/// The state the velocity rule assigns for a squared speed. Comparing
/// squared magnitudes against squared thresholds is exact: for
/// nonnegative values, `|v| > t` holds exactly when `|v|^2 > t^2`.
pub open spec fn state_for_speed(speed_sq: int) -> AnimalState {
    if speed_sq > RUN_THRESHOLD * RUN_THRESHOLD {
        AnimalState::Running
    } else if speed_sq > WALK_THRESHOLD * WALK_THRESHOLD {
        AnimalState::Walking
    } else {
        AnimalState::Idle
    }
}

/// Whether the velocity rule applies to a flock agent this tick: it is
/// skipped for dead agents and while a jump override is active.
pub open spec fn velocity_rule_applies(a: FlockAgent) -> bool {
    a.state != AnimalState::Dead && a.jump is None
}

/// The velocity rule for one velocity, as executable code.
pub fn state_from_velocity(vel: Vec2) -> (r: AnimalState)
    requires
        crate::vec2::in_range(vel),
    ensures
        r == state_for_speed(nsq(vel)),
{
    let n = norm_sq(vel);
    if n > 100_000_000 {
        proof {
            assert(RUN_THRESHOLD * RUN_THRESHOLD == 100_000_000) by (nonlinear_arith);
        }
        AnimalState::Running
    } else if n > 1_000_000 {
        proof {
            assert(RUN_THRESHOLD * RUN_THRESHOLD == 100_000_000) by (nonlinear_arith);
            assert(WALK_THRESHOLD * WALK_THRESHOLD == 1_000_000) by (nonlinear_arith);
        }
        AnimalState::Walking
    } else {
        proof {
            assert(RUN_THRESHOLD * RUN_THRESHOLD == 100_000_000) by (nonlinear_arith);
            assert(WALK_THRESHOLD * WALK_THRESHOLD == 1_000_000) by (nonlinear_arith);
        }
        AnimalState::Idle
    }
}

/// One behavior-state tick over both arenas: exactly one transition
/// evaluation per non-dead agent, reading the post-integration velocity;
/// no other field changes.
pub fn update_state(flock: &mut Vec<FlockAgent>, herders: &mut Vec<HerderAgent>)
    requires
        flock_wf(old(flock)@),
        herders_wf(old(herders)@),
    ensures
        final(flock)@.len() == old(flock)@.len(),
        final(herders)@.len() == old(herders)@.len(),
        forall|i: int|
            0 <= i < old(flock)@.len() ==> final(flock)@[i] == (if velocity_rule_applies(
                old(flock)@[i],
            ) {
                FlockAgent { state: state_for_speed(nsq(old(flock)@[i].vel)), ..old(flock)@[i] }
            } else {
                old(flock)@[i]
            }),
        forall|i: int|
            0 <= i < old(herders)@.len() ==> final(herders)@[i] == (if old(herders)@[i].state
                != AnimalState::Dead {
                HerderAgent { state: state_for_speed(nsq(old(herders)@[i].vel)), ..old(herders)@[i] }
            } else {
                old(herders)@[i]
            }),
        flock_wf(final(flock)@),
        herders_wf(final(herders)@),
{
    let mut i: usize = 0;
    while i < flock.len()
        invariant
            i <= flock@.len(),
            flock@.len() == old(flock)@.len(),
            flock_wf(old(flock)@),
            forall|k: int|
                0 <= k < i ==> flock@[k] == (if velocity_rule_applies(old(flock)@[k]) {
                    FlockAgent { state: state_for_speed(nsq(old(flock)@[k].vel)), ..old(flock)@[k] }
                } else {
                    old(flock)@[k]
                }),
            forall|k: int| i <= k < flock@.len() ==> flock@[k] == old(flock)@[k],
        decreases flock@.len() - i,
    {
        let a = flock[i];
        if !a.state.is_dead() && a.jump.is_none() {
            let s = state_from_velocity(a.vel);
            let na = FlockAgent { state: s, ..a };
            flock.set(i, na);
        }
        i = i + 1;
    }
    let mut j: usize = 0;
    while j < herders.len()
        invariant
            j <= herders@.len(),
            herders@.len() == old(herders)@.len(),
            herders_wf(old(herders)@),
            forall|k: int|
                0 <= k < j ==> herders@[k] == (if old(herders)@[k].state != AnimalState::Dead {
                    HerderAgent {
                        state: state_for_speed(nsq(old(herders)@[k].vel)),
                        ..old(herders)@[k]
                    }
                } else {
                    old(herders)@[k]
                }),
            forall|k: int| j <= k < herders@.len() ==> herders@[k] == old(herders)@[k],
        decreases herders@.len() - j,
    {
        let a = herders[j];
        if !a.state.is_dead() {
            let s = state_from_velocity(a.vel);
            let na = HerderAgent { state: s, ..a };
            herders.set(j, na);
        }
        j = j + 1;
    }
    proof {
        assert forall|k: int| 0 <= k < flock@.len() implies crate::agents::flock_agent_wf(
            #[trigger] flock@[k],
        ) by {
            assert(crate::agents::flock_agent_wf(old(flock)@[k]));
        }
        assert forall|k: int| 0 <= k < herders@.len() implies crate::agents::herder_agent_wf(
            #[trigger] herders@[k],
        ) by {
            assert(crate::agents::herder_agent_wf(old(herders)@[k]));
        }
    }
}

/// The velocity rule's case split: zero magnitude is `Idle`, a magnitude
/// above `WALK_THRESHOLD` and at most `RUN_THRESHOLD` is `Walking`, one
/// above `RUN_THRESHOLD` is `Running`; and it never assigns `Dead` or
/// `Jumping`, so a dead agent stays dead under `update_state`.
pub proof fn lemma_velocity_rule(speed_sq: int)
    requires
        0 <= speed_sq,
    ensures
        speed_sq == 0 ==> state_for_speed(speed_sq) == AnimalState::Idle,
        speed_sq <= WALK_THRESHOLD * WALK_THRESHOLD ==> state_for_speed(speed_sq)
            == AnimalState::Idle,
        WALK_THRESHOLD * WALK_THRESHOLD < speed_sq <= RUN_THRESHOLD * RUN_THRESHOLD
            ==> state_for_speed(speed_sq) == AnimalState::Walking,
        RUN_THRESHOLD * RUN_THRESHOLD < speed_sq ==> state_for_speed(speed_sq)
            == AnimalState::Running,
        state_for_speed(speed_sq) != AnimalState::Dead,
        state_for_speed(speed_sq) != AnimalState::Jumping,
{
    assert(WALK_THRESHOLD * WALK_THRESHOLD == 1_000_000) by (nonlinear_arith);
    assert(RUN_THRESHOLD * RUN_THRESHOLD == 100_000_000) by (nonlinear_arith);
}

} // verus!
