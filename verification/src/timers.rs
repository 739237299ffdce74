//! The per-tick timer systems: cooldowns advance and detach once expired,
//! lifetimes advance and despawn their agent once expired, visibility
//! windows advance and hide their entity once expired.

use vstd::prelude::*;
use crate::agents::{Cooldown, DisruptorAgent, FlockAgent, VisibilityTimer};
use crate::llama::llamas_wf;
use crate::sheep::flock_wf;

verus! {

/// An optional cooldown after `delta` milliseconds: advanced, and
/// detached once it has run out.
pub open spec fn ticked_cooldown(c: Option<Cooldown>, delta: u64) -> Option<Cooldown> {
    match c {
        Option::None => Option::None,
        Option::Some(c0) => {
            let t = c0.advanced(delta);
            if t.is_finished() {
                Option::None
            } else {
                Option::Some(t)
            }
        },
    }
}

/// Advance every cooldown and jump override in both arenas by `delta`
/// milliseconds and detach the expired ones; nothing else changes.
pub fn cooldown_system(flock: &mut Vec<FlockAgent>, llamas: &mut Vec<DisruptorAgent>, delta: u64)
    requires
        flock_wf(old(flock)@),
        llamas_wf(old(llamas)@),
    ensures
        final(flock)@.len() == old(flock)@.len(),
        final(llamas)@.len() == old(llamas)@.len(),
        forall|i: int|
            0 <= i < old(flock)@.len() ==> final(flock)@[i] == (FlockAgent {
                cooldown: ticked_cooldown(old(flock)@[i].cooldown, delta),
                jump: ticked_cooldown(old(flock)@[i].jump, delta),
                ..old(flock)@[i]
            }),
        forall|i: int|
            0 <= i < old(llamas)@.len() ==> final(llamas)@[i] == (DisruptorAgent {
                cooldown: ticked_cooldown(old(llamas)@[i].cooldown, delta),
                ..old(llamas)@[i]
            }),
        flock_wf(final(flock)@),
        llamas_wf(final(llamas)@),
{
    let mut i: usize = 0;
    while i < flock.len()
        invariant
            i <= flock@.len(),
            flock@.len() == old(flock)@.len(),
            flock_wf(old(flock)@),
            forall|k: int| i <= k < flock@.len() ==> flock@[k] == old(flock)@[k],
            forall|k: int|
                0 <= k < i ==> flock@[k] == (FlockAgent {
                    cooldown: ticked_cooldown(old(flock)@[k].cooldown, delta),
                    jump: ticked_cooldown(old(flock)@[k].jump, delta),
                    ..old(flock)@[k]
                }),
            forall|k: int| 0 <= k < i ==> crate::agents::flock_agent_wf(#[trigger] flock@[k]),
        decreases flock@.len() - i,
    {
        let a = flock[i];
        proof {
            assert(crate::agents::flock_agent_wf(old(flock)@[i as int]));
        }
        let cooldown = tick_one(a.cooldown, delta);
        let jump = tick_one(a.jump, delta);
        let na = FlockAgent { cooldown, jump, ..a };
        flock.set(i, na);
        i = i + 1;
    }
    let mut l: usize = 0;
    while l < llamas.len()
        invariant
            l <= llamas@.len(),
            llamas@.len() == old(llamas)@.len(),
            llamas_wf(old(llamas)@),
            forall|k: int| l <= k < llamas@.len() ==> llamas@[k] == old(llamas)@[k],
            forall|k: int|
                0 <= k < l ==> llamas@[k] == (DisruptorAgent {
                    cooldown: ticked_cooldown(old(llamas)@[k].cooldown, delta),
                    ..old(llamas)@[k]
                }),
            forall|k: int|
                0 <= k < l ==> crate::agents::disruptor_agent_wf(#[trigger] llamas@[k]),
        decreases llamas@.len() - l,
    {
        let la = llamas[l];
        proof {
            assert(crate::agents::disruptor_agent_wf(old(llamas)@[l as int]));
        }
        let cooldown = tick_one(la.cooldown, delta);
        let nl = DisruptorAgent { cooldown, ..la };
        llamas.set(l, nl);
        l = l + 1;
    }
}

/// Advance one optional cooldown and drop it once finished.
fn tick_one(c: Option<Cooldown>, delta: u64) -> (r: Option<Cooldown>)
    requires
        c is Some ==> c->Some_0.wf(),
    ensures
        r == ticked_cooldown(c, delta),
        r is Some ==> r->Some_0.wf(),
{
    match c {
        Option::None => Option::None,
        Option::Some(mut c0) => {
            c0.tick(delta);
            if c0.finished() {
                Option::None
            } else {
                Option::Some(c0)
            }
        },
    }
}

/// An agent after its lifetime advanced by `delta` milliseconds: once the
/// lifetime runs out the agent is despawned and the timer detached.
pub open spec fn ticked_life(a: FlockAgent, delta: u64) -> FlockAgent {
    match a.life {
        Option::None => a,
        Option::Some(l0) => {
            let t = l0.advanced(delta);
            if t.timer().is_finished() {
                FlockAgent { life: Option::None, despawned: true, ..a }
            } else {
                FlockAgent { life: Option::Some(t), ..a }
            }
        },
    }
}

/// Advance every lifetime by `delta` milliseconds; agents whose lifetime
/// ran out are despawned.
pub fn lifetime_system(flock: &mut Vec<FlockAgent>, delta: u64)
    requires
        flock_wf(old(flock)@),
    ensures
        final(flock)@.len() == old(flock)@.len(),
        forall|i: int|
            0 <= i < old(flock)@.len() ==> final(flock)@[i] == ticked_life(old(flock)@[i], delta),
        flock_wf(final(flock)@),
{
    let mut i: usize = 0;
    while i < flock.len()
        invariant
            i <= flock@.len(),
            flock@.len() == old(flock)@.len(),
            flock_wf(old(flock)@),
            forall|k: int| i <= k < flock@.len() ==> flock@[k] == old(flock)@[k],
            forall|k: int| 0 <= k < i ==> flock@[k] == ticked_life(old(flock)@[k], delta),
            forall|k: int| 0 <= k < i ==> crate::agents::flock_agent_wf(#[trigger] flock@[k]),
        decreases flock@.len() - i,
    {
        let a = flock[i];
        proof {
            assert(crate::agents::flock_agent_wf(old(flock)@[i as int]));
        }
        match a.life {
            Option::Some(mut l0) => {
                l0.tick(delta);
                let na = if l0.finished() {
                    FlockAgent { life: Option::None, despawned: true, ..a }
                } else {
                    FlockAgent { life: Option::Some(l0), ..a }
                };
                flock.set(i, na);
            },
            Option::None => {},
        }
        i = i + 1;
    }
}

/// A visibility window after `delta` milliseconds: once it runs out the
/// entity is hidden and the timer detached; until then nothing changes.
pub open spec fn ticked_visibility(t: Option<VisibilityTimer>, visible: bool, delta: u64) -> (
    Option<VisibilityTimer>,
    bool,
) {
    match t {
        Option::None => (t, visible),
        Option::Some(t0) => {
            let n = t0.advanced(delta);
            if n.timer().is_finished() {
                (Option::None, false)
            } else {
                (Option::Some(n), visible)
            }
        },
    }
}

/// Advance one entity's visibility window; hide it once the window ends.
pub fn visibility_timer_system(
    timer: &mut Option<VisibilityTimer>,
    visible: &mut bool,
    delta: u64,
)
    requires
        *old(timer) is Some ==> old(timer)->Some_0.wf(),
    ensures
        (*final(timer), *final(visible)) == ticked_visibility(*old(timer), *old(visible), delta),
        *final(timer) is Some ==> final(timer)->Some_0.wf(),
{
    match *timer {
        Option::Some(mut t0) => {
            t0.tick(delta);
            if t0.finished() {
                *timer = Option::None;
                *visible = false;
            } else {
                *timer = Option::Some(t0);
            }
        },
        Option::None => {},
    }
}

} // verus!
