//! The disruptor's cooldown-gated area effect.
//!
//! While a disruptor is off cooldown it stomps: every flock member within
//! the stomp range that does not already carry an invulnerability cooldown
//! receives an outward impulse and a fresh cooldown, and the disruptor
//! re-arms with a jittered cooldown of its own. Without a resolved
//! behavior configuration the tick is a no-op.

use vstd::prelude::*;
use crate::agents::{Cooldown, DisruptorAgent, FlockAgent};
use crate::params::{behavior_wf, AnimalBehavior, STOMP_JITTER_MAX};
use crate::sheep::flock_wf;
use crate::spatial::dist_sq_between;
use crate::vec2::{
    diff_of, dist_sq, in_range, muldiv, muldiv_of, normalize_or_zero, unit_of, Vec2, SCALE,
};

verus! {

/// Invulnerability window attached to a stomped flock agent (ms).
pub const STOMP_GRACE: u64 = 500;

/// One outward impulse for the physics backend to apply.
#[derive(Clone, Copy, Debug, PartialEq, Eq, Structural)]
pub struct StompHit {
    /// Index of the struck agent in the flock arena.
    pub flock_index: usize,
    /// The impulse vector (milli-units).
    pub impulse: Vec2,
}

/// Relies on `rand::Rng::gen_range` over the inclusive range `0..=max`
/// (with `rand::thread_rng`): the sample lies within the range's bounds,
/// and the range is never empty.
#[verifier::external_body]
fn random_jitter(max: u64) -> (r: u64)
    ensures
        r <= max,
{
    rand::Rng::gen_range(&mut rand::thread_rng(), 0..=max)
}

/// Every disruptor of the arena is well formed.
pub open spec fn llamas_wf(s: Seq<DisruptorAgent>) -> bool {
    forall|k: int| 0 <= k < s.len() ==> crate::agents::disruptor_agent_wf(#[trigger] s[k])
}

/// A flock member that a stomp can affect: in the flock, not removed, and
/// not protected by an invulnerability cooldown.
pub open spec fn stompable(a: FlockAgent) -> bool {
    a.in_flock && !a.despawned && a.cooldown is None
}

/// Whether the disruptor at `lpos` reaches the agent at `apos`.
pub open spec fn in_stomp_reach(lpos: Vec2, apos: Vec2, b: AnimalBehavior) -> bool {
    dist_sq(lpos, apos) <= b.llama_stomp_range * b.llama_stomp_range
}

/// The outward impulse on an agent at `apos` struck from `lpos`:
/// the normalized direction away from the disruptor, scaled by the
/// configured force. Coincident positions give the zero impulse.
pub open spec fn stomp_impulse(apos: Vec2, lpos: Vec2, b: AnimalBehavior) -> Vec2 {
    muldiv_of(unit_of(diff_of(apos, lpos)), b.llama_stomp_force as int, SCALE as int)
}

/// The struck agent, unchanged but for a fresh invulnerability cooldown.
pub open spec fn stomped_version(a: FlockAgent, na: FlockAgent) -> bool {
    &&& na.pos == a.pos
    &&& na.vel == a.vel
    &&& na.state == a.state
    &&& na.move_to == a.move_to
    &&& na.jump == a.jump
    &&& na.life == a.life
    &&& na.in_flock == a.in_flock
    &&& na.despawned == a.despawned
    &&& na.cooldown is Some
    &&& na.cooldown->Some_0.duration() == STOMP_GRACE
    &&& na.cooldown->Some_0.elapsed() == 0
}

/// A disruptor that will stomp this tick.
pub open spec fn ready(l: DisruptorAgent) -> bool {
    l.cooldown is None
}

/// The first disruptor with index below `bound` that is ready and reaches
/// `apos`, if any.
pub open spec fn stomper_before(
    llamas: Seq<DisruptorAgent>,
    apos: Vec2,
    b: AnimalBehavior,
    bound: int,
) -> Option<int>
    decreases bound,
{
    if bound <= 0 {
        Option::None
    } else {
        match stomper_before(llamas, apos, b, bound - 1) {
            Option::Some(l) => Option::Some(l),
            Option::None => {
                if ready(llamas[bound - 1]) && in_stomp_reach(llamas[bound - 1].pos, apos, b) {
                    Option::Some(bound - 1)
                } else {
                    Option::None
                }
            },
        }
    }
}

/// One disruptor's stomp over the flock arena: every stompable member in
/// reach of `lpos` gets a fresh invulnerability cooldown, and one hit per
/// such member, in increasing index order, is appended to `hits`.
fn stomp_one(lpos: Vec2, flock: &mut Vec<FlockAgent>, b: &AnimalBehavior, hits: &mut Vec<StompHit>)
    requires
        in_range(lpos),
        flock_wf(old(flock)@),
        behavior_wf(*b),
        old(hits)@.len() + old(flock)@.len() <= usize::MAX,
    ensures
        final(flock)@.len() == old(flock)@.len(),
        flock_wf(final(flock)@),
        forall|k: int|
            0 <= k < old(flock)@.len() ==> (if stompable(old(flock)@[k]) && in_stomp_reach(
                lpos,
                old(flock)@[k].pos,
                *b,
            ) {
                stomped_version(old(flock)@[k], final(flock)@[k])
            } else {
                final(flock)@[k] == old(flock)@[k]
            }),
        final(hits)@.len() >= old(hits)@.len(),
        final(hits)@.len() <= old(hits)@.len() + old(flock)@.len(),
        forall|j: int| 0 <= j < old(hits)@.len() ==> final(hits)@[j] == old(hits)@[j],
        forall|j: int|
            old(hits)@.len() <= j < final(hits)@.len() ==> {
                let h = #[trigger] final(hits)@[j];
                &&& h.flock_index < old(flock)@.len()
                &&& stompable(old(flock)@[h.flock_index as int])
                &&& in_stomp_reach(lpos, old(flock)@[h.flock_index as int].pos, *b)
                &&& h.impulse == stomp_impulse(old(flock)@[h.flock_index as int].pos, lpos, *b)
            },
        forall|k: int|
            0 <= k < old(flock)@.len() && stompable(old(flock)@[k]) && in_stomp_reach(
                lpos,
                old(flock)@[k].pos,
                *b,
            ) ==> exists|j: int|
                old(hits)@.len() <= j < final(hits)@.len() && (#[trigger] final(hits)@[j]).flock_index == k,
        forall|j1: int, j2: int|
            old(hits)@.len() <= j1 < j2 < final(hits)@.len() ==> (#[trigger] final(hits)@[j1]).flock_index < (#[trigger] final(hits)@[j2]).flock_index,
{
    let ghost base = hits@.len();
    let mut k: usize = 0;
    while k < flock.len()
        invariant
            k <= flock@.len(),
            flock@.len() == old(flock)@.len(),
            in_range(lpos),
            flock_wf(old(flock)@),
            behavior_wf(*b),
            base == old(hits)@.len(),
            base + old(flock)@.len() <= usize::MAX,
            hits@.len() <= base + k,
            hits@.len() >= base,
            forall|j: int| 0 <= j < base ==> hits@[j] == old(hits)@[j],
            forall|i: int|
                0 <= i < k ==> (if stompable(old(flock)@[i]) && in_stomp_reach(
                    lpos,
                    old(flock)@[i].pos,
                    *b,
                ) {
                    stomped_version(old(flock)@[i], flock@[i])
                } else {
                    flock@[i] == old(flock)@[i]
                }),
            forall|i: int| k <= i < flock@.len() ==> flock@[i] == old(flock)@[i],
            forall|j: int|
                base <= j < hits@.len() ==> {
                    let h = #[trigger] hits@[j];
                    &&& h.flock_index < k
                    &&& stompable(old(flock)@[h.flock_index as int])
                    &&& in_stomp_reach(lpos, old(flock)@[h.flock_index as int].pos, *b)
                    &&& h.impulse == stomp_impulse(old(flock)@[h.flock_index as int].pos, lpos, *b)
                },
            forall|i: int|
                0 <= i < k && stompable(old(flock)@[i]) && in_stomp_reach(
                    lpos,
                    old(flock)@[i].pos,
                    *b,
                ) ==> exists|j: int|
                    base <= j < hits@.len() && (#[trigger] hits@[j]).flock_index == i,
            forall|j1: int, j2: int|
                base <= j1 < j2 < hits@.len() ==> (#[trigger] hits@[j1]).flock_index < (
                #[trigger] hits@[j2]).flock_index,
        decreases flock@.len() - k,
    {
        let a = flock[k];
        if a.in_flock && !a.despawned && a.cooldown.is_none() {
            let d = dist_sq_between(lpos, a.pos);
            proof {
                assert(b.llama_stomp_range * b.llama_stomp_range
                    <= 1_000_000_000_000_000_000) by (nonlinear_arith)
                    requires
                        0 <= b.llama_stomp_range <= 1_000_000_000,
                ;
            }
            let r2: u64 = (b.llama_stomp_range as u64) * (b.llama_stomp_range as u64);
            if d <= r2 {
                let adiff = a.pos.minus(lpos);
                let dir = normalize_or_zero(adiff);
                proof {
                    assert(adiff == diff_of(old(flock)@[k as int].pos, lpos));
                    assert((if dir.x >= 0 { dir.x as int } else { -dir.x as int })
                        * b.llama_stomp_force <= i64::MAX && (if dir.y >= 0 { dir.y as int } else {
                        -dir.y as int
                    }) * b.llama_stomp_force <= i64::MAX) by (nonlinear_arith)
                        requires
                            -SCALE <= dir.x <= SCALE,
                            -SCALE <= dir.y <= SCALE,
                            0 <= b.llama_stomp_force <= 1_000_000_000,
                            SCALE == 1000,
                    ;
                }
                let impulse = muldiv(dir, b.llama_stomp_force, SCALE);
                let ghost ph = hits@;
                hits.push(StompHit { flock_index: k, impulse });
                let na = FlockAgent { cooldown: Option::Some(Cooldown::new(STOMP_GRACE)), ..a };
                flock.set(k, na);
                proof {
                    assert(stomped_version(old(flock)@[k as int], flock@[k as int]));
                    assert forall|i: int|
                        0 <= i < k + 1 && stompable(old(flock)@[i]) && in_stomp_reach(
                            lpos,
                            old(flock)@[i].pos,
                            *b,
                        ) implies exists|j: int|
                        base <= j < hits@.len() && (#[trigger] hits@[j]).flock_index == i by {
                        if i == k {
                            assert(hits@[hits@.len() - 1].flock_index == i);
                        } else {
                            let j = choose|j: int|
                                base <= j < ph.len() && (#[trigger] ph[j]).flock_index == i;
                            assert(hits@[j] == ph[j]);
                            assert(hits@[j].flock_index == i);
                        }
                    }
                }
            }
        }
        k = k + 1;
    }
}

/// One disruptor-ability tick over both arenas.
///
/// Every disruptor that is off cooldown stomps (disruptors are processed
/// in arena order, so an agent struck by one is protected from the rest
/// by its fresh cooldown), then re-arms with a cooldown of
/// `llama_stomp_rate` plus a random jitter of at most `STOMP_JITTER_MAX`
/// milliseconds. The returned hits are the impulses for the physics
/// backend; a disruptor's new cooldown doubles as the trigger for its
/// telegraph visual. Without a behavior configuration nothing changes.
pub fn llama_stomp(
    llamas: &mut Vec<DisruptorAgent>,
    flock: &mut Vec<FlockAgent>,
    behavior: Option<&AnimalBehavior>,
) -> (hits: Vec<StompHit>)
    requires
        llamas_wf(old(llamas)@),
        flock_wf(old(flock)@),
        old(flock)@.len() + old(flock)@.len() * old(llamas)@.len() <= usize::MAX,
        behavior is Some ==> behavior_wf(*behavior->Some_0),
    ensures
        final(llamas)@.len() == old(llamas)@.len(),
        final(flock)@.len() == old(flock)@.len(),
        llamas_wf(final(llamas)@),
        flock_wf(final(flock)@),
        behavior is None ==> final(llamas)@ == old(llamas)@ && final(flock)@ == old(flock)@
            && hits@.len() == 0,
        behavior is Some ==> {
            let b = *behavior->Some_0;
            &&& forall|l: int|
                0 <= l < old(llamas)@.len() ==> (if ready(old(llamas)@[l]) {
                    {
                        let nl = #[trigger] final(llamas)@[l];
                        &&& nl.pos == old(llamas)@[l].pos
                        &&& nl.telegraph_progress == old(llamas)@[l].telegraph_progress
                        &&& nl.cooldown is Some
                        &&& nl.cooldown->Some_0.elapsed() == 0
                        &&& b.llama_stomp_rate <= nl.cooldown->Some_0.duration()
                            <= b.llama_stomp_rate + STOMP_JITTER_MAX
                    }
                } else {
                    final(llamas)@[l] == old(llamas)@[l]
                })
            &&& forall|k: int|
                0 <= k < old(flock)@.len() ==> (if stompable(old(flock)@[k]) && stomper_before(
                    old(llamas)@,
                    old(flock)@[k].pos,
                    b,
                    old(llamas)@.len() as int,
                ) is Some {
                    stomped_version(old(flock)@[k], final(flock)@[k])
                } else {
                    final(flock)@[k] == old(flock)@[k]
                })
            &&& forall|j: int|
                0 <= j < hits@.len() ==> {
                    let h = #[trigger] hits@[j];
                    &&& h.flock_index < old(flock)@.len()
                    &&& stompable(old(flock)@[h.flock_index as int])
                    &&& stomper_before(
                        old(llamas)@,
                        old(flock)@[h.flock_index as int].pos,
                        b,
                        old(llamas)@.len() as int,
                    ) is Some
                    &&& h.impulse == stomp_impulse(
                        old(flock)@[h.flock_index as int].pos,
                        old(llamas)@[stomper_before(
                            old(llamas)@,
                            old(flock)@[h.flock_index as int].pos,
                            b,
                            old(llamas)@.len() as int,
                        )->Some_0].pos,
                        b,
                    )
                }
            &&& forall|k: int|
                0 <= k < old(flock)@.len() && stompable(old(flock)@[k]) && stomper_before(
                    old(llamas)@,
                    old(flock)@[k].pos,
                    b,
                    old(llamas)@.len() as int,
                ) is Some ==> exists|j: int|
                    0 <= j < hits@.len() && (#[trigger] hits@[j]).flock_index == k
            &&& forall|j1: int, j2: int|
                0 <= j1 < j2 < hits@.len() ==> (#[trigger] hits@[j1]).flock_index != (
                #[trigger] hits@[j2]).flock_index
        },
{
    let mut hits: Vec<StompHit> = Vec::new();
    let b = match behavior {
        Option::Some(b) => b,
        Option::None => {
            return hits;
        },
    };
    let ghost oll = llamas@;
    let ghost ofl = flock@;
    let mut l: usize = 0;
    while l < llamas.len()
        invariant
            l <= oll.len(),
            llamas@.len() == oll.len(),
            flock@.len() == ofl.len(),
            llamas_wf(oll),
            flock_wf(ofl),
            flock_wf(flock@),
            llamas_wf(llamas@),
            behavior_wf(*b),
            ofl.len() + ofl.len() * oll.len() <= usize::MAX,
            hits@.len() <= ofl.len() * l,
            forall|m: int| l <= m < oll.len() ==> llamas@[m] == oll[m],
            forall|m: int|
                0 <= m < l ==> (if ready(oll[m]) {
                    {
                        let nl = #[trigger] llamas@[m];
                        &&& nl.pos == oll[m].pos
                        &&& nl.telegraph_progress == oll[m].telegraph_progress
                        &&& nl.cooldown is Some
                        &&& nl.cooldown->Some_0.elapsed() == 0
                        &&& b.llama_stomp_rate <= nl.cooldown->Some_0.duration()
                            <= b.llama_stomp_rate + STOMP_JITTER_MAX
                    }
                } else {
                    llamas@[m] == oll[m]
                }),
            forall|k: int|
                0 <= k < ofl.len() ==> (if stompable(ofl[k]) && stomper_before(
                    oll,
                    ofl[k].pos,
                    *b,
                    l as int,
                ) is Some {
                    stomped_version(ofl[k], flock@[k])
                } else {
                    flock@[k] == ofl[k]
                }),
            forall|j: int|
                0 <= j < hits@.len() ==> {
                    let h = #[trigger] hits@[j];
                    &&& h.flock_index < ofl.len()
                    &&& stompable(ofl[h.flock_index as int])
                    &&& stomper_before(oll, ofl[h.flock_index as int].pos, *b, l as int) is Some
                    &&& h.impulse == stomp_impulse(
                        ofl[h.flock_index as int].pos,
                        oll[stomper_before(
                            oll,
                            ofl[h.flock_index as int].pos,
                            *b,
                            l as int,
                        )->Some_0].pos,
                        *b,
                    )
                },
            forall|k: int|
                0 <= k < ofl.len() && stompable(ofl[k]) && stomper_before(
                    oll,
                    ofl[k].pos,
                    *b,
                    l as int,
                ) is Some ==> exists|j: int|
                    0 <= j < hits@.len() && (#[trigger] hits@[j]).flock_index == k,
            forall|j1: int, j2: int|
                0 <= j1 < j2 < hits@.len() ==> (#[trigger] hits@[j1]).flock_index != (
                #[trigger] hits@[j2]).flock_index,
        decreases oll.len() - l,
    {
        let la = llamas[l];
        if la.cooldown.is_none() {
            let ghost pre_flock = flock@;
            let ghost pre_hits = hits@;
            proof {
                assert(in_range(oll[l as int].pos)) by {
                    assert(crate::agents::disruptor_agent_wf(oll[l as int]));
                }
                assert(pre_hits.len() + pre_flock.len() <= usize::MAX) by (nonlinear_arith)
                    requires
                        pre_hits.len() <= pre_flock.len() * (l as int),
                        pre_flock.len() + pre_flock.len() * (oll.len() as int) <= usize::MAX,
                        l < oll.len(),
                        pre_flock.len() >= 0,
                ;
            }
            stomp_one(la.pos, flock, b, &mut hits);
            let jitter = random_jitter(STOMP_JITTER_MAX);
            let dur = b.llama_stomp_rate + jitter;
            let nl = DisruptorAgent { cooldown: Option::Some(Cooldown::new(dur)), ..la };
            llamas.set(l, nl);
            proof {
                lemma_stomp_step(oll, ofl, pre_flock, flock@, pre_hits, hits@, *b, l as int);
                assert(hits@.len() <= ofl.len() * (l + 1)) by (nonlinear_arith)
                    requires
                        hits@.len() <= pre_hits.len() + ofl.len(),
                        pre_hits.len() <= ofl.len() * (l as int),
                        ofl.len() >= 0,
                ;
            }
        } else {
            proof {
                lemma_stomp_skip(oll, ofl, flock@, hits@, *b, l as int);
                assert(hits@.len() <= ofl.len() * (l + 1)) by (nonlinear_arith)
                    requires
                        hits@.len() <= ofl.len() * (l as int),
                        ofl.len() >= 0,
                ;
            }
        }
        l = l + 1;
    }
    hits
}

/// After the disruptor at `l` (not ready) is skipped, the first-stomper
/// bound can still be raised by one.
proof fn lemma_stomp_skip(
    oll: Seq<DisruptorAgent>,
    ofl: Seq<FlockAgent>,
    cur_flock: Seq<FlockAgent>,
    cur_hits: Seq<StompHit>,
    b: AnimalBehavior,
    l: int,
)
    requires
        0 <= l < oll.len(),
        !ready(oll[l]),
    ensures
        forall|apos: Vec2|
            stomper_before(oll, apos, b, l + 1) == #[trigger] stomper_before(oll, apos, b, l),
{
}

/// Raising the first-stomper bound past a processed ready disruptor turns
/// exactly the agents in its reach (that no earlier disruptor struck)
/// from unstomped to stomped.
proof fn lemma_stomp_step(
    oll: Seq<DisruptorAgent>,
    ofl: Seq<FlockAgent>,
    pre_flock: Seq<FlockAgent>,
    cur_flock: Seq<FlockAgent>,
    pre_hits: Seq<StompHit>,
    cur_hits: Seq<StompHit>,
    b: AnimalBehavior,
    l: int,
)
    requires
        0 <= l < oll.len(),
        ready(oll[l]),
    ensures
        forall|apos: Vec2|
            #[trigger] stomper_before(oll, apos, b, l + 1) == (if stomper_before(
                oll,
                apos,
                b,
                l,
            ) is Some {
                stomper_before(oll, apos, b, l)
            } else {
                if ready(oll[l]) && in_stomp_reach(oll[l].pos, apos, b) {
                    Option::Some(l)
                } else {
                    Option::<int>::None
                }
            }),
{
}

/// Mirror each disruptor's cooldown fraction onto its telegraph visual.
pub fn update_progress(llamas: &mut Vec<DisruptorAgent>)
    requires
        llamas_wf(old(llamas)@),
    ensures
        final(llamas)@.len() == old(llamas)@.len(),
        llamas_wf(final(llamas)@),
        forall|k: int|
            0 <= k < old(llamas)@.len() ==> (if old(llamas)@[k].cooldown is Some {
                {
                    let c = old(llamas)@[k].cooldown->Some_0;
                    #[trigger] final(llamas)@[k] == DisruptorAgent {
                        telegraph_progress: (c.elapsed() * SCALE / (c.duration() as int)) as u64,
                        ..old(llamas)@[k]
                    }
                }
            } else {
                final(llamas)@[k] == old(llamas)@[k]
            }),
{
    let mut k: usize = 0;
    while k < llamas.len()
        invariant
            k <= llamas@.len(),
            llamas@.len() == old(llamas)@.len(),
            llamas_wf(old(llamas)@),
            llamas_wf(llamas@),
            forall|i: int| k <= i < llamas@.len() ==> llamas@[i] == old(llamas)@[i],
            forall|i: int|
                0 <= i < k ==> (if old(llamas)@[i].cooldown is Some {
                    {
                        let c = old(llamas)@[i].cooldown->Some_0;
                        #[trigger] llamas@[i] == DisruptorAgent {
                            telegraph_progress: (c.elapsed() * SCALE / (c.duration() as int)) as u64,
                            ..old(llamas)@[i]
                        }
                    }
                } else {
                    llamas@[i] == old(llamas)@[i]
                }),
        decreases llamas@.len() - k,
    {
        let la = llamas[k];
        match la.cooldown {
            Option::Some(c) => {
                proof {
                    assert(crate::agents::disruptor_agent_wf(old(llamas)@[k as int]));
                }
                let p = c.progress();
                let nl = DisruptorAgent { telegraph_progress: p, ..la };
                llamas.set(k, nl);
            },
            Option::None => {},
        }
        k = k + 1;
    }
}

} // verus!
