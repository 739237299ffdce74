//! Herder movement: each herder drives straight toward its current move
//! order at the configured herder speed, and drops the order on arrival.
//! Player clicks issue such orders.

use vstd::prelude::*;
use crate::agents::{HerderAgent, MoveTo};
use crate::params::{behavior_wf, AnimalBehavior};
use crate::sheep::herders_wf;
use crate::spatial::dist_sq_between;
use crate::vec2::{
    diff_of, dist_sq, in_range, lemma_muldiv_norm, muldiv, muldiv_of, normalize_or_zero, unit_of,
    Vec2, SCALE,
};

verus! {

/// A herder within this distance of its order has arrived (milli-units).
pub const DOG_ARRIVE: i64 = 2000;

/// One herder's movement update for one tick: without an order nothing
/// changes; within arrival distance the order is dropped (the velocity is
/// left to damping); otherwise the velocity is set straight toward the
/// order at `dog_speed`.
pub open spec fn dog_update(a: HerderAgent, b: AnimalBehavior) -> HerderAgent {
    match a.move_to {
        Option::None => a,
        Option::Some(m) => {
            if dist_sq(m.target(), a.pos) < DOG_ARRIVE * DOG_ARRIVE {
                HerderAgent { move_to: Option::None, ..a }
            } else {
                HerderAgent {
                    vel: muldiv_of(
                        unit_of(diff_of(m.target(), a.pos)),
                        b.dog_speed as int,
                        SCALE as int,
                    ),
                    ..a
                }
            }
        },
    }
}

/// One movement tick over the herder arena. Without a resolved behavior
/// configuration the tick is a no-op.
pub fn move_dogs(herders: &mut Vec<HerderAgent>, behavior: Option<&AnimalBehavior>)
    requires
        herders_wf(old(herders)@),
        behavior is Some ==> behavior_wf(*behavior->Some_0),
    ensures
        final(herders)@.len() == old(herders)@.len(),
        behavior is None ==> final(herders)@ == old(herders)@,
        behavior is Some ==> forall|i: int|
            0 <= i < old(herders)@.len() ==> final(herders)@[i] == dog_update(
                old(herders)@[i],
                *behavior->Some_0,
            ),
        herders_wf(final(herders)@),
{
    let b = match behavior {
        Option::Some(b) => b,
        Option::None => {
            return ;
        },
    };
    let mut i: usize = 0;
    while i < herders.len()
        invariant
            i <= herders@.len(),
            herders@.len() == old(herders)@.len(),
            herders_wf(old(herders)@),
            behavior_wf(*b),
            forall|k: int| i <= k < herders@.len() ==> herders@[k] == old(herders)@[k],
            forall|k: int| 0 <= k < i ==> herders@[k] == dog_update(old(herders)@[k], *b),
            forall|k: int|
                0 <= k < i ==> crate::agents::herder_agent_wf(#[trigger] herders@[k]),
        decreases herders@.len() - i,
    {
        let a = herders[i];
        proof {
            assert(crate::agents::herder_agent_wf(old(herders)@[i as int]));
        }
        match a.move_to {
            Option::Some(m) => {
                let target = m.postion();
                let d = dist_sq_between(target, a.pos);
                if d < 4_000_000 {
                    proof {
                        assert(DOG_ARRIVE * DOG_ARRIVE == 4_000_000) by (nonlinear_arith);
                    }
                    let na = HerderAgent { move_to: Option::None, ..a };
                    herders.set(i, na);
                } else {
                    proof {
                        assert(DOG_ARRIVE * DOG_ARRIVE == 4_000_000) by (nonlinear_arith);
                    }
                    let tdiff = target.minus(a.pos);
                    let dir = normalize_or_zero(tdiff);
                    proof {
                        assert(tdiff == diff_of(m.target(), old(herders)@[i as int].pos));
                        assert((if dir.x >= 0 { dir.x as int } else { -dir.x as int })
                            * b.dog_speed <= i64::MAX && (if dir.y >= 0 { dir.y as int } else {
                            -dir.y as int
                        }) * b.dog_speed <= i64::MAX) by (nonlinear_arith)
                            requires
                                -SCALE <= dir.x <= SCALE,
                                -SCALE <= dir.y <= SCALE,
                                0 <= b.dog_speed <= 1_000_000_000,
                                SCALE == 1000,
                        ;
                    }
                    let vel = muldiv(dir, b.dog_speed, SCALE);
                    proof {
                        lemma_muldiv_norm(dir, b.dog_speed as int);
                    }
                    let na = HerderAgent { vel, ..a };
                    herders.set(i, na);
                }
            },
            Option::None => {},
        }
        i = i + 1;
    }
}

/// A click event handed in from the input layer.
#[derive(Clone, Copy, Debug, PartialEq, Eq, Structural)]
pub struct MapClickEvent {
    /// The clicked world point.
    pub translation: Vec2,
    /// The button used.
    pub button: ClickButton,
}

/// Which pointer button a click used.
#[derive(Clone, Copy, Debug, PartialEq, Eq, Structural)]
pub enum ClickButton {
    Left,
    Right,
    Middle,
}

impl MapClickEvent {
    /// A click at `translation` with `button`.
    pub fn new(translation: Vec2, button: ClickButton) -> (r: MapClickEvent)
        ensures
            r.translation == translation,
            r.button == button,
    {
        MapClickEvent { translation, button }
    }

    /// The clicked world point.
    pub fn translation(&self) -> (r: Vec2)
        ensures
            r == self.translation,
    {
        self.translation
    }

    /// The button used.
    pub fn button(&self) -> (r: ClickButton)
        ensures
            r == self.button,
    {
        self.button
    }
}

/// The target of the last right-button click in the batch, if any.
pub open spec fn last_right_click(events: Seq<MapClickEvent>) -> Option<Vec2>
    decreases events.len(),
{
    if events.len() == 0 {
        Option::None
    } else if events.last().button == ClickButton::Right {
        Option::Some(events.last().translation)
    } else {
        last_right_click(events.drop_last())
    }
}

/// Order every herder to the last right-clicked point of the batch; any
/// other clicks leave the orders alone.
pub fn command_dog(herders: &mut Vec<HerderAgent>, events: &Vec<MapClickEvent>)
    requires
        herders_wf(old(herders)@),
        forall|j: int| 0 <= j < events@.len() ==> in_range((#[trigger] events@[j]).translation),
    ensures
        final(herders)@.len() == old(herders)@.len(),
        last_right_click(events@) is None ==> final(herders)@ == old(herders)@,
        (last_right_click(events@) matches Option::Some(t) ==> forall|i: int|
            0 <= i < old(herders)@.len() ==> final(herders)@[i] == (HerderAgent {
                move_to: Option::Some(MoveTo::new_spec(t)),
                ..old(herders)@[i]
            })),
        herders_wf(final(herders)@),
{
    let mut target: Option<Vec2> = Option::None;
    let mut j: usize = 0;
    while j < events.len()
        invariant
            j <= events@.len(),
            forall|m: int|
                0 <= m < events@.len() ==> in_range((#[trigger] events@[m]).translation),
            target == last_right_click(events@.subrange(0, j as int)),
            (target matches Option::Some(t) ==> in_range(t)),
        decreases events@.len() - j,
    {
        let e = events[j];
        if matches!(e.button(), ClickButton::Right) {
            target = Option::Some(e.translation());
        }
        proof {
            assert(events@.subrange(0, j + 1).drop_last() =~= events@.subrange(0, j as int));
            assert(events@.subrange(0, j + 1).last() == events@[j as int]);
        }
        j = j + 1;
    }
    proof {
        assert(events@.subrange(0, events@.len() as int) =~= events@);
    }
    match target {
        Option::None => {},
        Option::Some(t) => {
            let mut i: usize = 0;
            while i < herders.len()
                invariant
                    i <= herders@.len(),
                    herders@.len() == old(herders)@.len(),
                    herders_wf(old(herders)@),
                    in_range(t),
                    forall|k: int| i <= k < herders@.len() ==> herders@[k] == old(herders)@[k],
                    forall|k: int|
                        0 <= k < i ==> herders@[k] == (HerderAgent {
                            move_to: Option::Some(MoveTo::new_spec(t)),
                            ..old(herders)@[k]
                        }),
                    forall|k: int|
                        0 <= k < i ==> crate::agents::herder_agent_wf(#[trigger] herders@[k]),
                decreases herders@.len() - i,
            {
                let a = herders[i];
                proof {
                    assert(crate::agents::herder_agent_wf(old(herders)@[i as int]));
                }
                let na = HerderAgent { move_to: Option::Some(MoveTo::new(t)), ..a };
                herders.set(i, na);
                i = i + 1;
            }
        },
    }
}

} // verus!
