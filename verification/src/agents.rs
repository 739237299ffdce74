//! Agents of the simulation and the timers attached to them.
//!
//! All timers count milliseconds. A `Cooldown` is finished once its elapsed
//! time has reached its duration; expired timers are detached by the tick
//! systems in `timers`.

use vstd::prelude::*;
use crate::params::DURATION_LIMIT;
use crate::vec2::{in_range, SCALE, Vec2};

verus! {

/// Discrete behavior / animation state of an agent.
#[derive(Clone, Copy, Debug, PartialEq, Eq, Structural)]
pub enum AnimalState {
    Idle,
    Dead,
    Running,
    Walking,
    Jumping,
}

impl AnimalState {
    /// True exactly for `Dead`.
    pub fn is_dead(&self) -> (r: bool)
        ensures
            r == (*self == AnimalState::Dead),
    {
        matches!(*self, AnimalState::Dead)
    }

    /// True exactly for `Running`.
    pub fn is_running(&self) -> (r: bool)
        ensures
            r == (*self == AnimalState::Running),
    {
        matches!(*self, AnimalState::Running)
    }

    /// True exactly for `Jumping`.
    pub fn is_jumping(&self) -> (r: bool)
        ensures
            r == (*self == AnimalState::Jumping),
    {
        matches!(*self, AnimalState::Jumping)
    }

    /// True exactly for `Idle`.
    pub fn is_idle(&self) -> (r: bool)
        ensures
            r == (*self == AnimalState::Idle),
    {
        matches!(*self, AnimalState::Idle)
    }

    /// Name of the animation clip the renderer plays for this state.
    pub fn animation_name(&self) -> (r: &'static str)
        ensures
            *self == AnimalState::Idle ==> r@ == "Idle"@,
            *self == AnimalState::Dead ==> r@ == "Death"@,
            *self == AnimalState::Walking ==> r@ == "Walk"@,
            *self == AnimalState::Running ==> r@ == "Run"@,
            *self == AnimalState::Jumping ==> r@ == "Jump"@,
    {
        match *self {
            AnimalState::Idle => "Idle",
            AnimalState::Dead => "Death",
            AnimalState::Walking => "Walk",
            AnimalState::Running => "Run",
            AnimalState::Jumping => "Jump",
        }
    }
}

/// A monotonically advancing one-shot timer gating an action or effect.
#[derive(Clone, Copy, Debug, PartialEq, Eq, Structural)]
pub struct Cooldown {
    duration: u64,
    elapsed: u64,
}

impl Cooldown {
    /// Total duration in milliseconds.
    pub closed spec fn duration(self) -> u64 {
        self.duration
    }

    /// Elapsed time in milliseconds, never past the duration.
    pub closed spec fn elapsed(self) -> u64 {
        self.elapsed
    }

    /// A positive, bounded duration with the elapsed time inside it.
    pub open spec fn wf(self) -> bool {
        1 <= self.duration() <= DURATION_LIMIT && self.elapsed() <= self.duration()
    }

    /// The value `new(duration)` returns.
    pub closed spec fn spec_new(duration: u64) -> Cooldown {
        Cooldown { duration, elapsed: 0 }
    }

    /// The value `tick(delta)` leaves behind.
    pub closed spec fn advanced(self, delta: u64) -> Cooldown {
        Cooldown {
            duration: self.duration,
            elapsed: if self.elapsed + delta <= self.duration {
                (self.elapsed + delta) as u64
            } else {
                self.duration
            },
        }
    }

    /// Whether the timer has run out.
    pub open spec fn is_finished(self) -> bool {
        self.elapsed() == self.duration()
    }

    /// A fresh timer of `duration` milliseconds.
    pub fn new(duration: u64) -> (r: Cooldown)
        requires
            1 <= duration <= DURATION_LIMIT,
        ensures
            r == Cooldown::spec_new(duration),
            r.duration() == duration,
            r.elapsed() == 0,
            r.wf(),
            !r.is_finished(),
    {
        Cooldown { duration, elapsed: 0 }
    }

    /// Advance by `delta` milliseconds, saturating at the duration.
    pub fn tick(&mut self, delta: u64)
        requires
            old(self).wf(),
        ensures
            *final(self) == old(self).advanced(delta),
            final(self).wf(),
            final(self).duration() == old(self).duration(),
            final(self).elapsed() == if old(self).elapsed() + delta <= old(self).duration() {
                old(self).elapsed() + delta
            } else {
                old(self).duration() as int
            },
    {
        if delta <= self.duration && self.elapsed <= self.duration - delta {
            self.elapsed = self.elapsed + delta;
        } else {
            self.elapsed = self.duration;
        }
    }

    /// Whether the timer has run out.
    pub fn finished(&self) -> (r: bool)
        requires
            self.wf(),
        ensures
            r == self.is_finished(),
    {
        self.elapsed >= self.duration
    }

    /// Total duration in milliseconds, as a machine value.
    pub fn duration_ms(&self) -> (r: u64)
        ensures
            r == self.duration(),
    {
        self.duration
    }

    /// Elapsed time in milliseconds, as a machine value.
    pub fn elapsed_ms(&self) -> (r: u64)
        ensures
            r == self.elapsed(),
    {
        self.elapsed
    }

    /// Elapsed fraction in per-mille: `0` fresh, `SCALE` finished.
    pub fn progress(&self) -> (r: u64)
        requires
            self.wf(),
        ensures
            r == self.elapsed() * SCALE / (self.duration() as int),
            r <= SCALE,
    {
        proof {
            vstd::arithmetic::div_mod::lemma_div_is_ordered(
                (self.elapsed * SCALE) as int,
                (self.duration * SCALE) as int,
                self.duration as int,
            );
            vstd::arithmetic::div_mod::lemma_div_by_multiple(SCALE as int, self.duration as int);
            assert(self.elapsed * SCALE <= self.duration * SCALE) by (nonlinear_arith)
                requires
                    self.elapsed <= self.duration,
                    SCALE == 1000,
            ;
            assert(self.duration * SCALE == SCALE * self.duration) by (nonlinear_arith);
        }
        self.elapsed * SCALE as u64 / self.duration
    }
}

/// A one-shot timer after whose expiry an agent is despawned.
#[derive(Clone, Copy, Debug, PartialEq, Eq, Structural)]
pub struct LifeTime {
    timer: Cooldown,
}

impl LifeTime {
    /// The underlying timer.
    pub closed spec fn timer(self) -> Cooldown {
        self.timer
    }

    /// See `Cooldown::wf`.
    pub open spec fn wf(self) -> bool {
        self.timer().wf()
    }

    /// The value `new(duration)` returns.
    pub closed spec fn spec_new(duration: u64) -> LifeTime {
        LifeTime { timer: Cooldown::spec_new(duration) }
    }

    /// The value `tick(delta)` leaves behind.
    pub closed spec fn advanced(self, delta: u64) -> LifeTime {
        LifeTime { timer: self.timer.advanced(delta) }
    }

    /// A fresh lifetime of `duration` milliseconds.
    pub fn new(duration: u64) -> (r: LifeTime)
        requires
            1 <= duration <= DURATION_LIMIT,
        ensures
            r == LifeTime::spec_new(duration),
            r.timer().duration() == duration,
            r.timer().elapsed() == 0,
            r.wf(),
    {
        LifeTime { timer: Cooldown::new(duration) }
    }

    /// Advance by `delta` milliseconds, saturating at the duration.
    pub fn tick(&mut self, delta: u64)
        requires
            old(self).wf(),
        ensures
            *final(self) == old(self).advanced(delta),
            final(self).wf(),
            final(self).timer().duration() == old(self).timer().duration(),
            final(self).timer().elapsed() == if old(self).timer().elapsed() + delta <= old(
                self,
            ).timer().duration() {
                old(self).timer().elapsed() + delta
            } else {
                old(self).timer().duration() as int
            },
    {
        self.timer.tick(delta);
    }

    /// Whether the lifetime has run out.
    pub fn finished(&self) -> (r: bool)
        requires
            self.wf(),
        ensures
            r == self.timer().is_finished(),
    {
        self.timer.finished()
    }
}

/// A one-shot timer after whose expiry an entity is hidden.
#[derive(Clone, Copy, Debug, PartialEq, Eq, Structural)]
pub struct VisibilityTimer {
    timer: Cooldown,
}

impl VisibilityTimer {
    /// The underlying timer.
    pub closed spec fn timer(self) -> Cooldown {
        self.timer
    }

    /// See `Cooldown::wf`.
    pub open spec fn wf(self) -> bool {
        self.timer().wf()
    }

    /// The value `new(duration)` returns.
    pub closed spec fn spec_new(duration: u64) -> VisibilityTimer {
        VisibilityTimer { timer: Cooldown::spec_new(duration) }
    }

    /// The value `tick(delta)` leaves behind.
    pub closed spec fn advanced(self, delta: u64) -> VisibilityTimer {
        VisibilityTimer { timer: self.timer.advanced(delta) }
    }

    /// A fresh visibility window of `duration` milliseconds.
    pub fn new(duration: u64) -> (r: VisibilityTimer)
        requires
            1 <= duration <= DURATION_LIMIT,
        ensures
            r == VisibilityTimer::spec_new(duration),
            r.timer().duration() == duration,
            r.timer().elapsed() == 0,
            r.wf(),
    {
        VisibilityTimer { timer: Cooldown::new(duration) }
    }

    /// Advance by `delta` milliseconds, saturating at the duration.
    pub fn tick(&mut self, delta: u64)
        requires
            old(self).wf(),
        ensures
            *final(self) == old(self).advanced(delta),
            final(self).wf(),
    {
        self.timer.tick(delta);
    }

    /// Whether the window has run out.
    pub fn finished(&self) -> (r: bool)
        requires
            self.wf(),
        ensures
            r == self.timer().is_finished(),
    {
        self.timer.finished()
    }
}

/// A point an agent is ordered to move toward.
#[derive(Clone, Copy, Debug, PartialEq, Eq, Structural)]
pub struct MoveTo {
    target: Vec2,
}

impl MoveTo {
    /// The stored target point.
    pub closed spec fn target(self) -> Vec2 {
        self.target
    }

    /// The value `new(position)` returns.
    pub closed spec fn new_spec(position: Vec2) -> MoveTo {
        MoveTo { target: position }
    }

    /// A move order toward `position`.
    pub fn new(position: Vec2) -> (r: MoveTo)
        ensures
            r == MoveTo::new_spec(position),
            r.target() == position,
    {
        MoveTo { target: position }
    }

    /// Replace the target point.
    pub fn set(&mut self, position: Vec2)
        ensures
            final(self).target() == position,
    {
        self.target = position;
    }

    /// The target point.
    pub fn postion(&self) -> (r: Vec2)
        ensures
            r == self.target(),
    {
        self.target
    }
}

/// A herd member subject to the steering forces.
#[derive(Clone, Copy, Debug)]
pub struct FlockAgent {
    /// Position in milli-units.
    pub pos: Vec2,
    /// Velocity in milli-units per second.
    pub vel: Vec2,
    /// Behavior / animation state.
    pub state: AnimalState,
    /// Optional goal the agent is motivated toward.
    pub move_to: Option<MoveTo>,
    /// Invulnerability window after a disruptor hit; while present the
    /// agent neither flocks nor is hit again.
    pub cooldown: Option<Cooldown>,
    /// Timed jump override; while present the velocity rule is suppressed.
    pub jump: Option<Cooldown>,
    /// Once present, the agent is despawned when this runs out.
    pub life: Option<LifeTime>,
    /// Whether the agent still counts as a flock member.
    pub in_flock: bool,
    /// Whether the agent has been removed from the scene.
    pub despawned: bool,
}

/// Positions and velocities bounded, timers well formed.
pub open spec fn flock_agent_wf(a: FlockAgent) -> bool {
    &&& in_range(a.pos)
    &&& in_range(a.vel)
    &&& a.move_to is Some ==> in_range(a.move_to->Some_0.target())
    &&& a.cooldown is Some ==> a.cooldown->Some_0.wf()
    &&& a.jump is Some ==> a.jump->Some_0.wf()
    &&& a.life is Some ==> a.life->Some_0.wf()
}

/// A flock member that currently takes part in flocking and may be hit by
/// the disruptor: in the flock, not removed, no invulnerability cooldown.
pub open spec fn flocking_active(a: FlockAgent) -> bool {
    a.in_flock && !a.despawned && a.cooldown is None
}

impl FlockAgent {
    /// A fresh flock member at `pos`, idle and still.
    pub fn spawn(pos: Vec2) -> (r: FlockAgent)
        requires
            in_range(pos),
        ensures
            r.pos == pos,
            r.vel.x == 0 && r.vel.y == 0,
            r.state == AnimalState::Idle,
            r.move_to is None && r.cooldown is None && r.jump is None && r.life is None,
            r.in_flock,
            !r.despawned,
            flock_agent_wf(r),
    {
        FlockAgent {
            pos,
            vel: Vec2 { x: 0, y: 0 },
            state: AnimalState::Idle,
            move_to: None,
            cooldown: None,
            jump: None,
            life: None,
            in_flock: true,
            despawned: false,
        }
    }
}

/// A player-directed agent the flock flees from.
#[derive(Clone, Copy, Debug)]
pub struct HerderAgent {
    /// Position in milli-units.
    pub pos: Vec2,
    /// Velocity in milli-units per second.
    pub vel: Vec2,
    /// Behavior / animation state.
    pub state: AnimalState,
    /// Optional move order set by player input.
    pub move_to: Option<MoveTo>,
}

/// Positions, velocities and targets bounded.
pub open spec fn herder_agent_wf(a: HerderAgent) -> bool {
    &&& in_range(a.pos)
    &&& in_range(a.vel)
    &&& a.move_to is Some ==> in_range(a.move_to->Some_0.target())
}

impl HerderAgent {
    /// A fresh herder at `pos`, idle and still.
    pub fn spawn(pos: Vec2) -> (r: HerderAgent)
        requires
            in_range(pos),
        ensures
            r.pos == pos,
            r.vel.x == 0 && r.vel.y == 0,
            r.state == AnimalState::Idle,
            r.move_to is None,
            herder_agent_wf(r),
    {
        HerderAgent { pos, vel: Vec2 { x: 0, y: 0 }, state: AnimalState::Idle, move_to: None }
    }
}

/// The periodic area-effect agent that scatters nearby flock members.
#[derive(Clone, Copy, Debug)]
pub struct DisruptorAgent {
    /// Position in milli-units.
    pub pos: Vec2,
    /// Re-arm cooldown; the stomp triggers while this is absent.
    pub cooldown: Option<Cooldown>,
    /// Progress of the telegraph visual, in per-mille of the cooldown.
    pub telegraph_progress: u64,
}

/// Position bounded, cooldown well formed, telegraph in per-mille range.
pub open spec fn disruptor_agent_wf(a: DisruptorAgent) -> bool {
    &&& in_range(a.pos)
    &&& a.cooldown is Some ==> a.cooldown->Some_0.wf()
    &&& a.telegraph_progress <= SCALE
}

impl DisruptorAgent {
    /// A fresh disruptor at `pos`, ready to stomp.
    pub fn spawn(pos: Vec2) -> (r: DisruptorAgent)
        requires
            in_range(pos),
        ensures
            r.pos == pos,
            r.cooldown is None,
            r.telegraph_progress == 0,
            disruptor_agent_wf(r),
    {
        DisruptorAgent { pos, cooldown: None, telegraph_progress: 0 }
    }
}

} // verus!
