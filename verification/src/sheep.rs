//! Steering of flock agents: per tick, a normalized weighted sum of
//! cohesion, alignment, separation, predator-flee and goal-seek forces,
//! plus unweighted momentum, clamped to the configured maximum speed.
//!
//! Every step has an exact fixed-point specification; the arena pass uses
//! simultaneous-update semantics (all forces read the previous tick's
//! state).

use vstd::prelude::*;
use crate::agents::{flocking_active, FlockAgent, HerderAgent, MoveTo};
use crate::params::{behavior_wf, AnimalBehavior, WEIGHT_LIMIT};
use crate::spatial::{dist_sq_between, flock_peers, peers_of};
use crate::vec2::{
    diff_of, dist_sq, in_range, length, len_of, lemma_mean_bound, lemma_muldiv_norm,
    lemma_nsq_nonneg, lemma_prop_bound, lemma_sq_order, muldiv, muldiv_of, normalize_or_zero,
    nsq, plus_of, sdiv, svec, unit_of, Vec2, COORD_LIMIT, SCALE,
};

verus! {

/// An agent within this distance of its goal has arrived (milli-units).
pub const ARRIVE_EPS: i64 = 2000;

/// The zero vector, as a spec value.
pub open spec fn zerov() -> Vec2 {
    Vec2 { x: 0 as i64, y: 0 as i64 }
}

/// Sum of the `x` coordinates of the agents' positions.
pub open spec fn sum_pos_x(s: Seq<FlockAgent>) -> int
    decreases s.len(),
{
    if s.len() == 0 {
        0
    } else {
        sum_pos_x(s.drop_last()) + s.last().pos.x
    }
}

/// Sum of the `y` coordinates of the agents' positions.
pub open spec fn sum_pos_y(s: Seq<FlockAgent>) -> int
    decreases s.len(),
{
    if s.len() == 0 {
        0
    } else {
        sum_pos_y(s.drop_last()) + s.last().pos.y
    }
}

/// Sum of the `x` components of the agents' normalized velocities.
pub open spec fn sum_unit_vel_x(s: Seq<FlockAgent>) -> int
    decreases s.len(),
{
    if s.len() == 0 {
        0
    } else {
        sum_unit_vel_x(s.drop_last()) + unit_of(s.last().vel).x
    }
}

/// Sum of the `y` components of the agents' normalized velocities.
pub open spec fn sum_unit_vel_y(s: Seq<FlockAgent>) -> int
    decreases s.len(),
{
    if s.len() == 0 {
        0
    } else {
        sum_unit_vel_y(s.drop_last()) + unit_of(s.last().vel).y
    }
}

/// Sum of the `x` components of the unit directions from each agent's
/// position toward `p` (repulsion away from the agents).
pub open spec fn sum_away_x(s: Seq<FlockAgent>, p: Vec2) -> int
    decreases s.len(),
{
    if s.len() == 0 {
        0
    } else {
        sum_away_x(s.drop_last(), p) + unit_of(diff_of(p, s.last().pos)).x
    }
}

/// Sum of the `y` components of the unit directions from each agent's
/// position toward `p`.
pub open spec fn sum_away_y(s: Seq<FlockAgent>, p: Vec2) -> int
    decreases s.len(),
{
    if s.len() == 0 {
        0
    } else {
        sum_away_y(s.drop_last(), p) + unit_of(diff_of(p, s.last().pos)).y
    }
}

/// Sum of the `x` components of the unit directions from each herder's
/// position toward `p` (flight away from the herders).
pub open spec fn sum_flee_x(s: Seq<HerderAgent>, p: Vec2) -> int
    decreases s.len(),
{
    if s.len() == 0 {
        0
    } else {
        sum_flee_x(s.drop_last(), p) + unit_of(diff_of(p, s.last().pos)).x
    }
}

/// Sum of the `y` components of the unit directions from each herder's
/// position toward `p`.
pub open spec fn sum_flee_y(s: Seq<HerderAgent>, p: Vec2) -> int
    decreases s.len(),
{
    if s.len() == 0 {
        0
    } else {
        sum_flee_y(s.drop_last(), p) + unit_of(diff_of(p, s.last().pos)).y
    }
}

/// The herders within flee range of `p`, in arena order.
pub open spec fn herders_in_flee_range(s: Seq<HerderAgent>, p: Vec2, range: int) -> Seq<HerderAgent>
    decreases s.len(),
{
    if s.len() == 0 {
        Seq::empty()
    } else {
        let rest = herders_in_flee_range(s.drop_last(), p, range);
        if dist_sq(p, s.last().pos) <= range * range {
            rest.push(s.last())
        } else {
            rest
        }
    }
}

/// Centroid of the agents' positions (requires at least one agent).
pub open spec fn centroid_of(s: Seq<FlockAgent>) -> Vec2 {
    svec(sdiv(sum_pos_x(s), s.len() as int), sdiv(sum_pos_y(s), s.len() as int))
}

/// Cohesion: unit direction toward the neighbors' centroid, weighted;
/// zero without neighbors.
pub open spec fn cohesion_of(nbrs: Seq<FlockAgent>, p: Vec2, b: AnimalBehavior) -> Vec2 {
    if nbrs.len() == 0 {
        zerov()
    } else {
        muldiv_of(unit_of(diff_of(centroid_of(nbrs), p)), b.cohesion as int, SCALE as int)
    }
}

/// Alignment: mean of the neighbors' normalized velocities, weighted;
/// zero without neighbors.
pub open spec fn alignment_of(nbrs: Seq<FlockAgent>, b: AnimalBehavior) -> Vec2 {
    if nbrs.len() == 0 {
        zerov()
    } else {
        muldiv_of(
            svec(
                sdiv(sum_unit_vel_x(nbrs), nbrs.len() as int),
                sdiv(sum_unit_vel_y(nbrs), nbrs.len() as int),
            ),
            b.alignment as int,
            SCALE as int,
        )
    }
}

/// Separation: normalized mean of the inverse-distance repulsion from the
/// neighbors, weighted; zero without neighbors.
pub open spec fn separation_of(nbrs: Seq<FlockAgent>, p: Vec2, b: AnimalBehavior) -> Vec2 {
    if nbrs.len() == 0 {
        zerov()
    } else {
        muldiv_of(
            unit_of(
                svec(
                    sdiv(sum_away_x(nbrs, p), nbrs.len() as int),
                    sdiv(sum_away_y(nbrs, p), nbrs.len() as int),
                ),
            ),
            b.separation as int,
            SCALE as int,
        )
    }
}

/// Mean flight vector away from the herders within flee range; zero when
/// none is in range, even if herders exist elsewhere.
pub open spec fn flee_mean_of(hs: Seq<HerderAgent>, p: Vec2, b: AnimalBehavior) -> Vec2 {
    let inr = herders_in_flee_range(hs, p, b.vision * b.flee_factor);
    if inr.len() == 0 {
        zerov()
    } else {
        svec(sdiv(sum_flee_x(inr, p), inr.len() as int), sdiv(sum_flee_y(inr, p), inr.len() as int))
    }
}

/// Flee: normalized mean flight vector, weighted.
pub open spec fn flee_of(hs: Seq<HerderAgent>, p: Vec2, b: AnimalBehavior) -> Vec2 {
    muldiv_of(unit_of(flee_mean_of(hs, p, b)), b.fear as int, SCALE as int)
}

/// Goal-seek: unit direction toward the goal, weighted; zero without one.
pub open spec fn goal_of(goal: Option<Vec2>, p: Vec2, b: AnimalBehavior) -> Vec2 {
    match goal {
        Option::None => zerov(),
        Option::Some(g) => muldiv_of(unit_of(diff_of(g, p)), b.motivation as int, SCALE as int),
    }
}

/// The accumulated steering direction: all weighted forces plus the
/// agent's own normalized velocity (momentum), before the final normalize.
pub open spec fn acc_of(
    p: Vec2,
    vel: Vec2,
    goal: Option<Vec2>,
    nbrs: Seq<FlockAgent>,
    hs: Seq<HerderAgent>,
    b: AnimalBehavior,
) -> Vec2 {
    plus_of(
        plus_of(
            plus_of(
                plus_of(plus_of(cohesion_of(nbrs, p, b), alignment_of(nbrs, b)), separation_of(
                    nbrs,
                    p,
                    b,
                )),
                flee_of(hs, p, b),
            ),
            goal_of(goal, p, b),
        ),
        unit_of(vel),
    )
}

/// The new speed: current speed plus the flee-magnitude boost, clamped to
/// the configured maximum.
pub open spec fn speed_of(vel: Vec2, p: Vec2, hs: Seq<HerderAgent>, b: AnimalBehavior) -> int {
    let boosted = len_of(vel) + sdiv(len_of(flee_mean_of(hs, p, b)) * b.flee_boost, SCALE as int);
    if boosted <= b.sheep_speed {
        boosted
    } else {
        b.sheep_speed as int
    }
}

/// The composed velocity: the normalized accumulated direction scaled to
/// the new speed.
pub open spec fn steer_velocity(
    p: Vec2,
    vel: Vec2,
    goal: Option<Vec2>,
    nbrs: Seq<FlockAgent>,
    hs: Seq<HerderAgent>,
    b: AnimalBehavior,
) -> Vec2 {
    muldiv_of(
        unit_of(acc_of(p, vel, goal, nbrs, hs, b)),
        speed_of(vel, p, hs, b),
        SCALE as int,
    )
}

/// Whether an agent at `p` with the given goal has arrived at it.
pub open spec fn has_arrived(p: Vec2, goal: Option<Vec2>) -> bool {
    goal is Some && dist_sq(p, goal->Some_0) < ARRIVE_EPS * ARRIVE_EPS
}

/// Result of composing one agent's steering for one tick.
pub struct SteerOutcome {
    /// The agent's new velocity.
    pub velocity: Vec2,
    /// Whether the agent reached its goal this tick (goal cleared,
    /// velocity zeroed).
    pub arrived: bool,
}

/// All positions and velocities of a neighbor list in range.
pub open spec fn nbrs_in_range(s: Seq<FlockAgent>) -> bool {
    forall|k: int| 0 <= k < s.len() ==> in_range((#[trigger] s[k]).pos) && in_range(s[k].vel)
}

/// All herder positions in range.
pub open spec fn herders_pos_in_range(s: Seq<HerderAgent>) -> bool {
    forall|k: int| 0 <= k < s.len() ==> in_range((#[trigger] s[k]).pos)
}

/// Truncating division of a sum of `n` values bounded by `cap`.
fn mean_comp(sum: i64, n: i64, cap: i64) -> (r: i64)
    requires
        1 <= n,
        0 <= cap,
        i64::MIN < sum,
        -((n as int) * cap) <= sum <= (n as int) * cap,
    ensures
        r == sdiv(sum as int, n as int),
        -cap <= r <= cap,
{
    proof {
        assert((if sum >= 0 { sum as int } else { -sum as int }) * 1 <= i64::MAX)
            by (nonlinear_arith)
            requires
                i64::MIN < sum <= i64::MAX,
        ;
    }
    let r = crate::vec2::comp_muldiv(sum, 1, n);
    proof {
        assert(sum * 1 == sum) by (nonlinear_arith);
        let mag = if sum >= 0 { sum as int } else { -sum as int };
        assert(mag * 1 == mag) by (nonlinear_arith);
        assert(mag <= (n as int) * cap);
        lemma_mean_bound(mag, n as int, cap as int);
    }
    r
}

/// A direction of length at most `SCALE`, scaled by a per-mille weight.
fn weighted(dir: Vec2, w: i64) -> (r: Vec2)
    requires
        -SCALE <= dir.x <= SCALE,
        -SCALE <= dir.y <= SCALE,
        0 <= w <= WEIGHT_LIMIT,
    ensures
        r == muldiv_of(dir, w as int, SCALE as int),
        -w <= r.x <= w,
        -w <= r.y <= w,
{
    proof {
        assert((if dir.x >= 0 { dir.x as int } else { -dir.x as int }) * w <= i64::MAX
            && (if dir.y >= 0 { dir.y as int } else { -dir.y as int }) * w <= i64::MAX)
            by (nonlinear_arith)
            requires
                -SCALE <= dir.x <= SCALE,
                -SCALE <= dir.y <= SCALE,
                0 <= w <= WEIGHT_LIMIT,
                SCALE == 1000,
                WEIGHT_LIMIT == 1_000_000,
        ;
    }
    let r = muldiv(dir, w, SCALE);
    proof {
        lemma_prop_bound(
            if dir.x >= 0 { dir.x as int } else { -dir.x as int },
            w as int,
            SCALE as int,
        );
        lemma_prop_bound(
            if dir.y >= 0 { dir.y as int } else { -dir.y as int },
            w as int,
            SCALE as int,
        );
    }
    r
}

/// Componentwise sums of the neighbors' positions.
fn sum_positions(nbrs: &Vec<FlockAgent>) -> (r: (i64, i64))
    requires
        nbrs@.len() <= 1_000_000_000,
        nbrs_in_range(nbrs@),
    ensures
        r.0 == sum_pos_x(nbrs@),
        r.1 == sum_pos_y(nbrs@),
        -(nbrs@.len() as int) * COORD_LIMIT <= r.0 <= (nbrs@.len() as int) * COORD_LIMIT,
        -(nbrs@.len() as int) * COORD_LIMIT <= r.1 <= (nbrs@.len() as int) * COORD_LIMIT,
{
    let mut sx: i64 = 0;
    let mut sy: i64 = 0;
    let mut j: usize = 0;
    while j < nbrs.len()
        invariant
            j <= nbrs@.len() <= 1_000_000_000,
            nbrs_in_range(nbrs@),
            sx == sum_pos_x(nbrs@.subrange(0, j as int)),
            sy == sum_pos_y(nbrs@.subrange(0, j as int)),
            -(j as int) * COORD_LIMIT <= sx <= (j as int) * COORD_LIMIT,
            -(j as int) * COORD_LIMIT <= sy <= (j as int) * COORD_LIMIT,
        decreases nbrs@.len() - j,
    {
        let a = nbrs[j];
        sx = sx + a.pos.x;
        sy = sy + a.pos.y;
        proof {
            assert(nbrs@.subrange(0, j + 1).drop_last() =~= nbrs@.subrange(0, j as int));
            assert(nbrs@.subrange(0, j + 1).last() == nbrs@[j as int]);
        }
        j = j + 1;
    }
    proof {
        assert(nbrs@.subrange(0, nbrs@.len() as int) =~= nbrs@);
    }
    (sx, sy)
}

/// Componentwise sums of the neighbors' normalized velocities.
fn sum_unit_vels(nbrs: &Vec<FlockAgent>) -> (r: (i64, i64))
    requires
        nbrs@.len() <= 1_000_000_000,
        nbrs_in_range(nbrs@),
    ensures
        r.0 == sum_unit_vel_x(nbrs@),
        r.1 == sum_unit_vel_y(nbrs@),
        -(nbrs@.len() as int) * SCALE <= r.0 <= (nbrs@.len() as int) * SCALE,
        -(nbrs@.len() as int) * SCALE <= r.1 <= (nbrs@.len() as int) * SCALE,
{
    let mut sx: i64 = 0;
    let mut sy: i64 = 0;
    let mut j: usize = 0;
    while j < nbrs.len()
        invariant
            j <= nbrs@.len() <= 1_000_000_000,
            nbrs_in_range(nbrs@),
            sx == sum_unit_vel_x(nbrs@.subrange(0, j as int)),
            sy == sum_unit_vel_y(nbrs@.subrange(0, j as int)),
            -(j as int) * SCALE <= sx <= (j as int) * SCALE,
            -(j as int) * SCALE <= sy <= (j as int) * SCALE,
        decreases nbrs@.len() - j,
    {
        let a = nbrs[j];
        let u = normalize_or_zero(a.vel);
        sx = sx + u.x;
        sy = sy + u.y;
        proof {
            assert(nbrs@.subrange(0, j + 1).drop_last() =~= nbrs@.subrange(0, j as int));
            assert(nbrs@.subrange(0, j + 1).last() == nbrs@[j as int]);
        }
        j = j + 1;
    }
    proof {
        assert(nbrs@.subrange(0, nbrs@.len() as int) =~= nbrs@);
    }
    (sx, sy)
}

/// Componentwise sums of the unit repulsion directions away from the
/// neighbors.
fn sum_aways(nbrs: &Vec<FlockAgent>, p: Vec2) -> (r: (i64, i64))
    requires
        in_range(p),
        nbrs@.len() <= 1_000_000_000,
        nbrs_in_range(nbrs@),
    ensures
        r.0 == sum_away_x(nbrs@, p),
        r.1 == sum_away_y(nbrs@, p),
        -(nbrs@.len() as int) * SCALE <= r.0 <= (nbrs@.len() as int) * SCALE,
        -(nbrs@.len() as int) * SCALE <= r.1 <= (nbrs@.len() as int) * SCALE,
{
    let mut sx: i64 = 0;
    let mut sy: i64 = 0;
    let mut j: usize = 0;
    while j < nbrs.len()
        invariant
            j <= nbrs@.len() <= 1_000_000_000,
            in_range(p),
            nbrs_in_range(nbrs@),
            sx == sum_away_x(nbrs@.subrange(0, j as int), p),
            sy == sum_away_y(nbrs@.subrange(0, j as int), p),
            -(j as int) * SCALE <= sx <= (j as int) * SCALE,
            -(j as int) * SCALE <= sy <= (j as int) * SCALE,
        decreases nbrs@.len() - j,
    {
        let a = nbrs[j];
        let d = p.minus(a.pos);
        let u = normalize_or_zero(d);
        proof {
            assert(d == diff_of(p, nbrs@[j as int].pos));
        }
        sx = sx + u.x;
        sy = sy + u.y;
        proof {
            assert(nbrs@.subrange(0, j + 1).drop_last() =~= nbrs@.subrange(0, j as int));
            assert(nbrs@.subrange(0, j + 1).last() == nbrs@[j as int]);
        }
        j = j + 1;
    }
    proof {
        assert(nbrs@.subrange(0, nbrs@.len() as int) =~= nbrs@);
    }
    (sx, sy)
}

/// Componentwise sums of the unit flight directions away from the herders.
fn sum_flees(hs: &Vec<HerderAgent>, p: Vec2) -> (r: (i64, i64))
    requires
        in_range(p),
        hs@.len() <= 1_000_000_000,
        herders_pos_in_range(hs@),
    ensures
        r.0 == sum_flee_x(hs@, p),
        r.1 == sum_flee_y(hs@, p),
        -(hs@.len() as int) * SCALE <= r.0 <= (hs@.len() as int) * SCALE,
        -(hs@.len() as int) * SCALE <= r.1 <= (hs@.len() as int) * SCALE,
{
    let mut sx: i64 = 0;
    let mut sy: i64 = 0;
    let mut j: usize = 0;
    while j < hs.len()
        invariant
            j <= hs@.len() <= 1_000_000_000,
            in_range(p),
            herders_pos_in_range(hs@),
            sx == sum_flee_x(hs@.subrange(0, j as int), p),
            sy == sum_flee_y(hs@.subrange(0, j as int), p),
            -(j as int) * SCALE <= sx <= (j as int) * SCALE,
            -(j as int) * SCALE <= sy <= (j as int) * SCALE,
        decreases hs@.len() - j,
    {
        let a = hs[j];
        let d = p.minus(a.pos);
        let u = normalize_or_zero(d);
        proof {
            assert(d == diff_of(p, hs@[j as int].pos));
        }
        sx = sx + u.x;
        sy = sy + u.y;
        proof {
            assert(hs@.subrange(0, j + 1).drop_last() =~= hs@.subrange(0, j as int));
            assert(hs@.subrange(0, j + 1).last() == hs@[j as int]);
        }
        j = j + 1;
    }
    proof {
        assert(hs@.subrange(0, hs@.len() as int) =~= hs@);
    }
    (sx, sy)
}

/// The herders within `range` of `p`, in arena order.
fn herders_in_range(hs: &Vec<HerderAgent>, p: Vec2, range: i64) -> (r: Vec<HerderAgent>)
    requires
        in_range(p),
        herders_pos_in_range(hs@),
        0 <= range <= 2 * COORD_LIMIT,
    ensures
        r@ == herders_in_flee_range(hs@, p, range as int),
        r@.len() <= hs@.len(),
        herders_pos_in_range(r@),
{
    proof {
        assert(range * range <= 4 * COORD_LIMIT * COORD_LIMIT) by (nonlinear_arith)
            requires
                0 <= range <= 2 * COORD_LIMIT,
                COORD_LIMIT == 1_000_000_000,
        ;
    }
    let r2: u64 = (range as u64) * (range as u64);
    let mut out: Vec<HerderAgent> = Vec::new();
    let mut j: usize = 0;
    while j < hs.len()
        invariant
            j <= hs@.len(),
            in_range(p),
            herders_pos_in_range(hs@),
            r2 == range * range,
            0 <= range <= 2 * COORD_LIMIT,
            out@ == herders_in_flee_range(hs@.subrange(0, j as int), p, range as int),
            out@.len() <= j,
            herders_pos_in_range(out@),
        decreases hs@.len() - j,
    {
        let a = hs[j];
        let d = dist_sq_between(p, a.pos);
        if d <= r2 {
            out.push(a);
        }
        proof {
            assert(hs@.subrange(0, j + 1).drop_last() =~= hs@.subrange(0, j as int));
            assert(hs@.subrange(0, j + 1).last() == hs@[j as int]);
        }
        j = j + 1;
    }
    proof {
        assert(hs@.subrange(0, hs@.len() as int) =~= hs@);
    }
    out
}

/// Compose one flock agent's steering for one tick.
///
/// `nbrs` is the agent's neighbor list (peers within vision), `herders`
/// the full herder arena. Reads only the previous tick's state; an empty
/// neighbor or herder list contributes zero, never an error.
pub fn steer_one(
    p: Vec2,
    vel: Vec2,
    goal: Option<Vec2>,
    nbrs: &Vec<FlockAgent>,
    herders: &Vec<HerderAgent>,
    b: &AnimalBehavior,
) -> (r: SteerOutcome)
    requires
        in_range(p),
        in_range(vel),
        goal is Some ==> in_range(goal->Some_0),
        nbrs@.len() <= 1_000_000_000,
        herders@.len() <= 1_000_000_000,
        nbrs_in_range(nbrs@),
        herders_pos_in_range(herders@),
        behavior_wf(*b),
    ensures
        r.arrived == has_arrived(p, goal),
        r.arrived ==> r.velocity == zerov(),
        !r.arrived ==> r.velocity == steer_velocity(p, vel, goal, nbrs@, herders@, *b),
        nsq(r.velocity) <= b.sheep_speed * b.sheep_speed,
        in_range(r.velocity),
{
    proof {
        assert(b.sheep_speed * b.sheep_speed >= 0) by (nonlinear_arith);
    }
    match goal {
        Option::Some(g) => {
            let d = dist_sq_between(p, g);
            if d < 4_000_000 {
                proof {
                    assert(ARRIVE_EPS * ARRIVE_EPS == 4_000_000) by (nonlinear_arith);
                }
                return SteerOutcome { velocity: Vec2 { x: 0, y: 0 }, arrived: true };
            }
            proof {
                assert(ARRIVE_EPS * ARRIVE_EPS == 4_000_000) by (nonlinear_arith);
            }
        },
        Option::None => {},
    }
    let n = nbrs.len();
    let mut acc = Vec2 { x: 0, y: 0 };
    if n > 0 {
        let sums = sum_positions(nbrs);
        let cx = mean_comp(sums.0, n as i64, COORD_LIMIT);
        let cy = mean_comp(sums.1, n as i64, COORD_LIMIT);
        let centroid = Vec2 { x: cx, y: cy };
        proof {
            assert(centroid == centroid_of(nbrs@));
        }
        let cdiff = centroid.minus(p);
        let coh_dir = normalize_or_zero(cdiff);
        proof {
            assert(cdiff == diff_of(centroid_of(nbrs@), p));
        }
        let coh = weighted(coh_dir, b.cohesion);
        proof {
            assert(coh == cohesion_of(nbrs@, p, *b));
        }
        let usums = sum_unit_vels(nbrs);
        let ax = mean_comp(usums.0, n as i64, SCALE);
        let ay = mean_comp(usums.1, n as i64, SCALE);
        let ali = weighted(Vec2 { x: ax, y: ay }, b.alignment);
        proof {
            assert(ali == alignment_of(nbrs@, *b));
        }
        let wsums = sum_aways(nbrs, p);
        let mx = mean_comp(wsums.0, n as i64, SCALE);
        let my = mean_comp(wsums.1, n as i64, SCALE);
        let sep_dir = normalize_or_zero(Vec2 { x: mx, y: my });
        let sep = weighted(sep_dir, b.separation);
        proof {
            assert(sep == separation_of(nbrs@, p, *b));
        }
        acc = coh.plus(ali).plus(sep);
        proof {
            assert(acc == plus_of(
                plus_of(cohesion_of(nbrs@, p, *b), alignment_of(nbrs@, *b)),
                separation_of(nbrs@, p, *b),
            ));
        }
    } else {
        proof {
            assert(acc == plus_of(
                plus_of(cohesion_of(nbrs@, p, *b), alignment_of(nbrs@, *b)),
                separation_of(nbrs@, p, *b),
            ));
        }
    }
    let flee_range = b.vision * b.flee_factor;
    let inr = herders_in_range(herders, p, flee_range);
    let cnt = inr.len();
    let mut flee_mean = Vec2 { x: 0, y: 0 };
    if cnt > 0 {
        let fsums = sum_flees(&inr, p);
        let fx = mean_comp(fsums.0, cnt as i64, SCALE);
        let fy = mean_comp(fsums.1, cnt as i64, SCALE);
        flee_mean = Vec2 { x: fx, y: fy };
    }
    proof {
        assert(flee_mean == flee_mean_of(herders@, p, *b));
    }
    let flee_len = length(flee_mean);
    let flee_dir = normalize_or_zero(flee_mean);
    let flee = weighted(flee_dir, b.fear);
    proof {
        assert(flee == flee_of(herders@, p, *b));
    }
    acc = acc.plus(flee);
    let goal_vec = match goal {
        Option::Some(g) => {
            let gdiff = g.minus(p);
            let gd = normalize_or_zero(gdiff);
            proof {
                assert(gdiff == diff_of(g, p));
            }
            weighted(gd, b.motivation)
        },
        Option::None => Vec2 { x: 0, y: 0 },
    };
    proof {
        assert(goal_vec == goal_of(goal, p, *b));
    }
    acc = acc.plus(goal_vec);
    let mom = normalize_or_zero(vel);
    acc = acc.plus(mom);
    proof {
        assert(acc == acc_of(p, vel, goal, nbrs@, herders@, *b));
    }
    let cur = length(vel);
    proof {
        lemma_nsq_nonneg(flee_mean);
        crate::vec2::lemma_isqrt_bounds(nsq(flee_mean) as nat);
        assert(flee_len <= 1500) by (nonlinear_arith)
            requires
                flee_len * flee_len <= nsq(flee_mean),
                nsq(flee_mean) == flee_mean.x * flee_mean.x + flee_mean.y * flee_mean.y,
                -SCALE <= flee_mean.x <= SCALE,
                -SCALE <= flee_mean.y <= SCALE,
                SCALE == 1000,
        ;
    }
    proof {
        assert(flee_len * b.flee_boost <= 1500 * (WEIGHT_LIMIT as int)) by (nonlinear_arith)
            requires
                0 <= flee_len <= 1500,
                0 <= b.flee_boost <= WEIGHT_LIMIT,
        ;
    }
    let boost = crate::vec2::mag_muldiv(flee_len, b.flee_boost as u64, SCALE as u64);
    proof {
        vstd::arithmetic::div_mod::lemma_div_pos_is_pos(
            (flee_len * b.flee_boost) as int,
            SCALE as int,
        );
        vstd::arithmetic::div_mod::lemma_div_is_ordered(
            (flee_len * b.flee_boost) as int,
            1500 * (WEIGHT_LIMIT as int),
            SCALE as int,
        );
    }
    let target = cur + boost;
    let new_speed: i64 = if target > b.sheep_speed as u64 {
        b.sheep_speed
    } else {
        target as i64
    };
    proof {
        assert(new_speed == speed_of(vel, p, herders@, *b));
        assert(0 <= new_speed <= b.sheep_speed);
    }
    let u = normalize_or_zero(acc);
    proof {
        assert((if u.x >= 0 { u.x as int } else { -u.x as int }) * new_speed <= i64::MAX
            && (if u.y >= 0 { u.y as int } else { -u.y as int }) * new_speed <= i64::MAX)
            by (nonlinear_arith)
            requires
                -SCALE <= u.x <= SCALE,
                -SCALE <= u.y <= SCALE,
                0 <= new_speed <= 1_000_000_000,
                SCALE == 1000,
        ;
    }
    let v_new = muldiv(u, new_speed, SCALE);
    proof {
        lemma_muldiv_norm(u, new_speed as int);
        assert(u == unit_of(acc_of(p, vel, goal, nbrs@, herders@, *b)));
        assert(v_new == steer_velocity(p, vel, goal, nbrs@, herders@, *b));
        lemma_sq_order(new_speed as int, b.sheep_speed as int);
    }
    SteerOutcome { velocity: v_new, arrived: false }
}

/// With an empty neighbor list the cohesion, alignment and separation
/// contributions are all exactly zero, for every agent and configuration.
/// (Integer arithmetic is total here: the division-by-zero and NaN cases
/// of a floating-point mean cannot arise.)
pub proof fn lemma_empty_neighbors_zero(p: Vec2, b: AnimalBehavior)
    ensures
        cohesion_of(Seq::empty(), p, b) == zerov(),
        alignment_of(Seq::empty(), b) == zerov(),
        separation_of(Seq::empty(), p, b) == zerov(),
{
}

/// When no herder lies within flee range, the flee contribution is
/// exactly zero, even if herders exist elsewhere: the mean is taken over
/// the in-range herders only, behind an explicit emptiness guard.
pub proof fn lemma_flee_zero_without_herders_in_range(
    hs: Seq<HerderAgent>,
    p: Vec2,
    b: AnimalBehavior,
)
    requires
        forall|k: int|
            0 <= k < hs.len() ==> dist_sq(p, (#[trigger] hs[k]).pos) > (b.vision * b.flee_factor)
                * (b.vision * b.flee_factor),
    ensures
        flee_mean_of(hs, p, b) == zerov(),
        flee_of(hs, p, b) == zerov(),
        len_of(flee_mean_of(hs, p, b)) == 0,
{
    lemma_flee_filter_empty(hs, p, b.vision * b.flee_factor);
    assert(flee_mean_of(hs, p, b) == zerov());
    lemma_unit_of_zero();
    assert(sdiv(0 * b.fear, SCALE as int) == 0) by {
        assert(0 * b.fear == 0) by (nonlinear_arith);
        vstd::arithmetic::div_mod::lemma_div_of0(SCALE as int);
    }
}

/// A herder list with every member out of range filters to nothing.
proof fn lemma_flee_filter_empty(hs: Seq<HerderAgent>, p: Vec2, range: int)
    requires
        forall|k: int|
            0 <= k < hs.len() ==> dist_sq(p, (#[trigger] hs[k]).pos) > range * range,
    ensures
        herders_in_flee_range(hs, p, range) =~= Seq::<HerderAgent>::empty(),
    decreases hs.len(),
{
    if hs.len() > 0 {
        assert(forall|k: int|
            0 <= k < hs.len() - 1 ==> (#[trigger] hs.drop_last()[k]) == hs[k]);
        lemma_flee_filter_empty(hs.drop_last(), p, range);
    }
}

/// Normalizing the zero vector yields the zero vector.
pub proof fn lemma_unit_of_zero()
    ensures
        unit_of(zerov()) == zerov(),
        len_of(zerov()) == 0,
{
    assert(nsq(zerov()) == 0) by (nonlinear_arith);
    assert(crate::vec2::isqrt_spec(0) == 0);
    assert(sdiv(0 * SCALE, 1) == 0) by {
        assert(0 * (SCALE as int) == 0) by (nonlinear_arith);
        vstd::arithmetic::div_mod::lemma_div_of0(1);
    }
}

/// Every agent of the arena is well formed.
pub open spec fn flock_wf(s: Seq<FlockAgent>) -> bool {
    forall|k: int| 0 <= k < s.len() ==> crate::agents::flock_agent_wf(#[trigger] s[k])
}

/// Every herder of the arena is well formed.
pub open spec fn herders_wf(s: Seq<HerderAgent>) -> bool {
    forall|k: int| 0 <= k < s.len() ==> crate::agents::herder_agent_wf(#[trigger] s[k])
}

/// The goal point of an optional move order.
pub open spec fn goal_target(mo: Option<MoveTo>) -> Option<Vec2> {
    match mo {
        Option::None => Option::None,
        Option::Some(m) => Option::Some(m.target()),
    }
}

/// A neighbor list drawn from an in-range arena is in range and no longer
/// than the arena.
pub proof fn lemma_peers_in_range(flock: Seq<FlockAgent>, i: int, origin: Vec2, radius: int)
    requires
        forall|k: int|
            0 <= k < flock.len() ==> in_range((#[trigger] flock[k]).pos) && in_range(flock[k].vel),
    ensures
        peers_of(flock, i, origin, radius).len() <= flock.len(),
        nbrs_in_range(peers_of(flock, i, origin, radius)),
    decreases flock.len(),
{
    if flock.len() > 0 {
        assert(forall|k: int|
            0 <= k < flock.len() - 1 ==> (#[trigger] flock.drop_last()[k]) == flock[k]);
        lemma_peers_in_range(flock.drop_last(), i, origin, radius);
        let rest = peers_of(flock.drop_last(), i, origin, radius);
        let s = peers_of(flock, i, origin, radius);
        let a = flock.last();
        if flock.len() - 1 != i && flocking_active(a) && dist_sq(origin, a.pos) <= radius * radius {
            assert(s == rest.push(a));
            assert forall|k: int| 0 <= k < s.len() implies in_range((#[trigger] s[k]).pos)
                && in_range(s[k].vel) by {
                if k < rest.len() {
                    assert(s[k] == rest[k]);
                } else {
                    assert(s[k] == a);
                }
            }
        }
    }
}

/// One flock agent's update for one tick, given the previous tick's state
/// of both arenas.
pub open spec fn flocking_update(
    a: FlockAgent,
    flock: Seq<FlockAgent>,
    i: int,
    hs: Seq<HerderAgent>,
    b: AnimalBehavior,
) -> FlockAgent {
    let nbrs = peers_of(flock, i, a.pos, b.vision as int);
    if has_arrived(a.pos, goal_target(a.move_to)) {
        FlockAgent {
            pos: a.pos,
            vel: zerov(),
            state: a.state,
            move_to: Option::None,
            cooldown: a.cooldown,
            jump: a.jump,
            life: a.life,
            in_flock: a.in_flock,
            despawned: a.despawned,
        }
    } else {
        FlockAgent {
            pos: a.pos,
            vel: steer_velocity(a.pos, a.vel, goal_target(a.move_to), nbrs, hs, b),
            state: a.state,
            move_to: a.move_to,
            cooldown: a.cooldown,
            jump: a.jump,
            life: a.life,
            in_flock: a.in_flock,
            despawned: a.despawned,
        }
    }
}

/// One steering tick over the whole flock arena.
///
/// All forces are computed against the previous tick's positions and
/// velocities (simultaneous-update semantics), then every new velocity is
/// written at once. Agents outside the flock, removed ones, and agents
/// under an invulnerability cooldown are left untouched. Without a
/// resolved behavior configuration the tick is a no-op.
pub fn sheep_flocking(
    flock: &mut Vec<FlockAgent>,
    herders: &Vec<HerderAgent>,
    behavior: Option<&AnimalBehavior>,
)
    requires
        old(flock)@.len() <= 1_000_000_000,
        herders@.len() <= 1_000_000_000,
        flock_wf(old(flock)@),
        herders_wf(herders@),
        behavior is Some ==> behavior_wf(*behavior->Some_0),
    ensures
        final(flock)@.len() == old(flock)@.len(),
        behavior is None ==> final(flock)@ == old(flock)@,
        behavior is Some ==> forall|i: int|
            0 <= i < old(flock)@.len() ==> final(flock)@[i] == (if flocking_active(
                old(flock)@[i],
            ) {
                flocking_update(old(flock)@[i], old(flock)@, i, herders@, *behavior->Some_0)
            } else {
                old(flock)@[i]
            }),
        flock_wf(final(flock)@),
{
    let b = match behavior {
        Option::Some(b) => b,
        Option::None => {
            return ;
        },
    };
    proof {
        assert forall|k: int| 0 <= k < flock@.len() implies in_range(
            (#[trigger] flock@[k]).pos,
        ) && in_range(flock@[k].vel) by {
            assert(crate::agents::flock_agent_wf(flock@[k]));
        }
        assert forall|k: int| 0 <= k < herders@.len() implies in_range(
            (#[trigger] herders@[k]).pos,
        ) by {
            assert(crate::agents::herder_agent_wf(herders@[k]));
        }
    }
    let mut updated: Vec<FlockAgent> = Vec::new();
    let mut i: usize = 0;
    while i < flock.len()
        invariant
            i <= flock@.len(),
            updated@.len() == i,
            flock@ == old(flock)@,
            flock@.len() <= 1_000_000_000,
            herders@.len() <= 1_000_000_000,
            flock_wf(flock@),
            herders_wf(herders@),
            behavior_wf(*b),
            forall|k: int|
                0 <= k < flock@.len() ==> in_range((#[trigger] flock@[k]).pos) && in_range(
                    flock@[k].vel,
                ),
            forall|k: int| 0 <= k < herders@.len() ==> in_range((#[trigger] herders@[k]).pos),
            forall|k: int|
                0 <= k < i ==> updated@[k] == (if flocking_active(flock@[k]) {
                    flocking_update(flock@[k], flock@, k, herders@, *b)
                } else {
                    flock@[k]
                }),
            forall|k: int| 0 <= k < i ==> crate::agents::flock_agent_wf(#[trigger] updated@[k]),
        decreases flock@.len() - i,
    {
        let a = flock[i];
        if a.in_flock && !a.despawned && a.cooldown.is_none() {
            let nbrs = flock_peers(flock, i, b.vision);
            proof {
                lemma_peers_in_range(flock@, i as int, a.pos, b.vision as int);
            }
            let goal = match a.move_to {
                Option::Some(m) => Option::Some(m.postion()),
                Option::None => Option::None,
            };
            let out = steer_one(a.pos, a.vel, goal, &nbrs, herders, b);
            let na = if out.arrived {
                FlockAgent {
                    pos: a.pos,
                    vel: Vec2 { x: 0, y: 0 },
                    state: a.state,
                    move_to: Option::None,
                    cooldown: a.cooldown,
                    jump: a.jump,
                    life: a.life,
                    in_flock: a.in_flock,
                    despawned: a.despawned,
                }
            } else {
                FlockAgent {
                    pos: a.pos,
                    vel: out.velocity,
                    state: a.state,
                    move_to: a.move_to,
                    cooldown: a.cooldown,
                    jump: a.jump,
                    life: a.life,
                    in_flock: a.in_flock,
                    despawned: a.despawned,
                }
            };
            proof {
                assert(goal == goal_target(flock@[i as int].move_to));
                assert(na == flocking_update(flock@[i as int], flock@, i as int, herders@, *b));
            }
            updated.push(na);
        } else {
            updated.push(a);
        }
        i = i + 1;
    }
    *flock = updated;
}

} // verus!
