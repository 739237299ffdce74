//! Spatial queries over the agent arena.
//!
//! The arena is a contiguous vector with stable indices; a "query" is an
//! explicit filter pass over it. An empty result is a valid result, never
//! an error.

use vstd::prelude::*;
use crate::agents::{flocking_active, FlockAgent};
use crate::vec2::{dist_sq, in_range, norm_sq, COORD_LIMIT, Vec2};

verus! {

/// Exact squared distance between two in-range points.
pub fn dist_sq_between(a: Vec2, b: Vec2) -> (r: u64)
    requires
        in_range(a),
        in_range(b),
    ensures
        r == dist_sq(a, b),
{
    let d = a.minus(b);
    norm_sq(d)
}

/// The flocking peers of the agent at index `i`: every *other* currently
/// flocking agent whose position lies within `radius` of `origin`, in
/// arena order.
pub open spec fn peers_of(flock: Seq<FlockAgent>, i: int, origin: Vec2, radius: int) -> Seq<
    FlockAgent,
>
    decreases flock.len(),
{
    if flock.len() == 0 {
        Seq::empty()
    } else {
        let rest = peers_of(flock.drop_last(), i, origin, radius);
        let a = flock.last();
        if flock.len() - 1 != i && flocking_active(a) && dist_sq(origin, a.pos) <= radius * radius {
            rest.push(a)
        } else {
            rest
        }
    }
}

/// Indices of all flock members (removed agents excluded, invulnerable
/// ones included) within `radius` of `origin`, in increasing order.
pub open spec fn members_in_range(flock: Seq<FlockAgent>, origin: Vec2, radius: int) -> Seq<int>
    decreases flock.len(),
{
    if flock.len() == 0 {
        Seq::empty()
    } else {
        let rest = members_in_range(flock.drop_last(), origin, radius);
        let a = flock.last();
        if a.in_flock && !a.despawned && dist_sq(origin, a.pos) <= radius * radius {
            rest.push(flock.len() - 1)
        } else {
            rest
        }
    }
}

/// Gather the flocking peers of agent `i` within `radius` of its position.
pub fn flock_peers(flock: &Vec<FlockAgent>, i: usize, radius: i64) -> (r: Vec<FlockAgent>)
    requires
        i < flock@.len(),
        forall|k: int| 0 <= k < flock@.len() ==> in_range(#[trigger] flock@[k].pos),
        0 <= radius <= 2 * COORD_LIMIT,
    ensures
        r@ == peers_of(flock@, i as int, flock@[i as int].pos, radius as int),
{
    let origin = flock[i].pos;
    proof {
        assert(radius * radius <= 4 * COORD_LIMIT * COORD_LIMIT) by (nonlinear_arith)
            requires
                0 <= radius <= 2 * COORD_LIMIT,
                COORD_LIMIT == 1_000_000_000,
        ;
    }
    let r2: u64 = (radius as u64) * (radius as u64);
    let mut out: Vec<FlockAgent> = Vec::new();
    let mut j: usize = 0;
    while j < flock.len()
        invariant
            j <= flock@.len(),
            i < flock@.len(),
            origin == flock@[i as int].pos,
            r2 == radius * radius,
            0 <= radius <= 2 * COORD_LIMIT,
            forall|k: int| 0 <= k < flock@.len() ==> in_range(#[trigger] flock@[k].pos),
            out@ == peers_of(flock@.subrange(0, j as int), i as int, origin, radius as int),
        decreases flock@.len() - j,
    {
        let a = flock[j];
        if j != i {
            let active = a.in_flock && !a.despawned && a.cooldown.is_none();
            if active {
                let d = dist_sq_between(origin, a.pos);
                if d <= r2 {
                    out.push(a);
                }
            }
        }
        proof {
            assert(flock@.subrange(0, j + 1).drop_last() =~= flock@.subrange(0, j as int));
            assert(flock@.subrange(0, j + 1).last() == flock@[j as int]);
        }
        j = j + 1;
    }
    proof {
        assert(flock@.subrange(0, flock@.len() as int) =~= flock@);
    }
    out
}

/// Gather the indices of all flock members within `radius` of `origin`.
pub fn flock_members_in_range(flock: &Vec<FlockAgent>, origin: Vec2, radius: i64) -> (r: Vec<usize>)
    requires
        in_range(origin),
        forall|k: int| 0 <= k < flock@.len() ==> in_range(#[trigger] flock@[k].pos),
        0 <= radius <= 2 * COORD_LIMIT,
    ensures
        r@.len() == members_in_range(flock@, origin, radius as int).len(),
        forall|k: int|
            0 <= k < r@.len() ==> r@[k] == members_in_range(flock@, origin, radius as int)[k],
{
    proof {
        assert(radius * radius <= 4 * COORD_LIMIT * COORD_LIMIT) by (nonlinear_arith)
            requires
                0 <= radius <= 2 * COORD_LIMIT,
                COORD_LIMIT == 1_000_000_000,
        ;
    }
    let r2: u64 = (radius as u64) * (radius as u64);
    let mut out: Vec<usize> = Vec::new();
    let mut j: usize = 0;
    while j < flock.len()
        invariant
            j <= flock@.len(),
            r2 == radius * radius,
            0 <= radius <= 2 * COORD_LIMIT,
            in_range(origin),
            forall|k: int| 0 <= k < flock@.len() ==> in_range(#[trigger] flock@[k].pos),
            out@.len() == members_in_range(flock@.subrange(0, j as int), origin, radius as int).len(),
            forall|k: int|
                0 <= k < out@.len() ==> out@[k] == members_in_range(
                    flock@.subrange(0, j as int),
                    origin,
                    radius as int,
                )[k],
        decreases flock@.len() - j,
    {
        let a = flock[j];
        if a.in_flock && !a.despawned {
            let d = dist_sq_between(origin, a.pos);
            if d <= r2 {
                out.push(j);
            }
        }
        proof {
            assert(flock@.subrange(0, j + 1).drop_last() =~= flock@.subrange(0, j as int));
            assert(flock@.subrange(0, j + 1).last() == flock@[j as int]);
        }
        j = j + 1;
    }
    proof {
        assert(flock@.subrange(0, flock@.len() as int) =~= flock@);
    }
    out
}

/// `members_in_range` holds an index exactly when that agent is a flock
/// member within the radius; each listed index is valid.
pub proof fn lemma_members_in_range_iff(flock: Seq<FlockAgent>, origin: Vec2, radius: int)
    ensures
        forall|k: int|
            members_in_range(flock, origin, radius).contains(k) <==> (0 <= k < flock.len()
                && flock[k].in_flock && !flock[k].despawned && dist_sq(origin, flock[k].pos)
                <= radius * radius),
    decreases flock.len(),
{
    if flock.len() > 0 {
        lemma_members_in_range_iff(flock.drop_last(), origin, radius);
        let s = members_in_range(flock, origin, radius);
        let rest = members_in_range(flock.drop_last(), origin, radius);
        let a = flock.last();
        let last: int = flock.len() - 1;
        assert forall|k: int|
            s.contains(k) <==> (0 <= k < flock.len() && flock[k].in_flock && !flock[k].despawned
                && dist_sq(origin, flock[k].pos) <= radius * radius) by {
            assert(0 <= k < last ==> flock.drop_last()[k] == flock[k]);
            if a.in_flock && !a.despawned && dist_sq(origin, a.pos) <= radius * radius {
                assert(s == rest.push(last));
                assert(s.contains(k) ==> rest.contains(k) || k == last) by {
                    if s.contains(k) {
                        let w = choose|w: int| 0 <= w < s.len() && s[w] == k;
                        if w < rest.len() {
                            assert(rest[w] == k);
                        }
                    }
                }
                assert(rest.contains(k) ==> s.contains(k)) by {
                    if rest.contains(k) {
                        let w = choose|w: int| 0 <= w < rest.len() && rest[w] == k;
                        assert(s[w] == k);
                    }
                }
                if k == last {
                    assert(s[s.len() - 1] == k);
                }
            } else {
                assert(s == rest);
                if k == last {
                    assert(rest.contains(k) ==> 0 <= k < last);
                    assert(!s.contains(k));
                }
            }
        }
    }
}

} // verus!
