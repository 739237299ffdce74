//! Steering scenarios: empty neighborhoods, the speed clamp, flee range
//! and direction, cohesion toward the cluster, arrival at a goal.

use herdcore::agents::{FlockAgent, HerderAgent, MoveTo};
use herdcore::params::AnimalBehavior;
use herdcore::sheep::{sheep_flocking, steer_one};
use herdcore::vec2::Vec2;

fn defaults() -> AnimalBehavior {
    let b = AnimalBehavior::default();
    assert!(b.is_wf());
    b
}

#[test]
fn isolated_still_agent_stays_still() {
    // No neighbors, no herders, no goal, zero velocity: every
    // contribution is zero and so is the composed velocity.
    let b = defaults();
    let out = steer_one(
        Vec2 { x: 0, y: 0 },
        Vec2 { x: 0, y: 0 },
        None,
        &Vec::new(),
        &Vec::new(),
        &b,
    );
    assert!(!out.arrived);
    assert_eq!(out.velocity, Vec2 { x: 0, y: 0 });
}

#[test]
fn speed_is_clamped_to_max() {
    // A fast agent keeps at most sheep_speed after composition.
    let b = defaults();
    let out = steer_one(
        Vec2 { x: 0, y: 0 },
        Vec2 { x: 40_000, y: 30_000 },
        None,
        &Vec::new(),
        &Vec::new(),
        &b,
    );
    let v = out.velocity;
    assert!(v.x * v.x + v.y * v.y <= b.sheep_speed * b.sheep_speed);
    assert!(v.x != 0 || v.y != 0);
}

#[test]
fn flee_points_away_from_herder() {
    // One flock agent 5 units from a herder, vision 20 and flee factor 4:
    // the herder is well within flee range, and the composed velocity
    // points straight away from it.
    let b = defaults();
    let herders = vec![HerderAgent::spawn(Vec2 { x: 5000, y: 0 })];
    let out = steer_one(
        Vec2 { x: 0, y: 0 },
        Vec2 { x: 0, y: 0 },
        None,
        &Vec::new(),
        &herders,
        &b,
    );
    assert_eq!(out.velocity, Vec2 { x: -998, y: 0 });
}

#[test]
fn herder_outside_flee_range_contributes_nothing() {
    // Flee range is vision * flee_factor = 80 units. A herder 100 units
    // away changes nothing against the herderless run.
    let b = defaults();
    let far = vec![HerderAgent::spawn(Vec2 { x: 100_000, y: 0 })];
    let with_far = steer_one(
        Vec2 { x: 0, y: 0 },
        Vec2 { x: 2000, y: 1000 },
        None,
        &Vec::new(),
        &far,
        &b,
    );
    let without = steer_one(
        Vec2 { x: 0, y: 0 },
        Vec2 { x: 2000, y: 1000 },
        None,
        &Vec::new(),
        &Vec::new(),
        &b,
    );
    assert_eq!(with_far.velocity, without.velocity);
}

#[test]
fn cluster_converges_toward_centroid() {
    // Ten agents in a row, one unit apart, no herders, no goals, each
    // with a small sideways velocity so the speed clamp lets them move:
    // after one tick every velocity's first component points toward the
    // flock centroid and no agent is still.
    let b = defaults();
    let mut flock: Vec<FlockAgent> = Vec::new();
    for i in 0..10i64 {
        let mut a = FlockAgent::spawn(Vec2 { x: i * 1000, y: 0 });
        a.vel = Vec2 { x: 0, y: 100 };
        flock.push(a);
    }
    let herders: Vec<HerderAgent> = Vec::new();
    sheep_flocking(&mut flock, &herders, Some(&b));
    let centroid_x: i64 = 4500;
    for a in flock.iter() {
        assert!(a.vel.x != 0 || a.vel.y != 0);
        if a.pos.x < centroid_x {
            assert!(a.vel.x > 0);
        } else {
            assert!(a.vel.x < 0);
        }
    }
}

#[test]
fn arrival_clears_goal_and_stops() {
    let b = defaults();
    let mut flock = vec![FlockAgent::spawn(Vec2 { x: 0, y: 0 })];
    flock[0].vel = Vec2 { x: 5000, y: 0 };
    flock[0].move_to = Some(MoveTo::new(Vec2 { x: 1000, y: 0 }));
    let herders: Vec<HerderAgent> = Vec::new();
    sheep_flocking(&mut flock, &herders, Some(&b));
    assert!(flock[0].move_to.is_none());
    assert_eq!(flock[0].vel, Vec2 { x: 0, y: 0 });
}

#[test]
fn missing_configuration_is_a_no_op() {
    let mut flock = vec![FlockAgent::spawn(Vec2 { x: 3, y: 4 })];
    flock[0].vel = Vec2 { x: 7, y: 8 };
    let herders: Vec<HerderAgent> = Vec::new();
    sheep_flocking(&mut flock, &herders, None);
    assert_eq!(flock[0].vel, Vec2 { x: 7, y: 8 });
    assert_eq!(flock[0].pos, Vec2 { x: 3, y: 4 });
}

#[test]
fn invulnerable_agents_do_not_flock() {
    // An agent under an invulnerability cooldown is skipped entirely.
    let b = defaults();
    let mut flock = vec![
        FlockAgent::spawn(Vec2 { x: 0, y: 0 }),
        FlockAgent::spawn(Vec2 { x: 1000, y: 0 }),
    ];
    flock[0].cooldown = Some(herdcore::agents::Cooldown::new(500));
    flock[0].vel = Vec2 { x: 123, y: 456 };
    let herders: Vec<HerderAgent> = Vec::new();
    sheep_flocking(&mut flock, &herders, Some(&b));
    assert_eq!(flock[0].vel, Vec2 { x: 123, y: 456 });
}

#[test]
fn rejects_bad_configuration() {
    let mut b = AnimalBehavior::default();
    b.cohesion = -1;
    assert!(!b.is_wf());
    let mut c = AnimalBehavior::default();
    c.sheep_speed = 2_000_000_000;
    assert!(!c.is_wf());
}
