//! Disruptor scenarios: who is struck, the invulnerability window, the
//! jittered re-arm cooldown, and the telegraph mirror.

use herdcore::agents::{DisruptorAgent, FlockAgent};
use herdcore::llama::{llama_stomp, update_progress};
use herdcore::params::AnimalBehavior;
use herdcore::timers::cooldown_system;
use herdcore::vec2::Vec2;

fn defaults() -> AnimalBehavior {
    let b = AnimalBehavior::default();
    assert!(b.is_wf());
    b
}

#[test]
fn stomp_hits_exactly_the_members_in_range() {
    // stomp range 32 units; three sheep within, two outside: exactly the
    // three receive impulses and invulnerability cooldowns, the two
    // outside are untouched.
    let b = defaults();
    let mut llamas = vec![DisruptorAgent::spawn(Vec2 { x: 0, y: 0 })];
    let mut flock = vec![
        FlockAgent::spawn(Vec2 { x: 1000, y: 0 }),
        FlockAgent::spawn(Vec2 { x: 0, y: 2000 }),
        FlockAgent::spawn(Vec2 { x: 3000, y: 3000 }),
        FlockAgent::spawn(Vec2 { x: 50_000, y: 0 }),
        FlockAgent::spawn(Vec2 { x: 0, y: 90_000 }),
    ];
    let hits = llama_stomp(&mut llamas, &mut flock, Some(&b));
    let mut struck: Vec<usize> = hits.iter().map(|h| h.flock_index).collect();
    struck.sort();
    assert_eq!(struck, vec![0, 1, 2]);
    for i in 0..3 {
        let c = flock[i].cooldown.expect("struck agents carry a cooldown");
        assert_eq!(c.duration_ms(), 500);
        assert_eq!(c.elapsed_ms(), 0);
    }
    assert!(flock[3].cooldown.is_none());
    assert!(flock[4].cooldown.is_none());
    // outward impulse: direction away from the disruptor, scaled by the
    // configured force
    let h0 = hits.iter().find(|h| h.flock_index == 0).unwrap();
    assert_eq!(h0.impulse, Vec2 { x: 599_400, y: 0 });
}

#[test]
fn rearm_cooldown_lies_within_jitter_band() {
    // After a stomp the disruptor's own cooldown duration lies within
    // [stomp_rate, stomp_rate + max_jitter].
    let b = defaults();
    for _ in 0..32 {
        let mut llamas = vec![DisruptorAgent::spawn(Vec2 { x: 0, y: 0 })];
        let mut flock: Vec<FlockAgent> = Vec::new();
        llama_stomp(&mut llamas, &mut flock, Some(&b));
        let c = llamas[0].cooldown.expect("the disruptor re-armed");
        assert!(c.duration_ms() >= 5000);
        assert!(c.duration_ms() <= 7000);
        assert_eq!(c.elapsed_ms(), 0);
    }
}

#[test]
fn no_retrigger_on_unexpired_invulnerability() {
    // Two ready disruptors at the same spot and one sheep in range: the
    // first strike attaches the cooldown, the second disruptor leaves
    // the protected sheep alone, so there is exactly one hit.
    let b = defaults();
    let mut llamas = vec![
        DisruptorAgent::spawn(Vec2 { x: 0, y: 0 }),
        DisruptorAgent::spawn(Vec2 { x: 0, y: 0 }),
    ];
    let mut flock = vec![FlockAgent::spawn(Vec2 { x: 1000, y: 0 })];
    let hits = llama_stomp(&mut llamas, &mut flock, Some(&b));
    assert_eq!(hits.len(), 1);
    assert_eq!(hits[0].flock_index, 0);
    // both disruptors re-armed regardless
    assert!(llamas[0].cooldown.is_some());
    assert!(llamas[1].cooldown.is_some());
}

#[test]
fn disruptor_on_cooldown_does_not_stomp() {
    let b = defaults();
    let mut llamas = vec![DisruptorAgent::spawn(Vec2 { x: 0, y: 0 })];
    let mut flock = vec![FlockAgent::spawn(Vec2 { x: 1000, y: 0 })];
    let first = llama_stomp(&mut llamas, &mut flock, Some(&b));
    assert_eq!(first.len(), 1);
    // clear the sheep's grace window but not the disruptor's re-arm
    cooldown_system(&mut flock, &mut Vec::new(), 600);
    assert!(flock[0].cooldown.is_none());
    let second = llama_stomp(&mut llamas, &mut flock, Some(&b));
    assert_eq!(second.len(), 0);
    assert!(flock[0].cooldown.is_none());
}

#[test]
fn stomp_without_configuration_is_a_no_op() {
    let mut llamas = vec![DisruptorAgent::spawn(Vec2 { x: 0, y: 0 })];
    let mut flock = vec![FlockAgent::spawn(Vec2 { x: 1000, y: 0 })];
    let hits = llama_stomp(&mut llamas, &mut flock, None);
    assert!(hits.is_empty());
    assert!(llamas[0].cooldown.is_none());
    assert!(flock[0].cooldown.is_none());
}

#[test]
fn telegraph_mirrors_cooldown_progress() {
    let b = defaults();
    let mut llamas = vec![DisruptorAgent::spawn(Vec2 { x: 0, y: 0 })];
    let mut flock: Vec<FlockAgent> = Vec::new();
    llama_stomp(&mut llamas, &mut flock, Some(&b));
    let d: u64 = llamas[0].cooldown.unwrap().duration_ms();
    // advance part of the cooldown, then check the telegraph shows the
    // elapsed fraction in per-mille
    let quarter: u64 = d / 4;
    cooldown_system(&mut flock, &mut llamas, quarter);
    update_progress(&mut llamas);
    let c = llamas[0].cooldown.unwrap();
    assert_eq!(
        llamas[0].telegraph_progress,
        c.elapsed_ms() * 1000 / c.duration_ms()
    );
    assert!(llamas[0].telegraph_progress <= 1000);
}

#[test]
fn expired_cooldowns_are_detached() {
    let mut flock = vec![FlockAgent::spawn(Vec2 { x: 0, y: 0 })];
    flock[0].cooldown = Some(herdcore::agents::Cooldown::new(500));
    flock[0].jump = Some(herdcore::agents::Cooldown::new(200));
    let mut llamas: Vec<DisruptorAgent> = Vec::new();
    cooldown_system(&mut flock, &mut llamas, 300);
    assert!(flock[0].cooldown.is_some());
    assert!(flock[0].jump.is_none());
    cooldown_system(&mut flock, &mut llamas, 200);
    assert!(flock[0].cooldown.is_none());
}

#[test]
fn lifetime_expiry_despawns() {
    let mut flock = vec![FlockAgent::spawn(Vec2 { x: 0, y: 0 })];
    flock[0].life = Some(herdcore::agents::LifeTime::new(200));
    herdcore::timers::lifetime_system(&mut flock, 100);
    assert!(!flock[0].despawned);
    herdcore::timers::lifetime_system(&mut flock, 100);
    assert!(flock[0].despawned);
    assert!(flock[0].life.is_none());
}
