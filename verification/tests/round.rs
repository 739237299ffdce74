//! Round progress: removal events, the score invariant, the behavior
//! state machine, and win/loss resolution.

use herdcore::agents::{AnimalState, FlockAgent, HerderAgent};
use herdcore::behavior::update_state;
use herdcore::progress::{check_progress, watch_goal_enter, watch_trap_enter, LevelOver, Score};
use herdcore::vec2::Vec2;

fn fresh_flock(n: usize) -> Vec<FlockAgent> {
    let mut flock = Vec::new();
    for i in 0..n {
        flock.push(FlockAgent::spawn(Vec2 { x: i as i64 * 1000, y: 0 }));
    }
    flock
}

#[test]
fn goal_events_count_each_member_once() {
    let mut flock = fresh_flock(3);
    let mut score = Score { lost: 0, saved: 0, total_sheep: 3 };
    // a duplicate and an out-of-range id are skipped
    let events: Vec<usize> = vec![0, 0, 5, 2];
    watch_goal_enter(&mut flock, &mut score, &events);
    assert_eq!(score.saved, 2);
    assert_eq!(score.lost, 0);
    assert!(score.saved + score.lost <= score.total_sheep);
    assert!(!flock[0].in_flock);
    assert_eq!(flock[0].state, AnimalState::Jumping);
    assert_eq!(flock[0].vel, Vec2 { x: 0, y: 0 });
    assert!(flock[0].life.is_some());
    assert!(flock[1].in_flock);
    assert!(!flock[2].in_flock);
}

#[test]
fn trap_events_mark_agents_dead() {
    let mut flock = fresh_flock(2);
    let mut score = Score { lost: 0, saved: 0, total_sheep: 2 };
    let events: Vec<usize> = vec![1, 1];
    watch_trap_enter(&mut flock, &mut score, &events);
    assert_eq!(score.lost, 1);
    assert_eq!(flock[1].state, AnimalState::Dead);
    assert!(!flock[1].in_flock);
    assert!(flock[1].life.is_some());
    assert!(flock[0].in_flock);
}

#[test]
fn score_can_reach_the_total() {
    // equality of saved + lost with the total is reachable
    let mut flock = fresh_flock(4);
    let mut score = Score { lost: 0, saved: 0, total_sheep: 4 };
    watch_goal_enter(&mut flock, &mut score, &vec![0, 1]);
    watch_trap_enter(&mut flock, &mut score, &vec![2, 3]);
    assert_eq!(score.saved, 2);
    assert_eq!(score.lost, 2);
    assert_eq!(score.saved + score.lost, score.total_sheep);
}

#[test]
fn score_reset_zeroes_counters() {
    let mut score = Score { lost: 3, saved: 4, total_sheep: 9 };
    score.reset();
    assert_eq!(score, Score { lost: 0, saved: 0, total_sheep: 0 });
}

#[test]
fn level_won_fires_exactly_once() {
    // total 10, saved 6, lost 0, win percent 50: saved share 60% > 50%
    let score = Score { lost: 0, saved: 6, total_sheep: 10 };
    let mut over: Option<LevelOver> = None;
    let (won, lost) = check_progress(&score, 50, &mut over);
    assert!(won.is_some());
    assert!(lost.is_none());
    assert!(over.is_some());
    let (won2, lost2) = check_progress(&score, 50, &mut over);
    assert!(won2.is_none());
    assert!(lost2.is_none());
    assert!(over.is_some());
}

#[test]
fn level_lost_fires_on_the_complement_threshold() {
    // lost share 60% > 100 - 50: the round is lost
    let score = Score { lost: 6, saved: 0, total_sheep: 10 };
    let mut over: Option<LevelOver> = None;
    let (won, lost) = check_progress(&score, 50, &mut over);
    assert!(won.is_none());
    assert!(lost.is_some());
    assert!(over.is_some());
}

#[test]
fn exact_threshold_does_not_fire() {
    // exactly 50% saved is not strictly above 50%
    let score = Score { lost: 0, saved: 5, total_sheep: 10 };
    let mut over: Option<LevelOver> = None;
    let (won, lost) = check_progress(&score, 50, &mut over);
    assert!(won.is_none());
    assert!(lost.is_none());
    assert!(over.is_none());
}

#[test]
fn empty_round_never_resolves() {
    let score = Score { lost: 0, saved: 0, total_sheep: 0 };
    let mut over: Option<LevelOver> = None;
    let (won, lost) = check_progress(&score, 50, &mut over);
    assert!(won.is_none() && lost.is_none() && over.is_none());
}

#[test]
fn velocity_rule_thresholds() {
    let mut flock = fresh_flock(5);
    flock[0].vel = Vec2 { x: 0, y: 0 };
    flock[1].vel = Vec2 { x: 1000, y: 0 }; // exactly the walk threshold
    flock[2].vel = Vec2 { x: 1001, y: 0 };
    flock[3].vel = Vec2 { x: 10_000, y: 0 }; // exactly the run threshold
    flock[4].vel = Vec2 { x: 10_001, y: 0 };
    let mut herders: Vec<HerderAgent> = Vec::new();
    update_state(&mut flock, &mut herders);
    assert_eq!(flock[0].state, AnimalState::Idle);
    assert_eq!(flock[1].state, AnimalState::Idle);
    assert_eq!(flock[2].state, AnimalState::Walking);
    assert_eq!(flock[3].state, AnimalState::Walking);
    assert_eq!(flock[4].state, AnimalState::Running);
}

#[test]
fn dead_agents_never_leave_dead() {
    let mut flock = fresh_flock(1);
    flock[0].state = AnimalState::Dead;
    flock[0].vel = Vec2 { x: 50_000, y: 0 };
    let mut herders: Vec<HerderAgent> = Vec::new();
    update_state(&mut flock, &mut herders);
    assert_eq!(flock[0].state, AnimalState::Dead);
}

#[test]
fn jump_override_suppresses_the_velocity_rule() {
    let mut flock = fresh_flock(1);
    flock[0].state = AnimalState::Jumping;
    flock[0].jump = Some(herdcore::agents::Cooldown::new(200));
    flock[0].vel = Vec2 { x: 50_000, y: 0 };
    let mut herders: Vec<HerderAgent> = Vec::new();
    update_state(&mut flock, &mut herders);
    assert_eq!(flock[0].state, AnimalState::Jumping);
}

#[test]
fn herders_follow_the_velocity_rule_too() {
    let mut flock: Vec<FlockAgent> = Vec::new();
    let mut herders = vec![HerderAgent::spawn(Vec2 { x: 0, y: 0 })];
    herders[0].vel = Vec2 { x: 20_000, y: 0 };
    update_state(&mut flock, &mut herders);
    assert_eq!(herders[0].state, AnimalState::Running);
}
