//! Exact values for the fixed-point primitives, timers and states.

use herdcore::agents::{AnimalState, Cooldown, LifeTime, MoveTo, VisibilityTimer};
use herdcore::vec2::{isqrt, length, norm_sq, normalize_or_zero, Vec2};

#[test]
fn isqrt_exact_values() {
    assert_eq!(isqrt(0), 0);
    assert_eq!(isqrt(1), 1);
    assert_eq!(isqrt(10), 3);
    assert_eq!(isqrt(24), 4);
    assert_eq!(isqrt(25), 5);
    assert_eq!(isqrt(26), 5);
    assert_eq!(isqrt(u64::MAX), 4_294_967_295);
}

#[test]
fn norm_sq_and_length() {
    let v = Vec2 { x: 3000, y: -4000 };
    assert_eq!(norm_sq(v), 25_000_000);
    assert_eq!(length(v), 5000);
    assert_eq!(length(Vec2 { x: 0, y: 0 }), 0);
}

#[test]
fn normalize_exact() {
    // length 5000, divisor 5001: components floor(3000*1000/5001), floor(4000*1000/5001)
    let u = normalize_or_zero(Vec2 { x: 3000, y: 4000 });
    assert_eq!(u, Vec2 { x: 599, y: 799 });
    let n = normalize_or_zero(Vec2 { x: -3000, y: 4000 });
    assert_eq!(n, Vec2 { x: -599, y: 799 });
}

#[test]
fn normalize_zero_stays_zero() {
    let u = normalize_or_zero(Vec2 { x: 0, y: 0 });
    assert_eq!(u, Vec2 { x: 0, y: 0 });
}

#[test]
fn normalize_never_exceeds_scale() {
    for &(x, y) in &[(1i64, 1i64), (2, 0), (1_000_000, 999_999), (-5, 12), (0, -1)] {
        let u = normalize_or_zero(Vec2 { x, y });
        assert!(u.x * u.x + u.y * u.y <= 1_000_000);
    }
}

#[test]
fn cooldown_progress_exact() {
    let mut c = Cooldown::new(1000);
    assert_eq!(c.progress(), 0);
    assert!(!c.finished());
    c.tick(250);
    assert_eq!(c.progress(), 250);
    c.tick(500);
    assert_eq!(c.progress(), 750);
    c.tick(10_000);
    assert_eq!(c.progress(), 1000);
    assert!(c.finished());
    assert_eq!(c.duration_ms(), 1000);
    assert_eq!(c.elapsed_ms(), 1000);
}

#[test]
fn lifetime_finishes() {
    let mut l = LifeTime::new(200);
    l.tick(199);
    assert!(!l.finished());
    l.tick(1);
    assert!(l.finished());
}

#[test]
fn visibility_timer_finishes() {
    let mut t = VisibilityTimer::new(300);
    t.tick(300);
    assert!(t.finished());
}

#[test]
fn move_to_set_and_read() {
    let mut m = MoveTo::new(Vec2 { x: 5, y: 6 });
    assert_eq!(m.postion(), Vec2 { x: 5, y: 6 });
    m.set(Vec2 { x: -1, y: 2 });
    assert_eq!(m.postion(), Vec2 { x: -1, y: 2 });
}

#[test]
fn animation_names() {
    assert_eq!(AnimalState::Idle.animation_name(), "Idle");
    assert_eq!(AnimalState::Dead.animation_name(), "Death");
    assert_eq!(AnimalState::Walking.animation_name(), "Walk");
    assert_eq!(AnimalState::Running.animation_name(), "Run");
    assert_eq!(AnimalState::Jumping.animation_name(), "Jump");
    assert!(AnimalState::Dead.is_dead());
    assert!(AnimalState::Running.is_running());
    assert!(AnimalState::Jumping.is_jumping());
    assert!(AnimalState::Idle.is_idle());
}
