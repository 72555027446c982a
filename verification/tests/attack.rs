//! The attack scheduler: cooldown arithmetic, range gating, stalling
//! out of range, and the floor(elapsed / period) event count.

use agent_nav::attack::schedule_attacks;
use agent_nav::attack::AttackCooldown;
use agent_nav::attack::DEFAULT_ATTACK_PERIOD_MS;
use agent_nav::attack::DEFAULT_DAMAGE;
use agent_nav::attack::DEFAULT_STRIKE_RANGE;
use agent_nav::geom::Vec3;

#[test]
fn no_event_before_the_first_full_period() {
    let mut cd = AttackCooldown::new(500);
    assert_eq!(cd.tick(499, true), 0);
    assert_eq!(cd.tick(1, true), 1);
    assert_eq!(cd.tick(499, true), 0);
    assert_eq!(cd.tick(1, true), 1);
}

#[test]
fn a_long_frame_completes_several_periods() {
    let mut cd = AttackCooldown::new(500);
    assert_eq!(cd.tick(1_600, true), 3);
    // 100 ms already consumed toward the next period.
    assert_eq!(cd.tick(400, true), 1);
}

#[test]
fn event_count_does_not_depend_on_frame_slicing() {
    let mut split = AttackCooldown::new(500);
    let mut whole = AttackCooldown::new(500);
    let mut split_events: u64 = 0;
    for dt in [300, 300, 120, 80, 450, 250] {
        split_events += split.tick(dt, true);
    }
    let whole_events = whole.tick(300 + 300 + 120 + 80 + 450 + 250, true);
    assert_eq!(split_events, whole_events);
    assert_eq!(whole_events, 1_500 / 500);
    assert_eq!(split.remaining, whole.remaining);
}

#[test]
fn out_of_range_frames_stall_the_cooldown() {
    let mut cd = AttackCooldown::new(500);
    assert_eq!(cd.tick(300, true), 0);
    // A long stretch out of range: nothing advances, nothing resets.
    assert_eq!(cd.tick(10_000, false), 0);
    assert_eq!(cd.tick(10_000, false), 0);
    // Back in range: the 300 ms already consumed still count.
    assert_eq!(cd.tick(200, true), 1);
}

#[test]
fn strikes_target_the_tracked_entity_with_negative_damage() {
    let mut cd = AttackCooldown::new(DEFAULT_ATTACK_PERIOD_MS);
    let agent = Vec3::new(0, 0, 0);
    let target = Some((42u64, Vec3::new(5_000, 0, 0)));
    let events = schedule_attacks(&mut cd, agent, target, DEFAULT_STRIKE_RANGE, DEFAULT_DAMAGE, 1_000);
    assert_eq!(events.len(), 2);
    for e in &events {
        assert_eq!(e.target, 42);
        assert_eq!(e.delta, -1_000);
    }
}

#[test]
fn out_of_strike_range_emits_nothing() {
    let mut cd = AttackCooldown::new(500);
    let agent = Vec3::new(0, 0, 0);
    let target = Some((42u64, Vec3::new(7_001, 0, 0)));
    let events = schedule_attacks(&mut cd, agent, target, 7_000, 1_000, 10_000);
    assert!(events.is_empty());
    assert_eq!(cd, AttackCooldown::new(500));
}

#[test]
fn target_exactly_at_strike_range_is_struck() {
    let mut cd = AttackCooldown::new(500);
    let agent = Vec3::new(0, 0, 0);
    let target = Some((7u64, Vec3::new(7_000, 0, 0)));
    let events = schedule_attacks(&mut cd, agent, target, 7_000, 1_000, 500);
    assert_eq!(events.len(), 1);
}

#[test]
fn missing_target_emits_nothing_and_stalls() {
    let mut cd = AttackCooldown::new(500);
    let events = schedule_attacks(&mut cd, Vec3::new(0, 0, 0), None, 7_000, 1_000, 10_000);
    assert!(events.is_empty());
    assert_eq!(cd, AttackCooldown::new(500));
}

#[test]
fn events_over_an_in_range_interval_match_the_floor() {
    // floor(2700 / 500) = 5, however the interval is split.
    let mut cd = AttackCooldown::new(500);
    let agent = Vec3::new(0, 0, 0);
    let target = Some((1u64, Vec3::new(1_000, 0, 0)));
    let mut total: usize = 0;
    for dt in [700, 700, 700, 600] {
        total += schedule_attacks(&mut cd, agent, target, 7_000, 250, dt).len();
    }
    assert_eq!(total, 2_700 / 500);
}
