//! The cooldown timers: finished exactly when the ticked time since the
//! last set reaches the set duration, and never past the duration.

use avian_pickup::cooldown::{
    Cooldown, Timer, DROP_COOLDOWN_MICROS, HOLD_COOLDOWN_MICROS, PULL_COOLDOWN_MICROS,
};

#[test]
fn a_never_set_timer_reports_finished() {
    let c = Cooldown::new();
    assert!(c.left.finished());
    assert!(c.right.finished());
}

#[test]
fn hold_sets_the_right_timer_to_nine_tenths() {
    let mut c = Cooldown::new();
    c.hold();
    assert_eq!(c.right.duration_micros, HOLD_COOLDOWN_MICROS);
    assert_eq!(c.right.elapsed_micros, 0);
    assert!(!c.right.finished());
    assert!(c.left.finished());
}

#[test]
fn finished_flips_exactly_at_the_set_duration() {
    let mut c = Cooldown::new();
    c.hold();
    c.tick(899_999);
    assert!(!c.right.finished());
    c.tick(1);
    assert!(c.right.finished());
}

#[test]
fn pull_sets_a_tenth_and_drop_held_sets_both_to_half() {
    let mut c = Cooldown::new();
    c.pull();
    assert_eq!(c.right.duration_micros, PULL_COOLDOWN_MICROS);
    c.drop_held();
    assert_eq!(c.left.duration_micros, DROP_COOLDOWN_MICROS);
    assert_eq!(c.right.duration_micros, DROP_COOLDOWN_MICROS);
    assert_eq!(c.left.elapsed_micros, 0);
    assert_eq!(c.right.elapsed_micros, 0);
}

#[test]
fn elapsed_time_is_clamped_at_the_duration() {
    let mut t = Timer::one_shot(100);
    t.tick(40);
    assert_eq!(t.elapsed_micros, 40);
    t.tick(40);
    assert_eq!(t.elapsed_micros, 80);
    t.tick(40);
    assert_eq!(t.elapsed_micros, 100);
    t.tick(u64::MAX);
    assert_eq!(t.elapsed_micros, 100);
    assert!(t.finished());
}

#[test]
fn cumulative_ticks_decide_finished_not_their_split() {
    // the same cumulative time, split differently, finishes the same
    let mut a = Timer::one_shot(100_000);
    for _ in 0..4 {
        a.tick(25_000);
    }
    assert!(a.finished());

    let mut b = Timer::one_shot(100_000);
    b.tick(99_999);
    assert!(!b.finished());
    b.tick(1);
    assert!(b.finished());
}

#[test]
fn a_new_set_supersedes_the_old_countdown() {
    let mut c = Cooldown::new();
    c.hold();
    c.tick(HOLD_COOLDOWN_MICROS);
    assert!(c.right.finished());
    c.pull();
    assert!(!c.right.finished());
    c.tick(PULL_COOLDOWN_MICROS - 1);
    assert!(!c.right.finished());
    c.tick(1);
    assert!(c.right.finished());
}
