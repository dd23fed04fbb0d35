use rye::frame_pacing::{
    request_vsync_off, request_vsync_on, set_target_period, take_pending_vsync, target_period,
    wait_plan, Pacing, DEFAULT_PERIOD_NS, SPIN_TAIL_NS,
};

/// The period of a rate, and the rate of a period, as a host reckons them.
fn period_of(fps: f64) -> Option<u64> {
    if fps <= 0.0 {
        None
    } else {
        Some((1e9 / fps) as u64)
    }
}

fn rate_of(pacing: &Pacing) -> f64 {
    match target_period(pacing) {
        None => 0.0,
        Some(ns) => 1e9 / ns as f64,
    }
}

#[test]
fn default_is_60fps() {
    let mut pacing = Pacing::new();
    assert_eq!(target_period(&pacing), Some(DEFAULT_PERIOD_NS));
    set_target_period(&mut pacing, period_of(60.0));
    assert!((rate_of(&pacing) - 60.0).abs() < 0.01);
    assert!(target_period(&pacing).is_some());
}

#[test]
fn unlimited_round_trip() {
    let mut pacing = Pacing::new();
    set_target_period(&mut pacing, period_of(0.0));
    assert_eq!(rate_of(&pacing), 0.0);
    assert_eq!(target_period(&pacing), None);
    set_target_period(&mut pacing, period_of(60.0));
    assert_eq!(target_period(&pacing), Some(16_666_666));
}

#[test]
fn set_then_read() {
    let mut pacing = Pacing::new();
    set_target_period(&mut pacing, period_of(144.0));
    let f = rate_of(&pacing);
    assert!((f - 144.0).abs() < 0.5);
}

#[test]
fn vsync_request_round_trip() {
    let mut pacing = Pacing::new();
    let _ = take_pending_vsync(&mut pacing);
    request_vsync_on(&mut pacing);
    assert_eq!(take_pending_vsync(&mut pacing), Some(true));
    assert_eq!(take_pending_vsync(&mut pacing), None, "should clear after read");
    request_vsync_off(&mut pacing);
    assert_eq!(take_pending_vsync(&mut pacing), Some(false));
}

#[test]
fn precise_sleep_past_deadline_returns_immediately() {
    assert_eq!(wait_plan(50_000_000, 40_000_000), None);
    assert_eq!(wait_plan(50_000_000, 50_000_000), None);
}

#[test]
fn waits_sleep_then_spin() {
    assert_eq!(SPIN_TAIL_NS, 2_000_000);
    assert_eq!(wait_plan(0, 50_000_000), Some(48_000_000));
    assert_eq!(wait_plan(0, 2_000_000), Some(0));
    assert_eq!(wait_plan(0, 2_000_001), Some(1));
    assert_eq!(wait_plan(7, 8), Some(0));
}

#[test]
fn a_zero_period_is_kept_at_one() {
    let mut pacing = Pacing::new();
    set_target_period(&mut pacing, Some(0));
    assert_eq!(target_period(&pacing), Some(1));
}
