use rust_rocket_sim::pacer::{PaceAction, Pacer};

const MS: u128 = 1_000_000;

#[test]
fn ahead_sleeps_the_difference() {
    let mut p = Pacer::new();
    assert_eq!(p.wait_until(10 * MS, 4 * MS), PaceAction::Sleep { ns: 6 * MS });
    assert_eq!(p, Pacer::new());
}

#[test]
fn small_lag_is_chased() {
    let mut p = Pacer::new();
    assert_eq!(p.wait_until(10 * MS, 210 * MS), PaceAction::Continue);
    assert_eq!(p.dropped_ns, 0);
}

#[test]
fn large_lag_is_dropped_and_warned_once() {
    let mut p = Pacer::new();
    assert_eq!(p.wait_until(10 * MS, 300 * MS), PaceAction::Slip { behind_ns: 290 * MS, warn: true });
    assert_eq!(p.dropped_ns, 290 * MS);
    assert_eq!(p.last_warning_ns, Some(300 * MS));
    // on schedule again at the same sim time
    assert_eq!(p.wait_until(10 * MS, 300 * MS), PaceAction::Continue);
    // another slip within 5 s: no warning
    assert_eq!(p.wait_until(20 * MS, 1_000 * MS), PaceAction::Slip { behind_ns: 690 * MS, warn: false });
    assert_eq!(p.dropped_ns, 980 * MS);
    // more than 5 s after the last warning: warns again
    assert_eq!(p.wait_until(30 * MS, 6_000 * MS), PaceAction::Slip { behind_ns: 4_990 * MS, warn: true });
    assert_eq!(p.last_warning_ns, Some(6_000 * MS));
}
