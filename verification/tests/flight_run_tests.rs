use rust_rocket_sim::flight_run::{FlightPhase, FlightRun, PadAction, TickPlan, POST_FLIGHT_US};

#[test]
fn flying_before_the_end() {
    let mut r = FlightRun::new();
    assert_eq!(r.begin_tick(false, FlightPhase::Standby, 0), TickPlan::Fly);
    assert_eq!(r.flight_over_at_us, None);
}

#[test]
fn pad_hold_until_lift_off() {
    let mut r = FlightRun::new();
    assert_eq!(r.after_step(FlightPhase::Standby, false, true), PadAction::HoldOnPad);
    assert_eq!(r.after_step(FlightPhase::Armed, true, true), PadAction::HoldOnPad);
    assert_eq!(r.after_step(FlightPhase::Ascent, false, true), PadAction::HoldOnPad);
    assert!(!r.lifted_off);
    assert_eq!(r.after_step(FlightPhase::Ascent, true, true), PadAction::Release);
    assert!(r.lifted_off);
    // lift-off is kept even if thrust drops again
    assert_eq!(r.after_step(FlightPhase::Ascent, false, true), PadAction::Release);
}

#[test]
fn touchdown_only_in_descent() {
    let mut r = FlightRun::new();
    r.lifted_off = true;
    assert_eq!(r.after_step(FlightPhase::Hover, false, true), PadAction::Release);
    assert_eq!(r.after_step(FlightPhase::Descent, false, false), PadAction::Release);
    assert_eq!(r.after_step(FlightPhase::Descent, false, true), PadAction::DeclareLanded);
}

#[test]
fn post_flight_period() {
    let mut r = FlightRun::new();
    let t0 = 24_500_000;
    assert_eq!(r.begin_tick(true, FlightPhase::Descent, t0), TickPlan::Coast { step_fsm: false });
    assert_eq!(r.flight_over_at_us, Some(t0));
    assert_eq!(r.begin_tick(false, FlightPhase::Landed, t0 + 10_000), TickPlan::Coast { step_fsm: true });
    assert_eq!(r.flight_over_at_us, Some(t0));
    assert_eq!(r.begin_tick(true, FlightPhase::Landed, t0 + POST_FLIGHT_US - 1), TickPlan::Coast { step_fsm: true });
    assert_eq!(r.begin_tick(true, FlightPhase::Landed, t0 + POST_FLIGHT_US), TickPlan::Finish);
    assert_eq!(r.flight_over_at_us, Some(t0));
}

#[test]
fn debug_vectors_dropped_every_thousand_steps() {
    let mut r = FlightRun::new();
    let mut drops = Vec::new();
    for _ in 0..2500 {
        if r.end_tick(false) {
            drops.push(r.steps);
        }
    }
    assert_eq!(drops, vec![1000, 2000]);
    assert_eq!(r.steps, 2500);
    let mut d = FlightRun::new();
    d.steps = 999;
    assert!(!d.end_tick(true));
    assert_eq!(d.steps, 1000);
}
