use rust_rocket_sim::valves::{apply_valve_overrides, stand_valve_statuses, RollCommand, ValveId, ValveOverrides, ValveState, ValveStates};

fn closed() -> ValveStates {
    ValveStates { o_iso: false, o_vnt: false, r_mv: false, rcs1_mv: false, rcs2_mv: false }
}

#[test]
fn overrides_drive_only_commanded_valves() {
    let mut v = closed();
    v.o_vnt = true;
    let o = ValveOverrides { o_iso: Some(true), o_vnt: None, pu_iso: Some(false), rcs1: Some(true), rcs2: None };
    apply_valve_overrides(&mut v, &o);
    assert_eq!(v, ValveStates { o_iso: true, o_vnt: true, r_mv: false, rcs1_mv: true, rcs2_mv: false });
    let once = v;
    apply_valve_overrides(&mut v, &o);
    assert_eq!(v, once);
}

#[test]
fn stand_statuses() {
    let mut v = closed();
    v.rcs2_mv = true;
    let s = stand_valve_statuses(&v, RollCommand::Positive, Some(500_001));
    let states: Vec<(ValveId, ValveState)> = s.iter().map(|x| (x.id, x.state)).collect();
    assert_eq!(
        states,
        vec![
            (ValveId::OIso, ValveState::Closed),
            (ValveId::OVnt, ValveState::Closed),
            (ValveId::PuIso, ValveState::Closed),
            (ValveId::Rcs1, ValveState::Open),
            (ValveId::Rcs2, ValveState::Open),
            (ValveId::Mtv, ValveState::Open),
        ]
    );
}

#[test]
fn mtv_threshold_and_absent_angle() {
    let v = closed();
    assert_eq!(stand_valve_statuses(&v, RollCommand::Zero, Some(500_000))[5].state, ValveState::Closed);
    assert_eq!(stand_valve_statuses(&v, RollCommand::Zero, Some(-1_400_000))[5].state, ValveState::Closed);
    let s = stand_valve_statuses(&v, RollCommand::Negative, None);
    assert_eq!(s.len(), 5);
    assert_eq!(s[3].state, ValveState::Closed);
    assert_eq!(s[4].state, ValveState::Open);
}
