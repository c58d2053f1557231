use rust_rocket_sim::flight_run::FlightPhase;
use rust_rocket_sim::simulation::{run_continues, start_action, step_gate, tracking_segment, trajectory_window, StartAction, StepGate};

#[test]
fn start_actions() {
    assert_eq!(start_action(&"ascent".to_string()), StartAction::ArmAndLaunch);
    assert_eq!(start_action(&"hover".to_string()), StartAction::Hover);
    assert_eq!(start_action(&"descent".to_string()), StartAction::Descent);
    assert_eq!(start_action(&"standby".to_string()), StartAction::Standby);
    assert_eq!(start_action(&"launch".to_string()), StartAction::ArmAndLaunch);
    assert_eq!(start_action(&"Hover".to_string()), StartAction::ArmAndLaunch);
}

#[test]
fn trajectory_windows() {
    assert_eq!(trajectory_window(0, 0), None);
    assert_eq!(trajectory_window(1, 0), None);
    assert_eq!(trajectory_window(10, 0), Some(0));
    assert_eq!(trajectory_window(10, 8), Some(8));
    assert_eq!(trajectory_window(10, 9), None);
    assert_eq!(trajectory_window(10, 500), None);
}

#[test]
fn tracking_segments() {
    assert_eq!(tracking_segment(2, 0), 0);
    assert_eq!(tracking_segment(2, 5), 0);
    assert_eq!(tracking_segment(10, 3), 3);
    assert_eq!(tracking_segment(10, 8), 8);
    assert_eq!(tracking_segment(10, 9), 8);
}

#[test]
fn step_gates() {
    assert_eq!(step_gate(true, FlightPhase::Landed), StepGate::Terminated);
    assert_eq!(step_gate(false, FlightPhase::Landed), StepGate::Landed);
    assert_eq!(step_gate(false, FlightPhase::Descent), StepGate::Proceed);
    assert!(run_continues(false, false));
    assert!(run_continues(true, true));
    assert!(!run_continues(false, true));
}
