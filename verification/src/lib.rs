//! Decision logic of the propulsive-lander flight simulator: command-line options of the
//! ground-station mode, the touchdown sensor, the pacing and flight-loop state machines,
//! valve handling, and the selection step of the MPC weight tuner.

pub mod options;
pub mod flight_run;
pub mod pacer;
pub mod mpc_tuning;
pub mod touchdown;
pub mod valves;
pub mod simulation;
