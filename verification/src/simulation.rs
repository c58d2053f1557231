//! Integer decisions of the simulation runs: how a run starts from its configured start
//! state, which part of a planned trajectory is still ahead (for drawing), and which
//! trajectory segment a tracking target is interpolated on.

use vstd::prelude::*;
use crate::flight_run::FlightPhase;

verus! {

/// What the flight state machine is told when a simulation starts.
#[derive(Clone, Copy, Debug, PartialEq, Eq, Structural)]
pub enum StartAction {
    /// Arm, then launch, at t = 0 (an ascent from the pad).
    ArmAndLaunch,
    /// Enter Hover at t = 0.
    Hover,
    /// Enter Descent at t = 0.
    Descent,
    /// Leave the flight state machine in the phase it was initialised in: the vehicle
    /// waits on the pad in Standby until the operator arms and launches it.
    Standby,
}

pub open spec fn spec_start_action(start_state: Seq<char>) -> StartAction {
    if start_state == "hover"@ {
        StartAction::Hover
    } else if start_state == "descent"@ {
        StartAction::Descent
    } else if start_state == "standby"@ {
        StartAction::Standby
    } else {
        StartAction::ArmAndLaunch
    }
}

/// The start action for a configured start state: `"hover"` and `"descent"` enter those
/// phases; `"standby"` leaves the vehicle on the pad in Standby; `"ascent"` and every other
/// text arm and launch.
pub fn start_action(start_state: &String) -> (res: StartAction)
    ensures
        res == spec_start_action(start_state@),
{
    let hover = String::from_str("hover");
    let descent = String::from_str("descent");
    let standby = String::from_str("standby");
    if *start_state == hover {
        StartAction::Hover
    } else if *start_state == descent {
        StartAction::Descent
    } else if *start_state == standby {
        StartAction::Standby
    } else {
        StartAction::ArmAndLaunch
    }
}

pub open spec fn spec_trajectory_window(num_nodes: usize, nodes_passed: usize) -> Option<usize> {
    if num_nodes < 2 {
        None
    } else {
        let start = if nodes_passed < num_nodes - 1 {
            nodes_passed
        } else {
            (num_nodes - 1) as usize
        };
        if num_nodes - start < 2 {
            None
        } else {
            Some(start)
        }
    }
}

/// Each recognised start state gives its own action, and every other text arms and launches.
pub proof fn lemma_start_actions(start_state: Seq<char>)
    ensures
        spec_start_action(start_state) == StartAction::Hover <==> start_state == "hover"@,
        spec_start_action(start_state) == StartAction::Descent <==> start_state == "descent"@,
        spec_start_action(start_state) == StartAction::Standby <==> start_state == "standby"@,
        spec_start_action(start_state) == StartAction::ArmAndLaunch <==> (start_state != "hover"@
            && start_state != "descent"@ && start_state != "standby"@),
{
    reveal_strlit("hover");
    reveal_strlit("descent");
    reveal_strlit("standby");
    assert("hover"@ != "descent"@) by {
        assert("hover"@.len() != "descent"@.len());
    }
    assert("hover"@ != "standby"@) by {
        assert("hover"@.len() != "standby"@.len());
    }
    assert("descent"@ != "standby"@) by {
        assert("descent"@[0] != "standby"@[0]);
    }
}

/// A window is drawn exactly when at least two nodes lie at or after the first node not yet
/// flown past, and it starts at that node.
pub proof fn lemma_window_is_what_remains(num_nodes: usize, nodes_passed: usize)
    ensures
        spec_trajectory_window(num_nodes, nodes_passed) is Some <==> nodes_passed + 2 <= num_nodes,
        nodes_passed + 2 <= num_nodes ==> spec_trajectory_window(num_nodes, nodes_passed) == Some(
            nodes_passed,
        ),
{
}

/// The part of a planned trajectory of `num_nodes` nodes that is still ahead after
/// `nodes_passed` nodes have been flown past: the index of its first node, or nothing when
/// fewer than two nodes (no line) remain.
pub fn trajectory_window(num_nodes: usize, nodes_passed: usize) -> (res: Option<usize>)
    ensures
        res == spec_trajectory_window(num_nodes, nodes_passed),
        res matches Some(start) ==> start + 2 <= num_nodes,
{
    if num_nodes < 2 {
        return None;
    }
    let start = if nodes_passed < num_nodes - 1 {
        nodes_passed
    } else {
        num_nodes - 1
    };
    if num_nodes - start < 2 {
        None
    } else {
        Some(start)
    }
}

/// The segment `[i, i + 1]` of a trajectory of `num_positions` points on which the tracking
/// target is interpolated, for a target time `base_idx` whole node intervals into it: the
/// last segment once past the end.
pub fn tracking_segment(num_positions: usize, base_idx: usize) -> (i: usize)
    requires
        num_positions >= 2,
    ensures
        i + 1 < num_positions,
        i == (if base_idx < num_positions - 2 {
            base_idx as int
        } else {
            num_positions - 2
        }),
{
    let last = num_positions - 2;
    if base_idx < last {
        base_idx
    } else {
        last
    }
}

/// Whether a simulation step may run.
#[derive(Clone, Copy, Debug, PartialEq, Eq, Structural)]
pub enum StepGate {
    /// The flight state machine terminated the flight: the run stops.
    Terminated,
    /// The lander is in the Landed phase: the run stops.
    Landed,
    /// Step.
    Proceed,
}

/// Decides at the top of a simulation step whether it runs; termination is reported before landing.
pub fn step_gate(terminated: bool, phase: FlightPhase) -> (res: StepGate)
    ensures
        res == (if terminated {
            StepGate::Terminated
        } else if phase == FlightPhase::Landed {
            StepGate::Landed
        } else {
            StepGate::Proceed
        }),
{
    if terminated {
        StepGate::Terminated
    } else if phase == FlightPhase::Landed {
        StepGate::Landed
    } else {
        StepGate::Proceed
    }
}

/// After the physics step: the run goes on unless the rocket model reported a failed step
/// once the minimum run time has passed.
pub fn run_continues(physics_ok: bool, past_min_time: bool) -> (res: bool)
    ensures
        res == (physics_ok || !past_min_time),
{
    physics_ok || !past_min_time
}

} // verus!
