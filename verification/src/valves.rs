//! The feed-system valves the ground station sees. The sim stands in for the valve hardware
//! layer the flight software does not have yet: operator valve commands (overrides, honoured
//! in Standby) drive the matching valves of the feed-system model, and the stand telemetry
//! reports each valve open or closed.

use vstd::prelude::*;

verus! {

/// Valves named by the ground-station protocol.
#[derive(Clone, Copy, Debug, PartialEq, Eq, Structural)]
pub enum ValveId {
    OIso,
    OVnt,
    PuIso,
    Rcs1,
    Rcs2,
    Mtv,
}

#[derive(Clone, Copy, Debug, PartialEq, Eq, Structural)]
pub enum ValveState {
    Open,
    Closed,
}

/// Open/closed state of the on/off valves of the feed-system model.
#[derive(Clone, Copy, Debug, PartialEq, Eq, Structural)]
pub struct ValveStates {
    /// Oxidiser isolation valve (`OIso`).
    pub o_iso: bool,
    /// Oxidiser vent valve (`OVnt`).
    pub o_vnt: bool,
    /// N2 storage to run tank isolation (`PuIso`).
    pub r_mv: bool,
    /// RCS valve 1 held open.
    pub rcs1_mv: bool,
    /// RCS valve 2 held open.
    pub rcs2_mv: bool,
}

/// Operator commands: for each valve, the commanded state, if one was given.
#[derive(Clone, Copy, Debug, PartialEq, Eq, Structural)]
pub struct ValveOverrides {
    pub o_iso: Option<bool>,
    pub o_vnt: Option<bool>,
    pub pu_iso: Option<bool>,
    pub rcs1: Option<bool>,
    pub rcs2: Option<bool>,
}

pub open spec fn overridden(cmd: Option<bool>, current: bool) -> bool {
    match cmd {
        Some(open) => open,
        None => current,
    }
}

pub open spec fn spec_apply_valve_overrides(v: ValveStates, o: ValveOverrides) -> ValveStates {
    ValveStates {
        o_iso: overridden(o.o_iso, v.o_iso),
        o_vnt: overridden(o.o_vnt, v.o_vnt),
        r_mv: overridden(o.pu_iso, v.r_mv),
        rcs1_mv: overridden(o.rcs1, v.rcs1_mv),
        rcs2_mv: overridden(o.rcs2, v.rcs2_mv),
    }
}

fn apply_one(cmd: Option<bool>, current: bool) -> (res: bool)
    ensures
        res == overridden(cmd, current),
{
    match cmd {
        Some(open) => open,
        None => current,
    }
}

/// Drives each valve that has an operator command to the commanded state; the others keep
/// theirs.
pub fn apply_valve_overrides(valves: &mut ValveStates, overrides: &ValveOverrides)
    ensures
        *final(valves) == spec_apply_valve_overrides(*old(valves), *overrides),
{
    valves.o_iso = apply_one(overrides.o_iso, valves.o_iso);
    valves.o_vnt = apply_one(overrides.o_vnt, valves.o_vnt);
    valves.r_mv = apply_one(overrides.pu_iso, valves.r_mv);
    valves.rcs1_mv = apply_one(overrides.rcs1, valves.rcs1_mv);
    valves.rcs2_mv = apply_one(overrides.rcs2, valves.rcs2_mv);
}

/// Applying the same operator commands again changes nothing.
pub proof fn lemma_overrides_idempotent(v: ValveStates, o: ValveOverrides)
    ensures
        spec_apply_valve_overrides(spec_apply_valve_overrides(v, o), o)
            == spec_apply_valve_overrides(v, o),
{
}

/// With no operator command, the valves are left as they are.
pub proof fn lemma_no_overrides_no_change(v: ValveStates)
    ensures
        spec_apply_valve_overrides(
            v,
            ValveOverrides { o_iso: None, o_vnt: None, pu_iso: None, rcs1: None, rcs2: None },
        ) == v,
{
}

/// Every operator command is obeyed by its own valve: a commanded valve ends in the
/// commanded state, and a valve without a command keeps its state.
pub proof fn lemma_commands_are_obeyed(v: ValveStates, o: ValveOverrides)
    ensures
        ({
            let n = spec_apply_valve_overrides(v, o);
            &&& (o.o_iso matches Some(b) ==> n.o_iso == b) && (o.o_iso is None ==> n.o_iso == v.o_iso)
            &&& (o.o_vnt matches Some(b) ==> n.o_vnt == b) && (o.o_vnt is None ==> n.o_vnt == v.o_vnt)
            &&& (o.pu_iso matches Some(b) ==> n.r_mv == b) && (o.pu_iso is None ==> n.r_mv == v.r_mv)
            &&& (o.rcs1 matches Some(b) ==> n.rcs1_mv == b) && (o.rcs1 is None ==> n.rcs1_mv
                == v.rcs1_mv)
            &&& (o.rcs2 matches Some(b) ==> n.rcs2_mv == b) && (o.rcs2 is None ==> n.rcs2_mv
                == v.rcs2_mv)
        }),
{
}

/// Sign of the roll command of the RCS controller.
#[derive(Clone, Copy, Debug, PartialEq, Eq, Structural)]
pub enum RollCommand {
    /// Positive command: fires RCS valve 1.
    Positive,
    /// Negative command: fires RCS valve 2.
    Negative,
    /// Zero (or no number): fires neither.
    Zero,
}

/// State of one valve as the stand telemetry reports it.
#[derive(Clone, Copy, Debug, PartialEq, Eq, Structural)]
pub struct ValveStatus {
    pub id: ValveId,
    pub state: ValveState,
}

/// Main throttle valve angle (µdeg) above which the valve is reported open: 0.5°.
pub const MTV_OPEN_ABOVE_UDEG: i64 = 500_000;

pub open spec fn state_of(open: bool) -> ValveState {
    if open {
        ValveState::Open
    } else {
        ValveState::Closed
    }
}

pub open spec fn spec_stand_valve_statuses(
    v: ValveStates,
    roll: RollCommand,
    mtv_angle_udeg: Option<i64>,
) -> Seq<ValveStatus> {
    let on_off = seq![
        ValveStatus { id: ValveId::OIso, state: state_of(v.o_iso) },
        ValveStatus { id: ValveId::OVnt, state: state_of(v.o_vnt) },
        ValveStatus { id: ValveId::PuIso, state: state_of(v.r_mv) },
        ValveStatus { id: ValveId::Rcs1, state: state_of(v.rcs1_mv || roll == RollCommand::Positive) },
        ValveStatus { id: ValveId::Rcs2, state: state_of(v.rcs2_mv || roll == RollCommand::Negative) },
    ];
    match mtv_angle_udeg {
        Some(a) => on_off.push(
            ValveStatus { id: ValveId::Mtv, state: state_of(a > MTV_OPEN_ABOVE_UDEG) },
        ),
        None => on_off,
    }
}

fn state_from(open: bool) -> (res: ValveState)
    ensures
        res == state_of(open),
{
    if open {
        ValveState::Open
    } else {
        ValveState::Closed
    }
}

/// Valve states for the stand telemetry: the on/off valves as the model has them, where an
/// RCS valve also counts as open while the roll command fires it (the same rule the rocket
/// model applies); then, when the fluid solver has produced a main throttle valve angle
/// (`mtv_angle_udeg`, rounded up to whole µdeg), the MTV, open above 0.5°. Negative angles
/// (the solver's map dips slightly below zero at zero thrust) count as 0° and so as closed.
pub fn stand_valve_statuses(
    valves: &ValveStates,
    roll: RollCommand,
    mtv_angle_udeg: Option<i64>,
) -> (res: Vec<ValveStatus>)
    ensures
        res@ == spec_stand_valve_statuses(*valves, roll, mtv_angle_udeg),
{
    let mut res: Vec<ValveStatus> = Vec::new();
    res.push(ValveStatus { id: ValveId::OIso, state: state_from(valves.o_iso) });
    res.push(ValveStatus { id: ValveId::OVnt, state: state_from(valves.o_vnt) });
    res.push(ValveStatus { id: ValveId::PuIso, state: state_from(valves.r_mv) });
    let rcs1 = valves.rcs1_mv || roll == RollCommand::Positive;
    let rcs2 = valves.rcs2_mv || roll == RollCommand::Negative;
    res.push(ValveStatus { id: ValveId::Rcs1, state: state_from(rcs1) });
    res.push(ValveStatus { id: ValveId::Rcs2, state: state_from(rcs2) });
    if let Some(angle) = mtv_angle_udeg {
        let clamped = if angle > 0 { angle } else { 0 };
        res.push(ValveStatus { id: ValveId::Mtv, state: state_from(clamped > MTV_OPEN_ABOVE_UDEG) });
    }
    assert(res@ =~= spec_stand_valve_statuses(*valves, roll, mtv_angle_udeg));
    res
}

/// The roll command never reports both RCS valves open unless both are held open: with
/// neither held open, at most one of them is open.
pub proof fn lemma_rcs_valves_exclusive(v: ValveStates, roll: RollCommand)
    requires
        !v.rcs1_mv,
        !v.rcs2_mv,
    ensures
        !(spec_stand_valve_statuses(v, roll, None)[3].state == ValveState::Open
            && spec_stand_valve_statuses(v, roll, None)[4].state == ValveState::Open),
{
}

/// What the stand telemetry reports: the five on/off valves in protocol order, each open
/// exactly when the model has it open, where an RCS valve is also open while the roll
/// command has that valve's sign (valve 1 positive, valve 2 negative); then the MTV when an
/// angle is known, open exactly above 0.5°.
pub proof fn lemma_reported_valve_states(v: ValveStates, roll: RollCommand, mtv_angle_udeg: Option<i64>)
    ensures
        ({
            let r = spec_stand_valve_statuses(v, roll, mtv_angle_udeg);
            &&& r.len() == if mtv_angle_udeg is Some { 6int } else { 5int }
            &&& r[0].id == ValveId::OIso && (r[0].state == ValveState::Open <==> v.o_iso)
            &&& r[1].id == ValveId::OVnt && (r[1].state == ValveState::Open <==> v.o_vnt)
            &&& r[2].id == ValveId::PuIso && (r[2].state == ValveState::Open <==> v.r_mv)
            &&& r[3].id == ValveId::Rcs1 && (r[3].state == ValveState::Open <==> (v.rcs1_mv || roll
                == RollCommand::Positive))
            &&& r[4].id == ValveId::Rcs2 && (r[4].state == ValveState::Open <==> (v.rcs2_mv || roll
                == RollCommand::Negative))
            &&& mtv_angle_udeg matches Some(a) ==> r[5].id == ValveId::Mtv && (r[5].state
                == ValveState::Open <==> a > 500_000)
        }),
{
}

/// With no RCS valve held open and no roll command, both RCS valves are reported closed.
pub proof fn lemma_idle_rcs_closed(v: ValveStates, mtv_angle_udeg: Option<i64>)
    requires
        !v.rcs1_mv,
        !v.rcs2_mv,
    ensures
        spec_stand_valve_statuses(v, RollCommand::Zero, mtv_angle_udeg)[3].state == ValveState::Closed,
        spec_stand_valve_statuses(v, RollCommand::Zero, mtv_angle_udeg)[4].state == ValveState::Closed,
{
}

} // verus!
