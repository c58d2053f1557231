//! Decisions of one ground-station flight: Standby on the pad until the operator flies it,
//! then until Landed or flight termination plus a post-flight period during which physics
//! and telemetry keep running. The caller performs each action (stepping the simulation and
//! the flight software, publishing, pacing) and reports what it observed.

use vstd::prelude::*;

verus! {

/// How long the run keeps publishing after Landed / flight termination, in microseconds of
/// simulated time (8 s), so the ground station sees the end state.
pub const POST_FLIGHT_US: u64 = 8_000_000;

/// The debug vectors of the rocket model are dropped every this many loop iterations when
/// debug output is off.
pub const DEBUG_RESET_PERIOD: u64 = 1000;

/// Flight phase of the flight state machine, as far as the run loop tells phases apart.
#[derive(Clone, Copy, Debug, PartialEq, Eq, Structural)]
pub enum FlightPhase {
    Standby,
    Armed,
    Ascent,
    Hover,
    Descent,
    Landed,
}

/// What the loop does at the top of an iteration.
#[derive(Clone, Copy, Debug, PartialEq, Eq, Structural)]
pub enum TickPlan {
    /// The post-flight period is over: the flight run ends.
    Finish,
    /// The flight is over: step the physics with zero controls and advance the clock; also
    /// step the flight software when it is in the (live) Landed phase.
    Coast { step_fsm: bool },
    /// Step the whole simulation.
    Fly,
}

/// What the loop does to the vehicle after a simulation step.
#[derive(Clone, Copy, Debug, PartialEq, Eq, Structural)]
pub enum PadAction {
    /// Hold-down clamps: pin the vehicle on the pad at rest.
    HoldOnPad,
    /// The legs are on the ground during descent: set the flight phase to Landed.
    DeclareLanded,
    /// Leave the vehicle to the physics.
    Release,
}

/// The loop's own state across iterations.
#[derive(Clone, Copy, Debug, PartialEq, Eq, Structural)]
pub struct FlightRun {
    /// Simulated time (µs) at which the flight was first seen over, if it has been.
    pub flight_over_at_us: Option<u64>,
    /// Loop iterations completed so far.
    pub steps: u64,
    /// Whether the engine has carried the vehicle off the pad (thrust above weight during
    /// Ascent); the hold-down clamps are released from then on.
    pub lifted_off: bool,
}

/// What the loop observes in one iteration.
pub struct TickInput {
    pub terminated: bool,
    pub phase: FlightPhase,
    pub now_us: u64,
    pub thrust_exceeds_weight: bool,
    pub touched_down: bool,
    pub debug: bool,
}

pub open spec fn flight_is_over(terminated: bool, phase: FlightPhase) -> bool {
    terminated || phase == FlightPhase::Landed
}

/// The top-of-iteration decision.
pub open spec fn spec_begin_tick(s: FlightRun, terminated: bool, phase: FlightPhase, now_us: u64) -> (
    FlightRun,
    TickPlan,
) {
    if flight_is_over(terminated, phase) {
        let ended = match s.flight_over_at_us {
            Some(e) => e,
            None => now_us,
        };
        let s2 = FlightRun { flight_over_at_us: Some(ended), ..s };
        if now_us >= ended + POST_FLIGHT_US {
            (s2, TickPlan::Finish)
        } else {
            (s2, TickPlan::Coast { step_fsm: phase == FlightPhase::Landed })
        }
    } else {
        (s, TickPlan::Fly)
    }
}

pub open spec fn holds_on_pad(phase: FlightPhase, lifted_off: bool) -> bool {
    phase == FlightPhase::Standby || phase == FlightPhase::Armed || (phase == FlightPhase::Ascent
        && !lifted_off)
}

/// The decision after a simulation step; `phase` is the phase read before the step.
pub open spec fn spec_after_step(
    s: FlightRun,
    phase: FlightPhase,
    thrust_exceeds_weight: bool,
    touched_down: bool,
) -> (FlightRun, PadAction) {
    let lifted = s.lifted_off || (phase == FlightPhase::Ascent && thrust_exceeds_weight);
    let s2 = FlightRun { lifted_off: lifted, ..s };
    if holds_on_pad(phase, lifted) {
        (s2, PadAction::HoldOnPad)
    } else if phase == FlightPhase::Descent && touched_down {
        (s2, PadAction::DeclareLanded)
    } else {
        (s2, PadAction::Release)
    }
}

/// The bottom-of-iteration bookkeeping: count the iteration; the result says whether to
/// drop the debug vectors now.
pub open spec fn spec_end_tick(s: FlightRun, debug: bool) -> (FlightRun, bool) {
    let steps = (s.steps + 1) as u64;
    (FlightRun { steps, ..s }, !debug && steps % DEBUG_RESET_PERIOD == 0)
}

/// One whole iteration of the loop, as the loop runs the three decisions.
pub open spec fn spec_tick(s: FlightRun, input: TickInput) -> FlightRun {
    let (s1, plan) = spec_begin_tick(s, input.terminated, input.phase, input.now_us);
    match plan {
        TickPlan::Finish => s1,
        TickPlan::Coast { .. } => spec_end_tick(s1, input.debug).0,
        TickPlan::Fly => {
            let s2 = spec_after_step(
                s1,
                input.phase,
                input.thrust_exceeds_weight,
                input.touched_down,
            ).0;
            spec_end_tick(s2, input.debug).0
        },
    }
}

/// The state after a sequence of iterations.
pub open spec fn spec_run(s: FlightRun, inputs: Seq<TickInput>) -> FlightRun
    decreases inputs.len(),
{
    if inputs.len() == 0 {
        s
    } else {
        spec_tick(spec_run(s, inputs.drop_last()), inputs.last())
    }
}

impl FlightRun {
    /// A run that has not started: nothing recorded, not lifted off.
    pub fn new() -> (res: Self)
        ensures
            res.flight_over_at_us is None,
            res.steps == 0,
            !res.lifted_off,
    {
        FlightRun { flight_over_at_us: None, steps: 0, lifted_off: false }
    }

    /// Top of an iteration. When the flight is over (terminated, or in the Landed phase)
    /// the time it ended is recorded once; the run finishes once `POST_FLIGHT_US` of
    /// simulated time have passed since then, and until then the loop coasts.
    pub fn begin_tick(&mut self, terminated: bool, phase: FlightPhase, now_us: u64) -> (plan:
        TickPlan)
        ensures
            (*final(self), plan) == spec_begin_tick(*old(self), terminated, phase, now_us),
    {
        if terminated || phase == FlightPhase::Landed {
            let ended = match self.flight_over_at_us {
                Some(e) => e,
                None => now_us,
            };
            self.flight_over_at_us = Some(ended);
            if now_us >= ended && now_us - ended >= POST_FLIGHT_US {
                TickPlan::Finish
            } else {
                TickPlan::Coast { step_fsm: phase == FlightPhase::Landed }
            }
        } else {
            TickPlan::Fly
        }
    }

    /// After a simulation step taken in `phase`: lift-off is recorded once the thrust
    /// exceeds the weight during Ascent; the vehicle is held on the pad in Standby, Armed,
    /// and Ascent before lift-off; otherwise, in Descent with the legs on the ground
    /// (`touched_down`), the sim acts as the touchdown sensor and declares Landed.
    pub fn after_step(&mut self, phase: FlightPhase, thrust_exceeds_weight: bool, touched_down: bool)
        -> (action: PadAction)
        ensures
            (*final(self), action) == spec_after_step(
                *old(self),
                phase,
                thrust_exceeds_weight,
                touched_down,
            ),
    {
        if phase == FlightPhase::Ascent && thrust_exceeds_weight {
            self.lifted_off = true;
        }
        if phase == FlightPhase::Standby || phase == FlightPhase::Armed || (phase
            == FlightPhase::Ascent && !self.lifted_off) {
            PadAction::HoldOnPad
        } else if phase == FlightPhase::Descent && touched_down {
            PadAction::DeclareLanded
        } else {
            PadAction::Release
        }
    }

    /// Bottom of an iteration: counts it, and says whether the rocket's debug vectors are
    /// to be dropped now (every `DEBUG_RESET_PERIOD` iterations, without debug output).
    pub fn end_tick(&mut self, debug: bool) -> (drop_debug: bool)
        requires
            old(self).steps < u64::MAX,
        ensures
            (*final(self), drop_debug) == spec_end_tick(*old(self), debug),
    {
        self.steps = self.steps + 1;
        !debug && self.steps % DEBUG_RESET_PERIOD == 0
    }
}

/// Once the flight has been seen over, the recorded end time never changes, whatever the
/// later iterations observe.
pub proof fn lemma_end_time_is_kept(s: FlightRun, inputs: Seq<TickInput>)
    requires
        s.flight_over_at_us is Some,
    ensures
        spec_run(s, inputs).flight_over_at_us == s.flight_over_at_us,
    decreases inputs.len(),
{
    if inputs.len() > 0 {
        lemma_end_time_is_kept(s, inputs.drop_last());
    }
}

/// Lift-off is never undone: once the hold-down clamps are released they stay released.
pub proof fn lemma_lift_off_is_kept(s: FlightRun, inputs: Seq<TickInput>)
    requires
        s.lifted_off,
    ensures
        spec_run(s, inputs).lifted_off,
    decreases inputs.len(),
{
    if inputs.len() > 0 {
        lemma_lift_off_is_kept(s, inputs.drop_last());
    }
}

/// Every iteration that does not finish the run is counted: after a sequence of
/// iterations none of which finished, `steps` has grown by their number.
pub proof fn lemma_steps_count_iterations(s: FlightRun, inputs: Seq<TickInput>)
    requires
        s.steps + inputs.len() <= u64::MAX,
        forall|k: int|
            0 <= k < inputs.len() ==> spec_begin_tick(
                spec_run(s, inputs.take(k)),
                inputs[k].terminated,
                inputs[k].phase,
                inputs[k].now_us,
            ).1 != TickPlan::Finish,
    ensures
        spec_run(s, inputs).steps == s.steps + inputs.len(),
    decreases inputs.len(),
{
    if inputs.len() > 0 {
        let n = inputs.len() - 1;
        let front = inputs.drop_last();
        assert forall|k: int| 0 <= k < front.len() implies spec_begin_tick(
            spec_run(s, front.take(k)),
            front[k].terminated,
            front[k].phase,
            front[k].now_us,
        ).1 != TickPlan::Finish by {
            assert(front.take(k) =~= inputs.take(k));
            assert(front[k] == inputs[k]);
        }
        lemma_steps_count_iterations(s, front);
        assert(inputs.take(n) =~= front);
    }
}

/// Whether the loop drops the rocket's debug vectors in this iteration (what `end_tick`
/// returns, when the iteration gets that far).
pub open spec fn spec_tick_drops_debug(s: FlightRun, input: TickInput) -> bool {
    let (s1, plan) = spec_begin_tick(s, input.terminated, input.phase, input.now_us);
    match plan {
        TickPlan::Finish => false,
        TickPlan::Coast { .. } => spec_end_tick(s1, input.debug).1,
        TickPlan::Fly => spec_end_tick(
            spec_after_step(s1, input.phase, input.thrust_exceeds_weight, input.touched_down).0,
            input.debug,
        ).1,
    }
}

/// Without debug output the rocket's debug vectors never collect more than
/// `DEBUG_RESET_PERIOD` iterations of entries: among any `DEBUG_RESET_PERIOD` consecutive
/// iterations that do not finish the run, one drops them.
pub proof fn lemma_debug_dropped_every_period(s: FlightRun, inputs: Seq<TickInput>)
    requires
        inputs.len() == DEBUG_RESET_PERIOD,
        s.steps + DEBUG_RESET_PERIOD <= u64::MAX,
        forall|k: int| 0 <= k < inputs.len() ==> !(#[trigger] inputs[k]).debug,
        forall|k: int|
            0 <= k < inputs.len() ==> spec_begin_tick(
                spec_run(s, inputs.take(k)),
                inputs[k].terminated,
                inputs[k].phase,
                inputs[k].now_us,
            ).1 != TickPlan::Finish,
    ensures
        exists|k: int|
            0 <= k < DEBUG_RESET_PERIOD && spec_tick_drops_debug(
                #[trigger] spec_run(s, inputs.take(k)),
                inputs[k],
            ),
{
    let k: int = (DEBUG_RESET_PERIOD - 1 - s.steps % DEBUG_RESET_PERIOD) as int;
    let pre = inputs.take(k);
    assert forall|j: int| 0 <= j < pre.len() implies spec_begin_tick(
        spec_run(s, pre.take(j)),
        pre[j].terminated,
        pre[j].phase,
        pre[j].now_us,
    ).1 != TickPlan::Finish by {
        assert(pre.take(j) =~= inputs.take(j));
    }
    lemma_steps_count_iterations(s, pre);
    let r0 = spec_run(s, pre);
    assert(r0.steps == s.steps + k);
    assert((r0.steps + 1) % (DEBUG_RESET_PERIOD as int) == 0);
    assert(!inputs[k].debug);
    assert(spec_tick_drops_debug(r0, inputs[k]));
}

/// A terminated flight (in any phase) and a flight in the Landed phase are over: the
/// iteration never flies, and the end time is recorded (the first time it is seen, as
/// `now_us`). A flight that is neither terminated nor Landed flies, with nothing changed.
pub proof fn lemma_over_exactly_when_terminated_or_landed(
    s: FlightRun,
    terminated: bool,
    phase: FlightPhase,
    now_us: u64,
)
    ensures
        (terminated || phase == FlightPhase::Landed) ==> {
            let (s2, plan) = spec_begin_tick(s, terminated, phase, now_us);
            &&& plan != TickPlan::Fly
            &&& s2.flight_over_at_us is Some
            &&& s.flight_over_at_us is None ==> s2.flight_over_at_us == Some(now_us)
            &&& s2.steps == s.steps && s2.lifted_off == s.lifted_off
        },
        !terminated && phase != FlightPhase::Landed ==> spec_begin_tick(
            s,
            terminated,
            phase,
            now_us,
        ) == (s, TickPlan::Fly),
        terminated ==> spec_begin_tick(s, terminated, phase, now_us).1 != TickPlan::Fly,
{
}

/// The Landed phase keeps the flight software stepping while the run coasts; a terminated
/// flight in any other phase coasts with the flight software stopped.
pub proof fn lemma_coasting_steps_fsm_only_when_landed(
    s: FlightRun,
    terminated: bool,
    phase: FlightPhase,
    now_us: u64,
)
    ensures
        spec_begin_tick(s, terminated, phase, now_us).1 matches TickPlan::Coast { step_fsm } ==> (
        step_fsm <==> phase == FlightPhase::Landed),
{
}

/// After the flight ended at `e`, any later iteration that still sees the flight over at a
/// time at least `POST_FLIGHT_US` past `e` finishes the run; one before that coasts.
pub proof fn lemma_finish_exactly_after_post_flight(
    s: FlightRun,
    inputs: Seq<TickInput>,
    terminated: bool,
    phase: FlightPhase,
    now_us: u64,
)
    requires
        s.flight_over_at_us is Some,
        flight_is_over(terminated, phase),
    ensures
        spec_begin_tick(spec_run(s, inputs), terminated, phase, now_us).1 == TickPlan::Finish
            <==> now_us >= s.flight_over_at_us->0 + POST_FLIGHT_US,
{
    lemma_end_time_is_kept(s, inputs);
}

/// A vehicle in Standby or Armed, or in Ascent before lift-off, is always held on the pad
/// and never declared landed.
pub proof fn lemma_pad_hold(
    s: FlightRun,
    phase: FlightPhase,
    thrust_exceeds_weight: bool,
    touched_down: bool,
)
    requires
        phase == FlightPhase::Standby || phase == FlightPhase::Armed || (phase
            == FlightPhase::Ascent && !s.lifted_off && !thrust_exceeds_weight),
    ensures
        spec_after_step(s, phase, thrust_exceeds_weight, touched_down).1 == PadAction::HoldOnPad,
{
}

/// Lift-off is recorded exactly when the thrust exceeds the weight during Ascent (or was
/// already recorded), and a vehicle past its pad phases (Hover, Descent, Landed, or Ascent
/// after lift-off) is never clamped to the pad.
pub proof fn lemma_lift_off_and_release(
    s: FlightRun,
    phase: FlightPhase,
    thrust_exceeds_weight: bool,
    touched_down: bool,
)
    ensures
        ({
            let (s2, action) = spec_after_step(s, phase, thrust_exceeds_weight, touched_down);
            &&& s2.lifted_off == (s.lifted_off || (phase == FlightPhase::Ascent
                && thrust_exceeds_weight))
            &&& s2.flight_over_at_us == s.flight_over_at_us && s2.steps == s.steps
            &&& (phase == FlightPhase::Hover || phase == FlightPhase::Descent || phase
                == FlightPhase::Landed || (phase == FlightPhase::Ascent && s2.lifted_off))
                ==> action != PadAction::HoldOnPad
        }),
{
}

/// Every iteration that reaches the end is counted once, and the debug vectors are dropped
/// exactly on multiples of the period when debug output is off.
pub proof fn lemma_end_tick_counts(s: FlightRun, debug: bool)
    requires
        s.steps < u64::MAX,
    ensures
        spec_end_tick(s, debug).0.steps == s.steps + 1,
        spec_end_tick(s, debug).0.lifted_off == s.lifted_off,
        spec_end_tick(s, debug).0.flight_over_at_us == s.flight_over_at_us,
        spec_end_tick(s, debug).1 <==> (!debug && (s.steps + 1) % 1000 == 0),
{
}

/// Landed is declared only in Descent, and only when the legs are on the ground.
pub proof fn lemma_landing_needs_touchdown(
    s: FlightRun,
    phase: FlightPhase,
    thrust_exceeds_weight: bool,
    touched_down: bool,
)
    ensures
        spec_after_step(s, phase, thrust_exceeds_weight, touched_down).1
            == PadAction::DeclareLanded <==> (phase == FlightPhase::Descent && touched_down),
{
}

} // verus!
