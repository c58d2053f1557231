//! Pacing of simulated time to the wall clock. Times are nanoseconds since the pacer
//! started: `sim_elapsed_ns` of simulated time, `wall_elapsed_ns` of wall-clock time.
//! When the simulation falls more than a slip threshold behind, the lag is accepted
//! (the sim does not race to catch up) and a warning is raised at most every few seconds.

use vstd::prelude::*;

verus! {

/// Lag beyond which the pacer gives up on catching up: 200 ms.
pub const SLIP_THRESHOLD_NS: u128 = 200_000_000;

/// Minimum spacing of two warnings: 5 s.
pub const WARNING_SPACING_NS: u128 = 5_000_000_000;

/// What the caller does after a simulation step.
#[derive(Clone, Copy, Debug, PartialEq, Eq, Structural)]
pub enum PaceAction {
    /// Ahead of the wall clock: sleep this long.
    Sleep { ns: u128 },
    /// Behind by at most the slip threshold: carry on.
    Continue,
    /// Behind by more than the threshold: the lag is accepted; `warn` says whether to print
    /// the "cannot keep up" warning.
    Slip { behind_ns: u128, warn: bool },
}

/// The pacer's state.
#[derive(Clone, Copy, Debug, PartialEq, Eq, Structural)]
pub struct Pacer {
    /// Wall-clock time given up on because the sim could not keep up.
    pub dropped_ns: u128,
    /// Wall-clock time of the last warning, if any.
    pub last_warning_ns: Option<u128>,
}

/// Wall-clock time at which simulated time `sim_elapsed_ns` is due.
pub open spec fn spec_target(p: Pacer, sim_elapsed_ns: u128) -> u128 {
    if sim_elapsed_ns + p.dropped_ns > u128::MAX {
        u128::MAX
    } else {
        (sim_elapsed_ns + p.dropped_ns) as u128
    }
}

pub open spec fn warning_due(p: Pacer, wall_elapsed_ns: u128) -> bool {
    match p.last_warning_ns {
        None => true,
        Some(t) => wall_elapsed_ns > t + WARNING_SPACING_NS,
    }
}

pub open spec fn spec_wait_until(p: Pacer, sim_elapsed_ns: u128, wall_elapsed_ns: u128) -> (
    Pacer,
    PaceAction,
) {
    let target = spec_target(p, sim_elapsed_ns);
    if wall_elapsed_ns < target {
        (p, PaceAction::Sleep { ns: (target - wall_elapsed_ns) as u128 })
    } else {
        let behind = (wall_elapsed_ns - target) as u128;
        if behind > SLIP_THRESHOLD_NS {
            let warn = warning_due(p, wall_elapsed_ns);
            let dropped = if p.dropped_ns + behind > u128::MAX {
                u128::MAX
            } else {
                (p.dropped_ns + behind) as u128
            };
            let p2 = Pacer {
                dropped_ns: dropped,
                last_warning_ns: if warn {
                    Some(wall_elapsed_ns)
                } else {
                    p.last_warning_ns
                },
            };
            (p2, PaceAction::Slip { behind_ns: behind, warn })
        } else {
            (p, PaceAction::Continue)
        }
    }
}

impl Pacer {
    /// A pacer that has not fallen behind yet.
    pub fn new() -> (res: Self)
        ensures
            res.dropped_ns == 0,
            res.last_warning_ns is None,
    {
        Pacer { dropped_ns: 0, last_warning_ns: None }
    }

    /// Decides how to pace after simulated time reached `sim_elapsed_ns` while the wall
    /// clock shows `wall_elapsed_ns`.
    pub fn wait_until(&mut self, sim_elapsed_ns: u128, wall_elapsed_ns: u128) -> (action:
        PaceAction)
        ensures
            (*final(self), action) == spec_wait_until(*old(self), sim_elapsed_ns, wall_elapsed_ns),
    {
        let target = sim_elapsed_ns.saturating_add(self.dropped_ns);
        if wall_elapsed_ns < target {
            return PaceAction::Sleep { ns: target - wall_elapsed_ns };
        }
        let behind = wall_elapsed_ns - target;
        if behind > SLIP_THRESHOLD_NS {
            self.dropped_ns = self.dropped_ns.saturating_add(behind);
            let warn = match self.last_warning_ns {
                None => true,
                Some(t) => wall_elapsed_ns > t && wall_elapsed_ns - t > WARNING_SPACING_NS,
            };
            if warn {
                self.last_warning_ns = Some(wall_elapsed_ns);
            }
            PaceAction::Slip { behind_ns: behind, warn }
        } else {
            PaceAction::Continue
        }
    }
}

/// The time given up on never shrinks.
pub proof fn lemma_dropped_never_shrinks(p: Pacer, sim_elapsed_ns: u128, wall_elapsed_ns: u128)
    ensures
        spec_wait_until(p, sim_elapsed_ns, wall_elapsed_ns).0.dropped_ns >= p.dropped_ns,
{
}

/// While the sim is ahead, the pacer sleeps until exactly the moment the simulated time is
/// due, and changes nothing else.
pub proof fn lemma_sleep_reaches_target(p: Pacer, sim_elapsed_ns: u128, wall_elapsed_ns: u128)
    requires
        wall_elapsed_ns < spec_target(p, sim_elapsed_ns),
    ensures
        ({
            let (p2, a) = spec_wait_until(p, sim_elapsed_ns, wall_elapsed_ns);
            &&& p2 == p
            &&& a matches PaceAction::Sleep { ns } && wall_elapsed_ns + ns == spec_target(
                p,
                sim_elapsed_ns,
            )
        }),
{
}

/// Slip accounting: a lag beyond the threshold is added to the time given up on, and a
/// warning is raised exactly when none was raised in the last `WARNING_SPACING_NS`; a
/// smaller lag leaves the pacer as it was. (Stated below the `u128` nanosecond range.)
pub proof fn lemma_slip_accounting(p: Pacer, sim_elapsed_ns: u128, wall_elapsed_ns: u128)
    requires
        sim_elapsed_ns + p.dropped_ns <= wall_elapsed_ns,
        p.dropped_ns + wall_elapsed_ns <= u128::MAX,
    ensures
        ({
            let behind = wall_elapsed_ns - (sim_elapsed_ns + p.dropped_ns);
            let (p2, a) = spec_wait_until(p, sim_elapsed_ns, wall_elapsed_ns);
            let due = match p.last_warning_ns {
                None => true,
                Some(t) => wall_elapsed_ns > t + 5_000_000_000,
            };
            if behind > 200_000_000 {
                &&& p2.dropped_ns == p.dropped_ns + behind
                &&& a == PaceAction::Slip {
                    behind_ns: behind as u128,
                    warn: due,
                }
                &&& p2.last_warning_ns == (if due {
                    Some(wall_elapsed_ns)
                } else {
                    p.last_warning_ns
                })
            } else {
                p2 == p && a == PaceAction::Continue
            }
        }),
{
}

/// Ahead of schedule, the pacer sleeps for the time left until simulated time
/// `sim_elapsed_ns` plus the time already given up on is due, and changes nothing.
pub proof fn lemma_sleeps_until_due(p: Pacer, sim_elapsed_ns: u128, wall_elapsed_ns: u128)
    requires
        sim_elapsed_ns + p.dropped_ns <= u128::MAX,
        wall_elapsed_ns < sim_elapsed_ns + p.dropped_ns,
    ensures
        spec_wait_until(p, sim_elapsed_ns, wall_elapsed_ns) == (
            p,
            PaceAction::Sleep { ns: (sim_elapsed_ns + p.dropped_ns - wall_elapsed_ns) as u128 },
        ),
{
}

/// After a slip, the next wait at the same simulated time (and no later wall time) finds
/// the sim on schedule: the lag was absorbed rather than chased.
pub proof fn lemma_slip_is_absorbed(p: Pacer, sim_elapsed_ns: u128, wall_elapsed_ns: u128)
    requires
        sim_elapsed_ns + p.dropped_ns + wall_elapsed_ns <= u128::MAX,
        spec_wait_until(p, sim_elapsed_ns, wall_elapsed_ns).1 is Slip,
    ensures
        spec_target(spec_wait_until(p, sim_elapsed_ns, wall_elapsed_ns).0, sim_elapsed_ns)
            == wall_elapsed_ns,
{
}

/// Two warnings are never closer than the warning spacing: if a warning is raised at
/// `w1`, a wait at a wall time no more than the spacing later raises none.
pub proof fn lemma_warnings_are_spaced(
    p: Pacer,
    s1: u128,
    w1: u128,
    s2: u128,
    w2: u128,
)
    requires
        spec_wait_until(p, s1, w1).1 matches PaceAction::Slip { warn, .. } && warn,
        w2 <= w1 + WARNING_SPACING_NS,
    ensures
        !(spec_wait_until(spec_wait_until(p, s1, w1).0, s2, w2).1 matches PaceAction::Slip {
            warn,
            ..
        } && warn),
{
}

} // verus!
