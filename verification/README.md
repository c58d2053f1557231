# rust_rocket_sim

Verified decision logic of a propulsive-lander flight simulator.

- `src/` (Verus): ground-station options (`options`), the touchdown sensor in fixed point
  (`touchdown`), the per-iteration decisions of a ground-station flight (`flight_run`),
  pacing to the wall clock (`pacer`), valve overrides and stand valve states (`valves`),
  start actions and trajectory indices of the simulation runs (`simulation`), and the
  ranking/selection step of the MPC weight tuner (`mpc_tuning`).
- `app/`: the simulator's runs (ground-station mode, tuner, MPC test, simulation driver),
  which hold the floating-point vehicle state and call the flight software, networking and
  Rerun; they ask the library for every decision above.
- `tests/`: scenario tests of the library.
