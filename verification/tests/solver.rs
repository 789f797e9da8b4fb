use flow_monitor::solver::{IterationGuard, Progress, SolveError, Verdict, MAX_ITERATIONS};

#[test]
fn the_default_limit_is_one_hundred() {
    assert_eq!(MAX_ITERATIONS, 100);
}

#[test]
fn a_new_guard_runs_and_has_counted_nothing() {
    let guard = IterationGuard::new(100);
    assert_eq!(guard.limit(), 100);
    assert_eq!(guard.taken(), 0);
    assert_eq!(guard.verdict(), Verdict::Continue);
    assert_eq!(guard.outcome(), None);
}

#[test]
fn a_settled_estimate_is_accepted() {
    let mut guard = IterationGuard::new(100);
    assert_eq!(guard.observe(Progress::Moving), Verdict::Continue);
    assert_eq!(guard.observe(Progress::Moving), Verdict::Continue);
    assert_eq!(guard.observe(Progress::Settled), Verdict::Converged);
    assert_eq!(guard.taken(), 3);
    assert_eq!(guard.outcome(), Some(Ok(())));
}

#[test]
fn an_oscillating_estimate_is_given_up_at_the_limit() {
    let mut guard = IterationGuard::new(100);
    for step in 1..100u32 {
        assert_eq!(guard.observe(Progress::Moving), Verdict::Continue);
        assert_eq!(guard.taken(), step);
    }
    assert_eq!(guard.observe(Progress::Moving), Verdict::DidNotConverge);
    assert_eq!(guard.taken(), 100);
    assert_eq!(guard.outcome(), Some(Err(SolveError::DidNotConverge)));
}

#[test]
fn an_estimate_that_is_not_finite_is_given_up_at_once() {
    let mut guard = IterationGuard::new(100);
    assert_eq!(guard.observe(Progress::Moving), Verdict::Continue);
    assert_eq!(guard.observe(Progress::NotFinite), Verdict::DidNotConverge);
    assert_eq!(guard.taken(), 2);
    assert_eq!(guard.outcome(), Some(Err(SolveError::DidNotConverge)));
}

#[test]
fn settling_on_the_last_allowed_step_still_counts() {
    let mut guard = IterationGuard::new(3);
    assert_eq!(guard.observe(Progress::Moving), Verdict::Continue);
    assert_eq!(guard.observe(Progress::Moving), Verdict::Continue);
    assert_eq!(guard.observe(Progress::Settled), Verdict::Converged);
}

#[test]
fn a_stopped_guard_keeps_its_verdict() {
    let mut accepted = IterationGuard::new(5);
    accepted.observe(Progress::Settled);
    assert_eq!(accepted.observe(Progress::Moving), Verdict::Converged);
    assert_eq!(accepted.observe(Progress::NotFinite), Verdict::Converged);
    assert_eq!(accepted.taken(), 1);

    let mut abandoned = IterationGuard::new(1);
    assert_eq!(abandoned.observe(Progress::Moving), Verdict::DidNotConverge);
    assert_eq!(abandoned.observe(Progress::Settled), Verdict::DidNotConverge);
    assert_eq!(abandoned.taken(), 1);
}

#[test]
fn a_guard_without_steps_gives_up_on_the_first_report() {
    let mut guard = IterationGuard::new(0);
    assert_eq!(guard.observe(Progress::Settled), Verdict::DidNotConverge);
    assert_eq!(guard.taken(), 0);
}

#[test]
fn the_guard_never_lets_an_iteration_run_past_its_limit() {
    for limit in [1u32, 2, 7, 100] {
        let mut guard = IterationGuard::new(limit);
        let mut steps = 0u32;
        loop {
            steps += 1;
            if guard.observe(Progress::Moving) != Verdict::Continue {
                break;
            }
            assert!(steps < limit);
        }
        assert_eq!(steps, limit);
        assert_eq!(guard.verdict(), Verdict::DidNotConverge);
    }
}

// The orifice-flow iteration for the documented constants, with the
// arithmetic done here and the loop controlled by the guard.
fn discharge_step(g: f64, t1: f64, delp1: f64, p1c: f64) -> f64 {
    let dc: f64 = 0.105;
    let d: f64 = 0.346;
    let ka: f64 = 1.4;
    let r: f64 = 287.1;
    let alfar: f64 = 0.0000167;
    let tizm: f64 = 288.15;
    let m = (dc / d).powi(2);
    let mu = 1.76 + (2.43 - 1.76) * (150.0 + 273.15 - t1) / 150.0;
    let kw = (1.002 - 0.0318 * m + 0.0907 * m.powi(2))
        - (0.0062 - 0.1017 * m + 0.2972 * m.powi(2)) * d / 1000.0;
    let a1 = delp1 / p1c;
    let eps = ((1.0 - a1).powf(2.0 / ka)
        * (ka / (ka - 1.0))
        * (1.0 - (1.0 - a1).powf((ka - 1.0) / ka))
        * (1.0 - m.powi(2))
        / (a1 * (1.0 - m.powi(2) * (1.0 - a1).powf(2.0 / ka))))
    .sqrt();
    let re = 0.0361 * g * 1_000_000.0 / (d * mu);
    let alfac = (0.99 - 0.2262 * m.powf(2.05)
        + (0.000215 - 0.001125 * m.powf(0.5) + 0.00249 * m.powf(2.35))
            * (1_000_000.0 / re).powf(1.15))
        * kw
        / (1.0 - m.powi(2)).sqrt();
    let fc = std::f64::consts::PI * (dc.powi(2) + 2.0 * alfar * dc.powi(2) * (t1 - tizm)) / 4.0;
    alfac * eps * fc * (2.0 * delp1 * p1c / (r * t1)).sqrt()
}

fn progress(previous: f64, next: f64) -> Progress {
    let change = (next - previous).abs() / previous;
    if !next.is_finite() || !change.is_finite() {
        Progress::NotFinite
    } else if change < 1e-4 {
        Progress::Settled
    } else {
        Progress::Moving
    }
}

fn solve(t1: f64, delp1: f64, p1c: f64) -> (Result<f64, SolveError>, u32) {
    let mut guard = IterationGuard::new(MAX_ITERATIONS);
    let mut g = 1.0;
    loop {
        let next = discharge_step(g, t1, delp1, p1c);
        match guard.observe(progress(g, next)) {
            Verdict::Continue => g = next,
            Verdict::Converged => {
                let change = (next - g).abs() / g;
                assert!(change < 1e-4);
                return (Ok(next), guard.taken());
            }
            Verdict::DidNotConverge => return (Err(SolveError::DidNotConverge), guard.taken()),
        }
    }
}

#[test]
fn the_documented_inputs_converge_within_the_limit() {
    let (result, steps) = solve(300.0, 500.0, 100000.0);
    let flow = result.unwrap();
    assert_eq!(steps, 4);
    assert!(steps <= MAX_ITERATIONS);
    assert!(flow.is_finite() && flow > 0.0);
    // One more step moves the estimate by less than the tolerance.
    let next = discharge_step(flow, 300.0, 500.0, 100000.0);
    assert!((next - flow).abs() / flow < 1e-4);
    assert!((flow - 0.286_982_8).abs() < 1e-6);
}

#[test]
fn solving_twice_gives_the_same_flow() {
    let first = solve(300.0, 500.0, 100000.0);
    let second = solve(300.0, 500.0, 100000.0);
    assert_eq!(first, second);
}

#[test]
fn a_negative_pressure_difference_does_not_converge() {
    let (result, steps) = solve(300.0, -500.0, 100000.0);
    assert_eq!(result, Err(SolveError::DidNotConverge));
    assert!(steps <= MAX_ITERATIONS);
}

#[test]
fn a_zero_reference_pressure_does_not_converge() {
    let (result, steps) = solve(300.0, 500.0, 0.0);
    assert_eq!(result, Err(SolveError::DidNotConverge));
    assert!(steps <= MAX_ITERATIONS);
}
