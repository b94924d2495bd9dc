use numeromancy::config::SolverConfig;
use numeromancy::driver::{iterate, solve, DriverError, Serialized};
use numeromancy::engine::StepOutcome;

fn bits(v: &[f64]) -> Vec<u64> {
    v.iter().map(|x| x.to_bits()).collect()
}

fn sd_outcome(param: &[f64], cost: f64, improved: bool) -> StepOutcome {
    StepOutcome {
        param: bits(param),
        cost: cost.to_bits(),
        grad: Vec::new(),
        inv_hessian: Vec::new(),
        cost_improved: improved,
        cost_tol_hit: false,
        grad_tol_hit: false,
    }
}

fn fresh(param: &[f64]) -> Serialized {
    Serialized { serialized_executor: Vec::new(), param: bits(param), solution: None }
}

#[test]
fn full_run_equals_sequential_single_steps() {
    // The same three observed iterations, once folded in a full run and once
    // threaded through checkpoints one call at a time, end in the same state.
    let conf = SolverConfig::SteepestDescent;
    let init = [2.0, 3.0];
    let outcomes = vec![
        sd_outcome(&[1.5, 2.5], 8.0, true),
        sd_outcome(&[1.2, 2.1], 6.5, true),
        sd_outcome(&[1.1, 2.0], 7.0, false),
    ];

    let (full_summary, full_best) = solve(&conf, &bits(&init), 10, &outcomes).unwrap();

    let mut state = fresh(&init);
    let mut last_summary = None;
    for o in &outcomes {
        let (s, next) = iterate(state, &conf, 10, o).unwrap();
        last_summary = Some(s);
        state = next;
    }
    let step_summary = last_summary.unwrap();

    assert_eq!(full_summary, step_summary);
    assert_eq!(state.param, bits(&[1.1, 2.0]));
    // The cost of the third step did not improve, so the best point is the
    // second step's, in both runs.
    assert_eq!(full_best, bits(&[1.2, 2.1]));
    assert_eq!(full_summary.best_cost, 6.5f64.to_bits());
    assert_eq!(full_summary.cost, 7.0f64.to_bits());
    assert_eq!(full_summary.iter, 3);
    assert!(!full_summary.terminated);
}

#[test]
fn first_step_without_checkpoint_matches_full_run() {
    let conf = SolverConfig::SteepestDescent;
    let init = [0.5, -0.5];
    let o = sd_outcome(&[0.4, -0.4], 1.5, true);

    let (full_summary, full_best) = solve(&conf, &bits(&init), 10, &vec![
        sd_outcome(&[0.4, -0.4], 1.5, true),
    ])
        .unwrap();
    let (step_summary, next) = iterate(fresh(&init), &conf, 10, &o).unwrap();

    assert_eq!(full_summary, step_summary);
    assert_eq!(next.param, bits(&[0.4, -0.4]));
    assert_eq!(full_best, bits(&[0.4, -0.4]));
    assert!(next.solution.is_none());
}

#[test]
fn run_terminates_at_iteration_budget() {
    let conf = SolverConfig::SteepestDescent;
    let init = [1.0];
    let outcomes = vec![
        sd_outcome(&[0.9], 3.0, true),
        sd_outcome(&[0.8], 2.0, true),
        sd_outcome(&[0.7], 1.0, true),
    ];
    // Budget of two: the third observation is never consumed.
    let (summary, best) = solve(&conf, &bits(&init), 2, &outcomes).unwrap();
    assert_eq!(summary.iter, 2);
    assert!(summary.terminated);
    assert_eq!(best, bits(&[0.8]));
}

#[test]
fn single_step_on_terminated_state_changes_nothing() {
    let conf = SolverConfig::SteepestDescent;
    let (s1, state1) = iterate(fresh(&[1.0]), &conf, 1, &sd_outcome(&[0.9], 3.0, true)).unwrap();
    assert!(s1.terminated);
    // The run is over; a further call reports the same state back.
    let (s2, state2) = iterate(state1, &conf, 1, &sd_outcome(&[0.1], 0.5, true)).unwrap();
    assert_eq!(s1, s2);
    assert_eq!(state2.param, bits(&[0.9]));
}

#[test]
fn run_with_no_observations_reports_the_fresh_state() {
    let conf = SolverConfig::SteepestDescent;
    let (summary, best) = solve(&conf, &bits(&[2.0, 3.0]), 10, &Vec::new()).unwrap();
    assert_eq!(summary.iter, 0);
    assert!(!summary.terminated);
    // No point has been evaluated yet: the cost starts at infinity.
    assert_eq!(summary.cost, f64::INFINITY.to_bits());
    assert_eq!(summary.best_cost, f64::INFINITY.to_bits());
    assert_eq!(best, bits(&[2.0, 3.0]));
}

#[test]
fn fresh_bfgs_state_starts_with_identity_curvature() {
    // A budget of zero makes the first call a pure snapshot of the fresh
    // state; its checkpoint shows the identity matrix as the initial
    // curvature approximation.
    let conf = SolverConfig::Bfgs { tol_cost: 0u64, tol_grad: 0u64 };
    let o = StepOutcome {
        param: bits(&[0.5, 0.5]),
        cost: 1.0f64.to_bits(),
        grad: bits(&[0.0, 0.0]),
        inv_hessian: bits(&[1.0, 0.0, 0.0, 1.0]),
        cost_improved: true,
        cost_tol_hit: false,
        grad_tol_hit: false,
    };
    let (summary, state) = iterate(fresh(&[2.0, 3.0]), &conf, 0, &o).unwrap();
    assert!(summary.terminated);
    assert_eq!(summary.iter, 0);
    let loaded = numeromancy::checkpoint::load(&state.serialized_executor).unwrap().unwrap();
    match loaded {
        numeromancy::engine::SolverState::Bfgs { common, extra } => {
            assert_eq!(common.param, bits(&[2.0, 3.0]));
            assert_eq!(common.cost, f64::INFINITY.to_bits());
            assert_eq!(extra.grad, bits(&[0.0, 0.0]));
            assert_eq!(extra.inv_hessian, bits(&[1.0, 0.0, 0.0, 1.0]));
        },
        _ => panic!("the checkpoint must carry the configured algorithm"),
    }
}

#[test]
fn checkpoint_of_other_algorithm_is_rejected() {
    let bfgs = SolverConfig::Bfgs { tol_cost: 0u64, tol_grad: 0u64 };
    let o = StepOutcome {
        param: bits(&[0.5]),
        cost: 1.0f64.to_bits(),
        grad: bits(&[0.1]),
        inv_hessian: bits(&[1.0]),
        cost_improved: true,
        cost_tol_hit: false,
        grad_tol_hit: false,
    };
    let (_, state) = iterate(fresh(&[1.0]), &bfgs, 10, &o).unwrap();
    let r = iterate(state, &SolverConfig::SteepestDescent, 10, &sd_outcome(&[0.4], 1.0, true));
    assert_eq!(r.err().unwrap(), DriverError::AlgorithmMismatch);
}

#[test]
fn corrupt_checkpoint_is_rejected_and_reported() {
    let conf = SolverConfig::SteepestDescent;
    let (_, mut state) = iterate(fresh(&[1.0]), &conf, 10, &sd_outcome(&[0.9], 3.0, true)).unwrap();
    state.serialized_executor[0] = state.serialized_executor[0].wrapping_add(1);
    let r = iterate(state, &conf, 10, &sd_outcome(&[0.8], 2.0, true));
    assert!(matches!(
        r.err().unwrap(),
        DriverError::Checkpoint(numeromancy::checkpoint::CheckpointError::BadVersion)
    ));
}

#[test]
fn mismatched_outcome_shape_is_rejected() {
    let conf = SolverConfig::SteepestDescent;
    // The run is two-dimensional; a three-element step cannot belong to it.
    let r = iterate(fresh(&[1.0, 2.0]), &conf, 10, &sd_outcome(&[0.9, 1.9, 2.9], 3.0, true));
    assert_eq!(r.err().unwrap(), DriverError::DimensionMismatch);
}
