use argmin_testfunctions::{rosenbrock, rosenbrock_derivative};
use numeromancy::config::SolverConfig;
use numeromancy::driver::{iterate, solve, Serialized, Solution};
use numeromancy::engine::StepOutcome;

fn bits(v: &[f64]) -> Vec<u64> {
    v.iter().map(|x| x.to_bits()).collect()
}

fn unbits(v: &[u64]) -> Vec<f64> {
    v.iter().map(|x| f64::from_bits(*x)).collect()
}

/// One steepest-descent step with a backtracking (sufficient-decrease) line
/// search: the external descent mathematics the engine is wired to.
fn armijo_step(x: &[f64]) -> (Vec<f64>, f64) {
    let fx = rosenbrock(x);
    let g = rosenbrock_derivative(x);
    let g2: f64 = g.iter().map(|v| v * v).sum();
    let mut alpha = 1.0f64;
    loop {
        let cand: Vec<f64> = x.iter().zip(g.iter()).map(|(xi, gi)| xi - alpha * gi).collect();
        let fc = rosenbrock(&cand);
        if fc <= fx - 1e-4 * alpha * g2 || alpha < 1e-20 {
            return (cand, fc);
        }
        alpha *= 0.5;
    }
}

fn sd_outcome_from(x: &[f64], best: &mut f64) -> StepOutcome {
    let (nx, nc) = armijo_step(x);
    let improved = nc < *best;
    if improved {
        *best = nc;
    }
    StepOutcome {
        param: bits(&nx),
        cost: nc.to_bits(),
        grad: Vec::new(),
        inv_hessian: Vec::new(),
        cost_improved: improved,
        cost_tol_hit: false,
        grad_tol_hit: false,
    }
}

#[test]
fn test_solve() {
    let mut best = f64::INFINITY;
    let o = sd_outcome_from(&[-1.2, 1.0], &mut best);
    let (summary, _) = solve(&SolverConfig::SteepestDescent, &bits(&[-1.2, 1.0]), 1, &vec![o])
        .unwrap();
    println!("singlepass: {}", format!("{:?}", summary));

    let mut state = Serialized {
        param: bits(&[-1.2, 1.0]),
        serialized_executor: vec![],
        solution: None,
    };

    let mut last_result = "".to_string();
    let mut best = f64::INFINITY;
    for i in 0..10 {
        let x = unbits(&state.param);
        state.solution = Solution {
            cost: rosenbrock(&x).to_bits(),
            gradient: bits(&rosenbrock_derivative(&x)),
        }
        .into();

        println!("in params {:?}", unbits(&state.param));
        println!("in serialized {:?}", state.serialized_executor.len());
        let o = sd_outcome_from(&x, &mut best);
        let (summary, next) = iterate(state, &SolverConfig::SteepestDescent, 100, &o).unwrap();
        last_result = format!("{:?}", summary);
        state = next;
        println!("iterate {}: {}", i, last_result);
        println!("new params {:?}", unbits(&state.param));
    }
    println!("iterate: {}", last_result);
}

#[test]
fn steepest_descent_rosenbrock_decreases_and_approaches_minimum() {
    // Steepest descent on the Rosenbrock function from (-1.2, 1.0): the cost
    // decreases monotonically, and the point approaches (1, 1).
    let start = [-1.2f64, 1.0];
    let conf = SolverConfig::SteepestDescent;
    let mut state = Serialized {
        serialized_executor: vec![],
        param: bits(&start),
        solution: None,
    };
    let mut prev_cost = rosenbrock(&start);
    let init_cost = prev_cost;
    let mut best = f64::INFINITY;
    for _ in 0..3000 {
        let x = unbits(&state.param);
        let o = sd_outcome_from(&x, &mut best);
        let new_cost = f64::from_bits(o.cost);
        assert!(new_cost < prev_cost, "cost must decrease monotonically");
        prev_cost = new_cost;
        let (summary, next) = iterate(state, &conf, 1_000_000, &o).unwrap();
        assert_eq!(summary.cost, o.cost);
        state = next;
    }
    let fin = unbits(&state.param);
    let dist0 = ((start[0] - 1.0).powi(2) + (start[1] - 1.0).powi(2)).sqrt();
    let dist = ((fin[0] - 1.0).powi(2) + (fin[1] - 1.0).powi(2)).sqrt();
    assert!(prev_cost < init_cost / 20.0, "cost fell far below the start: {prev_cost}");
    assert!(dist < dist0 / 2.0, "point approached (1, 1): {dist} vs {dist0}");
}

#[test]
fn bfgs_within_tolerance_stops_after_first_iteration() {
    // The start point is the minimum itself: the gradient norm is already
    // under tol_grad, so the run terminates after the first iteration, not
    // after exhausting max_iters.
    let x = [1.0f64, 1.0];
    let tol_grad = 1e-8f64;
    let g = rosenbrock_derivative(&x);
    let grad_norm = g.iter().map(|v| v * v).sum::<f64>().sqrt();
    let conf = SolverConfig::Bfgs { tol_cost: 0.0f64.to_bits(), tol_grad: tol_grad.to_bits() };
    let outcome = StepOutcome {
        param: bits(&x),
        cost: rosenbrock(&x).to_bits(),
        grad: bits(&g),
        inv_hessian: bits(&[1.0, 0.0, 0.0, 1.0]),
        cost_improved: true,
        cost_tol_hit: false,
        grad_tol_hit: grad_norm < tol_grad,
    };
    let state = Serialized { serialized_executor: vec![], param: bits(&x), solution: None };
    let (summary, _) = iterate(state, &conf, 100, &outcome).unwrap();
    assert!(summary.terminated, "within tolerance: the run must stop");
    assert_eq!(summary.iter, 1, "it stopped after the first iteration, not after max_iters");
}
