//! Descent engine bookkeeping: the per-algorithm solver state, and the
//! verified state transition that one iteration of descent performs.
//!
//! The floating-point mathematics of an iteration — evaluating the oracle,
//! line-searching along the descent direction, updating the curvature
//! approximation — are external, already-correct components. What they
//! observe is handed back as a [`StepOutcome`]; the engine applies it to the
//! solver state: it replaces the current point, cost, gradient and curvature
//! matrix, advances the iteration counter, tracks the best point found, and
//! decides termination from the iteration budget and the tolerance verdicts.

use crate::config::SolverConfig;
use vstd::prelude::*;

verus! {

/// Bit pattern of IEEE-754 double-precision positive infinity: the cost of a
/// point no evaluation has reached yet.
pub const INFINITY_BITS: u64 = 0x7FF0_0000_0000_0000;

/// Bit pattern of the IEEE-754 double-precision value one.
pub const ONE_BITS: u64 = 0x3FF0_0000_0000_0000;

/// Ghost model of the bookkeeping every algorithm shares.
#[verifier::ext_equal]
pub struct CoreModel {
    /// Iterations performed so far.
    pub iter: u64,
    /// Iteration budget of the run.
    pub max_iters: u64,
    /// Whether the run has reached its budget or met a tolerance.
    pub terminated: bool,
    /// Cost at the current point (an IEEE-754 bit pattern).
    pub cost: u64,
    /// Cost at the best point found so far.
    pub best_cost: u64,
    /// The current point, one bit pattern per element.
    pub param: Seq<u64>,
    /// The best point found so far.
    pub best_param: Seq<u64>,
}

/// Ghost model of the quasi-Newton extras: tolerances and curvature state.
#[verifier::ext_equal]
pub struct BfgsModel {
    /// Stop when the absolute cost improvement falls under this value.
    pub tol_cost: u64,
    /// Stop when the gradient norm falls under this value.
    pub tol_grad: u64,
    /// Gradient at the current point.
    pub grad: Seq<u64>,
    /// Approximate inverse Hessian, row-major.
    pub inv_hessian: Seq<u64>,
}

/// Ghost model of a solver state: one variant per algorithm.
#[verifier::ext_equal]
pub enum StateModel {
    /// Steepest descent.
    SteepestDescent {
        /// Shared bookkeeping.
        common: CoreModel,
    },
    /// Quasi-Newton descent.
    Bfgs {
        /// Shared bookkeeping.
        common: CoreModel,
        /// Tolerances and curvature state.
        extra: BfgsModel,
    },
}

impl StateModel {
    /// The bookkeeping shared by both algorithms.
    pub open spec fn common(self) -> CoreModel {
        match self {
            StateModel::SteepestDescent { common } => common,
            StateModel::Bfgs { common, .. } => common,
        }
    }

    /// Dimension of the parameter space.
    pub open spec fn dim(self) -> int {
        self.common().param.len() as int
    }

    /// Well-formedness: the vectors have consistent dimensions and an
    /// unterminated run still has budget left.
    pub open spec fn wf(self) -> bool {
        &&& self.common().param.len() <= u64::MAX
        &&& self.common().best_param.len() == self.common().param.len()
        &&& (!self.common().terminated ==> self.common().iter < self.common().max_iters)
        &&& match self {
            StateModel::SteepestDescent { .. } => true,
            StateModel::Bfgs { common, extra } => {
                &&& extra.grad.len() == common.param.len()
                &&& extra.inv_hessian.len() == common.param.len() * common.param.len()
            },
        }
    }
}

/// Ghost model of what one iteration of external descent work observed.
#[verifier::ext_equal]
pub struct OutcomeModel {
    /// The point after the step.
    pub param: Seq<u64>,
    /// Cost at that point.
    pub cost: u64,
    /// Gradient at that point (quasi-Newton only).
    pub grad: Seq<u64>,
    /// Updated curvature approximation, row-major (quasi-Newton only).
    pub inv_hessian: Seq<u64>,
    /// Whether the new cost improves on the best cost so far.
    pub cost_improved: bool,
    /// Whether the absolute cost improvement fell under the cost tolerance.
    pub cost_tol_hit: bool,
    /// Whether the gradient norm fell under the gradient tolerance.
    pub grad_tol_hit: bool,
}

/// Whether an observed outcome has the shape the state demands.
pub open spec fn outcome_fits(m: StateModel, o: OutcomeModel) -> bool {
    &&& o.param.len() == m.common().param.len()
    &&& (m is Bfgs ==> o.grad.len() == m.common().param.len() && o.inv_hessian.len()
        == m.common().param.len() * m.common().param.len())
}

/// The state after one iteration whose external work observed `o`: the point,
/// cost, gradient and curvature are replaced, the iteration counter advances,
/// the best point is kept or replaced as the cost improved, and the run
/// terminates exactly when the budget is reached or, under quasi-Newton, a
/// tolerance was met.
pub open spec fn advance_model(m: StateModel, o: OutcomeModel) -> StateModel {
    let c = m.common();
    let next_iter = (c.iter + 1) as u64;
    let tol_hit = match m {
        StateModel::SteepestDescent { .. } => false,
        StateModel::Bfgs { .. } => o.cost_tol_hit || o.grad_tol_hit,
    };
    let next_core = CoreModel {
        iter: next_iter,
        max_iters: c.max_iters,
        terminated: next_iter >= c.max_iters || tol_hit,
        cost: o.cost,
        best_cost: if o.cost_improved {
            o.cost
        } else {
            c.best_cost
        },
        param: o.param,
        best_param: if o.cost_improved {
            o.param
        } else {
            c.best_param
        },
    };
    match m {
        StateModel::SteepestDescent { .. } => StateModel::SteepestDescent { common: next_core },
        StateModel::Bfgs { extra, .. } => StateModel::Bfgs {
            common: next_core,
            extra: BfgsModel {
                tol_cost: extra.tol_cost,
                tol_grad: extra.tol_grad,
                grad: o.grad,
                inv_hessian: o.inv_hessian,
            },
        },
    }
}

/// One iteration preserves well-formedness.
pub proof fn lemma_advance_preserves_wf(m: StateModel, o: OutcomeModel)
    requires
        m.wf(),
        !m.common().terminated,
        outcome_fits(m, o),
    ensures
        advance_model(m, o).wf(),
{
}

/// A quasi-Newton run whose observed step meets a tolerance terminates at
/// that iteration, however much of the iteration budget is left. In
/// particular, a run started within tolerance of a minimum stops after its
/// first iteration, not after `max_iters`.
pub proof fn lemma_bfgs_tolerance_stops(m: StateModel, o: OutcomeModel)
    requires
        m is Bfgs,
        m.wf(),
        !m.common().terminated,
        o.cost_tol_hit || o.grad_tol_hit,
    ensures
        advance_model(m, o).common().terminated,
        advance_model(m, o).common().iter == m.common().iter + 1,
{
}

/// The bookkeeping every algorithm shares, with vectors held concretely.
pub struct CoreState {
    /// Iterations performed so far.
    pub iter: u64,
    /// Iteration budget of the run.
    pub max_iters: u64,
    /// Whether the run has reached its budget or met a tolerance.
    pub terminated: bool,
    /// Cost at the current point (an IEEE-754 bit pattern).
    pub cost: u64,
    /// Cost at the best point found so far.
    pub best_cost: u64,
    /// The current point, one bit pattern per element.
    pub param: Vec<u64>,
    /// The best point found so far.
    pub best_param: Vec<u64>,
}

impl CoreState {
    /// Ghost model of this bookkeeping.
    pub open spec fn model(self) -> CoreModel {
        CoreModel {
            iter: self.iter,
            max_iters: self.max_iters,
            terminated: self.terminated,
            cost: self.cost,
            best_cost: self.best_cost,
            param: self.param@,
            best_param: self.best_param@,
        }
    }
}

/// The quasi-Newton extras, with vectors held concretely.
pub struct BfgsState {
    /// Stop when the absolute cost improvement falls under this value.
    pub tol_cost: u64,
    /// Stop when the gradient norm falls under this value.
    pub tol_grad: u64,
    /// Gradient at the current point.
    pub grad: Vec<u64>,
    /// Approximate inverse Hessian, row-major.
    pub inv_hessian: Vec<u64>,
}

impl BfgsState {
    /// Ghost model of these extras.
    pub open spec fn model(self) -> BfgsModel {
        BfgsModel {
            tol_cost: self.tol_cost,
            tol_grad: self.tol_grad,
            grad: self.grad@,
            inv_hessian: self.inv_hessian@,
        }
    }
}

/// The full internal state of the descent engine: one variant per algorithm,
/// owned by the engine during a run and snapshotted wholesale between runs.
pub enum SolverState {
    /// Steepest descent.
    SteepestDescent {
        /// Shared bookkeeping.
        common: CoreState,
    },
    /// Quasi-Newton descent.
    Bfgs {
        /// Shared bookkeeping.
        common: CoreState,
        /// Tolerances and curvature state.
        extra: BfgsState,
    },
}

impl SolverState {
    /// Ghost model of this state.
    pub open spec fn model(self) -> StateModel {
        match self {
            SolverState::SteepestDescent { common } => StateModel::SteepestDescent {
                common: common.model(),
            },
            SolverState::Bfgs { common, extra } => StateModel::Bfgs {
                common: common.model(),
                extra: extra.model(),
            },
        }
    }

    /// Well-formedness of the modelled state.
    pub open spec fn wf(self) -> bool {
        self.model().wf()
    }
}

/// What one iteration of external descent work observed, handed back to the
/// engine: the new point and cost, the quasi-Newton gradient and curvature
/// update, and the external verdicts that the engine cannot compute itself —
/// whether the cost improved on the best so far, and whether a tolerance of
/// the run was met.
pub struct StepOutcome {
    /// The point after the step.
    pub param: Vec<u64>,
    /// Cost at that point.
    pub cost: u64,
    /// Gradient at that point (quasi-Newton only; empty otherwise).
    pub grad: Vec<u64>,
    /// Updated curvature approximation (quasi-Newton only; empty otherwise).
    pub inv_hessian: Vec<u64>,
    /// Whether the new cost improves on the best cost so far.
    pub cost_improved: bool,
    /// Whether the absolute cost improvement fell under the cost tolerance.
    pub cost_tol_hit: bool,
    /// Whether the gradient norm fell under the gradient tolerance.
    pub grad_tol_hit: bool,
}

impl StepOutcome {
    /// Ghost model of this observation.
    pub open spec fn model(self) -> OutcomeModel {
        OutcomeModel {
            param: self.param@,
            cost: self.cost,
            grad: self.grad@,
            inv_hessian: self.inv_hessian@,
            cost_improved: self.cost_improved,
            cost_tol_hit: self.cost_tol_hit,
            grad_tol_hit: self.grad_tol_hit,
        }
    }
}

/// Copies a vector of words.
pub(crate) fn clone_words(v: &Vec<u64>) -> (r: Vec<u64>)
    ensures
        r@ == v@,
{
    let mut out: Vec<u64> = Vec::new();
    let mut i: usize = 0;
    while i < v.len()
        invariant
            i <= v@.len(),
            out@ == v@.subrange(0, i as int),
        decreases v@.len() - i,
    {
        out.push(v[i]);
        proof {
            assert(v@.subrange(0, i as int).push(v@[i as int]) =~= v@.subrange(0, i + 1 as int));
        }
        i = i + 1;
    }
    proof {
        assert(v@.subrange(0, v@.len() as int) =~= v@);
    }
    out
}

/// Applies one iteration's observed outcome to the solver state.
pub fn advance(state: SolverState, outcome: &StepOutcome) -> (r: SolverState)
    requires
        state.wf(),
        !state.model().common().terminated,
        outcome_fits(state.model(), outcome.model()),
    ensures
        r.wf(),
        r.model() == advance_model(state.model(), outcome.model()),
{
    proof {
        lemma_advance_preserves_wf(state.model(), outcome.model());
    }
    let ghost pre = state.model();
    let ghost obs = outcome.model();
    match state {
        SolverState::SteepestDescent { common } => {
            let next_core = advance_core(common, clone_words(&outcome.param), outcome.cost, outcome.cost_improved, false);
            let r = SolverState::SteepestDescent { common: next_core };
            proof {
                assert(r.model() =~= advance_model(pre, obs));
            }
            r
        },
        SolverState::Bfgs { common, extra } => {
            let tol_hit: bool = outcome.cost_tol_hit || outcome.grad_tol_hit;
            let next_core = advance_core(common, clone_words(&outcome.param), outcome.cost, outcome.cost_improved, tol_hit);
            let r = SolverState::Bfgs {
                common: next_core,
                extra: BfgsState {
                    tol_cost: extra.tol_cost,
                    tol_grad: extra.tol_grad,
                    grad: clone_words(&outcome.grad),
                    inv_hessian: clone_words(&outcome.inv_hessian),
                },
            };
            proof {
                assert(r.model() =~= advance_model(pre, obs));
            }
            r
        },
    }
}

/// Advances the shared bookkeeping by one observed iteration.
fn advance_core(common: CoreState, param: Vec<u64>, cost: u64, cost_improved: bool, tol_hit: bool) -> (r:
    CoreState)
    requires
        !common.terminated,
        common.iter < common.max_iters,
    ensures
        r.iter == common.iter + 1,
        r.max_iters == common.max_iters,
        r.terminated == (common.iter + 1 >= common.max_iters || tol_hit),
        r.cost == cost,
        r.param@ == param@,
        r.best_cost == if cost_improved {
            cost
        } else {
            common.best_cost
        },
        r.best_param@ == if cost_improved {
            param@
        } else {
            common.best_param@
        },
{
    let next_iter: u64 = common.iter + 1;
    let terminated: bool = next_iter >= common.max_iters || tol_hit;
    if cost_improved {
        let best_param: Vec<u64> = clone_words(&param);
        CoreState {
            iter: next_iter,
            max_iters: common.max_iters,
            terminated,
            cost,
            best_cost: cost,
            param,
            best_param,
        }
    } else {
        CoreState {
            iter: next_iter,
            max_iters: common.max_iters,
            terminated,
            cost,
            best_cost: common.best_cost,
            param,
            best_param: common.best_param,
        }
    }
}

/// The fresh state a run starts from: iteration zero at the initial point,
/// costs at infinity, and, under quasi-Newton, a zero gradient and the
/// identity matrix as the initial curvature approximation.
pub open spec fn initial_model(conf: SolverConfig, p: Seq<u64>, max_iters: u64) -> StateModel {
    let common = CoreModel {
        iter: 0,
        max_iters,
        terminated: max_iters == 0,
        cost: INFINITY_BITS,
        best_cost: INFINITY_BITS,
        param: p,
        best_param: p,
    };
    match conf {
        SolverConfig::SteepestDescent => StateModel::SteepestDescent { common },
        SolverConfig::Bfgs { tol_cost, tol_grad } => StateModel::Bfgs {
            common,
            extra: BfgsModel {
                tol_cost,
                tol_grad,
                grad: Seq::new(p.len(), |i: int| 0u64),
                inv_hessian: identity_bits(p.len() as int),
            },
        },
    }
}

/// Row-major identity matrix of dimension `n`, as bit patterns.
pub open spec fn identity_bits(n: int) -> Seq<u64> {
    Seq::new((n * n) as nat, |i: int| if i / n == i % n {
        ONE_BITS
    } else {
        0u64
    })
}

/// Builds the fresh state a run starts from.
pub fn initial_state(conf: &SolverConfig, init_param: &Vec<u64>, max_iters: u64) -> (r: SolverState)
    requires
        conf.spec_is_bfgs() ==> init_param@.len() * init_param@.len() <= usize::MAX,
    ensures
        r.wf(),
        r.model() == initial_model(*conf, init_param@, max_iters),
{
    let dim: usize = init_param.len();
    proof {
        assert(init_param@.len() == dim);
        assert(dim <= usize::MAX);
        assert(usize::MAX <= u64::MAX);
    }
    let common = CoreState {
        iter: 0,
        max_iters,
        terminated: max_iters == 0,
        cost: INFINITY_BITS,
        best_cost: INFINITY_BITS,
        param: clone_words(init_param),
        best_param: clone_words(init_param),
    };
    match conf {
        SolverConfig::SteepestDescent => {
            let r = SolverState::SteepestDescent { common };
            proof {
                assert(r.model() =~= initial_model(*conf, init_param@, max_iters));
            }
            r
        },
        SolverConfig::Bfgs { tol_cost, tol_grad } => {
            let n: usize = init_param.len();
            let mut grad: Vec<u64> = Vec::new();
            let mut i: usize = 0;
            while i < n
                invariant
                    i <= n,
                    grad@ =~= Seq::new(i as nat, |j: int| 0u64),
                decreases n - i,
            {
                grad.push(0);
                proof {
                    assert(grad@ =~= Seq::new((i + 1) as nat, |j: int| 0u64));
                }
                i = i + 1;
            }
            let inv_hessian: Vec<u64> = identity_matrix(n);
            let r = SolverState::Bfgs {
                common,
                extra: BfgsState { tol_cost: *tol_cost, tol_grad: *tol_grad, grad, inv_hessian },
            };
            proof {
                assert(r.model() =~= initial_model(*conf, init_param@, max_iters));
            }
            r
        },
    }
}

/// Builds the row-major identity matrix of dimension `n`, as bit patterns.
fn identity_matrix(n: usize) -> (r: Vec<u64>)
    requires
        n * n <= usize::MAX,
    ensures
        r@ == identity_bits(n as int),
{
    let mut out: Vec<u64> = Vec::new();
    if n == 0 {
        proof {
            assert(out@ =~= identity_bits(0));
        }
        return out;
    }
    let total: usize = n * n;
    let mut i: usize = 0;
    while i < total
        invariant
            0 < n,
            total == n * n,
            i <= total,
            out@.len() == i,
            forall|j: int| 0 <= j < i ==> out@[j] == identity_bits(n as int)[j],
        decreases total - i,
    {
        let e: u64 = if i / n == i % n {
            ONE_BITS
        } else {
            0
        };
        out.push(e);
        i = i + 1;
    }
    proof {
        assert(out@ =~= identity_bits(n as int));
    }
    out
}

} // verus!
