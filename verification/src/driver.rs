//! Driver: the resumable iteration protocol.
//!
//! A full run folds one observed iteration after another into the engine
//! state until termination. A single-step run performs exactly one iteration
//! per call: it loads the prior checkpoint (or starts fresh from the initial
//! point when the blob is empty), applies the observed iteration, saves the
//! new state as the next checkpoint, and returns a per-iteration summary with
//! the current best vector. The driver holds no state between calls; the
//! caller persists the returned blob and supplies it next call.

use crate::checkpoint::{blob_of_model, load, parse, save, CheckpointError};
use crate::config::SolverConfig;
use crate::engine::{
    advance, advance_model, clone_words, initial_model, initial_state,
    lemma_advance_preserves_wf, outcome_fits, OutcomeModel, SolverState, StateModel, StepOutcome,
};
use vstd::prelude::*;

verus! {

/// Failure modes of one driver call.
#[derive(Clone, Copy, Debug, PartialEq, Eq, Structural)]
pub enum DriverError {
    /// The supplied checkpoint blob does not deserialize into a valid state.
    Checkpoint(CheckpointError),
    /// The checkpoint was produced by the other algorithm than the one
    /// configured for this run.
    AlgorithmMismatch,
    /// An observed outcome, or the initial point, does not have the shape the
    /// run demands.
    DimensionMismatch,
}

/// Scalar summary of the engine state an iteration ended in.
#[derive(Clone, Copy, Debug, PartialEq, Eq, Structural)]
pub struct StepSummary {
    /// Iterations performed so far.
    pub iter: u64,
    /// Cost at the current point.
    pub cost: u64,
    /// Cost at the best point found so far.
    pub best_cost: u64,
    /// Whether the run has terminated.
    pub terminated: bool,
}

/// Whether a summary reports exactly the given state.
pub open spec fn summary_matches(s: StepSummary, m: StateModel) -> bool {
    &&& s.iter == m.common().iter
    &&& s.cost == m.common().cost
    &&& s.best_cost == m.common().best_cost
    &&& s.terminated == m.common().terminated
}

/// The cost and gradient an external evaluation produced at a point.
#[derive(Clone)]
pub struct Solution {
    /// Cost at the point (an IEEE-754 bit pattern).
    pub cost: u64,
    /// Gradient at the point.
    pub gradient: Vec<u64>,
}

/// The state a single-step run threads between calls: the engine snapshot as
/// an opaque blob, the current point, and the most recent evaluation at it.
#[derive(Default, Clone)]
pub struct Serialized {
    /// The engine state, serialized; empty before the first call.
    pub serialized_executor: Vec<u8>,
    /// The current point.
    pub param: Vec<u64>,
    /// The most recent evaluation at the current point, when the caller has
    /// one; the verified protocol does not read it.
    pub solution: Option<Solution>,
}

/// Whether a fresh start in this configuration fits the machine: the
/// quasi-Newton curvature matrix must be addressable.
pub open spec fn fresh_dim_ok(conf: SolverConfig, p: Seq<u64>) -> bool {
    conf.spec_is_bfgs() ==> p.len() * p.len() <= usize::MAX
}

/// Whether a loaded state belongs to the configured algorithm.
pub open spec fn algorithm_matches(m: StateModel, conf: SolverConfig) -> bool {
    m is Bfgs <==> conf.spec_is_bfgs()
}

/// The state one driver call starts from: the checkpoint when one is stored,
/// a fresh state at the initial point when the blob is empty, and an error
/// when the blob is corrupt or belongs to the other algorithm.
pub open spec fn resume_model(
    blob: Seq<u8>,
    conf: SolverConfig,
    init_param: Seq<u64>,
    max_iters: u64,
) -> Result<StateModel, DriverError> {
    match parse(blob) {
        Ok(opt) => match opt {
            None => Ok(initial_model(conf, init_param, max_iters)),
            Some(m) => if algorithm_matches(m, conf) {
                Ok(m)
            } else {
                Err(DriverError::AlgorithmMismatch)
            },
        },
        Err(e) => Err(DriverError::Checkpoint(e)),
    }
}

/// The state a full run ends in: observed iterations are folded into the
/// state until they run out or the state terminates.
pub open spec fn run_model(m: StateModel, outs: Seq<OutcomeModel>) -> StateModel
    decreases outs.len(),
{
    if outs.len() == 0 || m.common().terminated {
        m
    } else {
        run_model(advance_model(m, outs[0]), outs.drop_first())
    }
}

/// Whether every observed iteration of a run has the shape the state it is
/// applied to demands.
pub open spec fn outcomes_fit(m: StateModel, outs: Seq<OutcomeModel>) -> bool
    decreases outs.len(),
{
    outs.len() == 0 || m.common().terminated || (outcome_fits(m, outs[0]) && outcomes_fit(
        advance_model(m, outs[0]),
        outs.drop_first(),
    ))
}

/// The state the stored checkpoint of `m` loads back as.
pub open spec fn reloaded(m: StateModel) -> StateModel {
    match parse(blob_of_model(m)) {
        Ok(opt) => match opt {
            Some(mm) => mm,
            None => m,
        },
        Err(_) => m,
    }
}

/// The state a sequence of single-step calls ends in: each iteration is
/// applied to the state read back from the checkpoint the previous call
/// saved.
pub open spec fn stepped_model(m: StateModel, outs: Seq<OutcomeModel>) -> StateModel
    decreases outs.len(),
{
    if outs.len() == 0 || m.common().terminated {
        m
    } else {
        stepped_model(reloaded(advance_model(m, outs[0])), outs.drop_first())
    }
}

/// Checkpoint equivalence: for every starting state and every sequence of
/// observed iterations, a full run computes the same final state as the same
/// iterations performed as single-step calls, each fed the checkpoint the
/// previous call saved. The external work is deterministic from the saved
/// state, so feeding both runs the same observations is exactly the premise
/// under which resuming is meaningful.
pub proof fn lemma_checkpoint_equivalence(m: StateModel, outs: Seq<OutcomeModel>)
    requires
        m.wf(),
        outcomes_fit(m, outs),
    ensures
        stepped_model(m, outs) == run_model(m, outs),
    decreases outs.len(),
{
    if outs.len() == 0 || m.common().terminated {
    } else {
        let m1 = advance_model(m, outs[0]);
        lemma_advance_preserves_wf(m, outs[0]);
        crate::checkpoint::lemma_checkpoint_round_trip(m1);
        assert(reloaded(m1) == m1);
        lemma_checkpoint_equivalence(m1, outs.drop_first());
    }
}

/// A single step from no prior checkpoint computes exactly the first
/// iteration of an equivalent full run from the same initial point.
pub proof fn lemma_first_step_matches_full_run(
    conf: SolverConfig,
    p: Seq<u64>,
    max_iters: u64,
    outs: Seq<OutcomeModel>,
)
    requires
        outs.len() >= 1,
        !initial_model(conf, p, max_iters).common().terminated,
    ensures
        resume_model(Seq::empty(), conf, p, max_iters) == Ok::<StateModel, DriverError>(
            initial_model(conf, p, max_iters),
        ),
        run_model(initial_model(conf, p, max_iters), outs.take(1)) == advance_model(
            initial_model(conf, p, max_iters),
            outs[0],
        ),
{
    let m0 = initial_model(conf, p, max_iters);
    assert(Seq::<u8>::empty().len() == 0);
    assert(outs.take(1)[0] == outs[0]);
    assert(outs.take(1).drop_first() =~= Seq::<OutcomeModel>::empty());
    assert(run_model(advance_model(m0, outs[0]), outs.take(1).drop_first()) == advance_model(
        m0,
        outs[0],
    ));
}

/// Summarizes the engine state an iteration ended in.
fn summarize(state: &SolverState) -> (s: StepSummary)
    ensures
        summary_matches(s, state.model()),
{
    match state {
        SolverState::SteepestDescent { common } => StepSummary {
            iter: common.iter,
            cost: common.cost,
            best_cost: common.best_cost,
            terminated: common.terminated,
        },
        SolverState::Bfgs { common, .. } => StepSummary {
            iter: common.iter,
            cost: common.cost,
            best_cost: common.best_cost,
            terminated: common.terminated,
        },
    }
}

/// The current point of a state.
fn current_param(state: &SolverState) -> (r: &Vec<u64>)
    ensures
        r@ == state.model().common().param,
{
    match state {
        SolverState::SteepestDescent { common } => &common.param,
        SolverState::Bfgs { common, .. } => &common.param,
    }
}

/// The best point of a state.
fn best_param(state: &SolverState) -> (r: &Vec<u64>)
    ensures
        r@ == state.model().common().best_param,
{
    match state {
        SolverState::SteepestDescent { common } => &common.best_param,
        SolverState::Bfgs { common, .. } => &common.best_param,
    }
}

/// Whether a state has terminated.
fn is_done(state: &SolverState) -> (r: bool)
    ensures
        r == state.model().common().terminated,
{
    match state {
        SolverState::SteepestDescent { common } => common.terminated,
        SolverState::Bfgs { common, .. } => common.terminated,
    }
}

/// Whether an observed outcome has the shape the state demands.
fn outcome_fits_exec(state: &SolverState, outcome: &StepOutcome) -> (r: bool)
    requires
        state.wf(),
    ensures
        r == outcome_fits(state.model(), outcome.model()),
{
    match state {
        SolverState::SteepestDescent { common } => outcome.param.len() == common.param.len(),
        SolverState::Bfgs { common, extra } => {
            let n: usize = common.param.len();
            outcome.param.len() == n && outcome.grad.len() == n && outcome.inv_hessian.len()
                == extra.inv_hessian.len()
        },
    }
}

/// Resolves the state one driver call starts from: the stored checkpoint, or
/// a fresh state at `init_param` when the blob is empty.
fn resume(
    blob: &Vec<u8>,
    conf: &SolverConfig,
    init_param: &Vec<u64>,
    max_iters: u64,
) -> (r: Result<SolverState, DriverError>)
    ensures
        match r {
            Ok(st) => {
                &&& st.wf()
                &&& (parse(blob@) matches Ok(opt) && opt is None ==> fresh_dim_ok(
                    *conf,
                    init_param@,
                ))
                &&& resume_model(blob@, *conf, init_param@, max_iters) matches Ok(m) && m
                    == st.model()
            },
            Err(e) => {
                ||| (resume_model(blob@, *conf, init_param@, max_iters) matches Err(re) && re == e)
                ||| (parse(blob@) matches Ok(opt) && opt is None && !fresh_dim_ok(
                    *conf,
                    init_param@,
                ) && e == DriverError::DimensionMismatch)
            },
        },
{
    let loaded: Option<SolverState> = match load(blob) {
        Ok(opt) => opt,
        Err(e) => { return Err(DriverError::Checkpoint(e)); },
    };
    match loaded {
        Some(st) => {
            let st_is_bfgs: bool = match &st {
                SolverState::SteepestDescent { .. } => false,
                SolverState::Bfgs { .. } => true,
            };
            if st_is_bfgs != conf.is_bfgs() {
                return Err(DriverError::AlgorithmMismatch);
            }
            Ok(st)
        },
        None => {
            if conf.is_bfgs() {
                let n: usize = init_param.len();
                match n.checked_mul(n) {
                    Some(_) => {},
                    None => { return Err(DriverError::DimensionMismatch); },
                }
            }
            Ok(initial_state(conf, init_param, max_iters))
        },
    }
}

/// Executes exactly one optimization iteration: resolves the state from the
/// prior checkpoint (or starts fresh at `state.param` on the first call),
/// applies the observed iteration unless the run has already terminated,
/// saves the resulting state as the new checkpoint, and returns the
/// per-iteration summary with the updated thread state. On an error the
/// previous checkpoint is left untouched and reusable.
pub fn iterate(
    state: Serialized,
    conf: &SolverConfig,
    max_iters: u64,
    outcome: &StepOutcome,
) -> (r: Result<(StepSummary, Serialized), DriverError>)
    ensures
        match r {
            Ok((s, next)) => {
                &&& resume_model(state.serialized_executor@, *conf, state.param@, max_iters)
                    matches Ok(m0)
                &&& (parse(state.serialized_executor@) matches Ok(opt) && opt is None
                    ==> fresh_dim_ok(*conf, state.param@))
                &&& (!m0.common().terminated ==> outcome_fits(m0, outcome.model()))
                &&& {
                    let m1 = if m0.common().terminated {
                        m0
                    } else {
                        advance_model(m0, outcome.model())
                    };
                    &&& summary_matches(s, m1)
                    &&& next.serialized_executor@ == blob_of_model(m1)
                    &&& next.param@ == m1.common().param
                    &&& next.solution is None
                }
            },
            Err(e) => {
                ||| (resume_model(state.serialized_executor@, *conf, state.param@, max_iters)
                    matches Err(re) && re == e)
                ||| (parse(state.serialized_executor@) matches Ok(opt) && opt is None
                    && !fresh_dim_ok(*conf, state.param@) && e == DriverError::DimensionMismatch)
                ||| (resume_model(state.serialized_executor@, *conf, state.param@, max_iters)
                    matches Ok(m0) && !m0.common().terminated && !outcome_fits(
                    m0,
                    outcome.model(),
                ) && e == DriverError::DimensionMismatch)
            },
        },
{
    let resumed: SolverState = match resume(&state.serialized_executor, conf, &state.param, max_iters) {
        Ok(st) => st,
        Err(e) => { return Err(e); },
    };
    if is_done(&resumed) {
        let blob: Vec<u8> = save(&resumed);
        let summary: StepSummary = summarize(&resumed);
        let param: Vec<u64> = clone_words(current_param(&resumed));
        return Ok((summary, Serialized { serialized_executor: blob, param, solution: None }));
    }
    if !outcome_fits_exec(&resumed, outcome) {
        return Err(DriverError::DimensionMismatch);
    }
    let next: SolverState = advance(resumed, outcome);
    let blob: Vec<u8> = save(&next);
    let summary: StepSummary = summarize(&next);
    let param: Vec<u64> = clone_words(current_param(&next));
    Ok((summary, Serialized { serialized_executor: blob, param, solution: None }))
}

/// Executes a full run: folds the observed iterations into a fresh state at
/// `init_param` until they run out or the run terminates, and returns the
/// final summary and the best point found. No checkpoint survives the call.
pub fn solve(
    conf: &SolverConfig,
    init_param: &Vec<u64>,
    max_iters: u64,
    outcomes: &Vec<StepOutcome>,
) -> (r: Result<(StepSummary, Vec<u64>), DriverError>)
    ensures
        ({
            let m0 = initial_model(*conf, init_param@, max_iters);
            let models = outcomes@.map_values(|o: StepOutcome| o.model());
            match r {
                Ok((s, best)) => {
                    &&& fresh_dim_ok(*conf, init_param@)
                    &&& outcomes_fit(m0, models)
                    &&& summary_matches(s, run_model(m0, models))
                    &&& best@ == run_model(m0, models).common().best_param
                },
                Err(e) => {
                    &&& !fresh_dim_ok(*conf, init_param@) || !outcomes_fit(m0, models)
                    &&& e == DriverError::DimensionMismatch
                },
            }
        }),
{
    let ghost m0 = initial_model(*conf, init_param@, max_iters);
    let ghost models = outcomes@.map_values(|o: StepOutcome| o.model());
    if conf.is_bfgs() {
        let n: usize = init_param.len();
        match n.checked_mul(n) {
            Some(_) => {},
            None => {
                assert(!fresh_dim_ok(*conf, init_param@));
                return Err(DriverError::DimensionMismatch);
            },
        }
    }
    let mut cur: SolverState = initial_state(conf, init_param, max_iters);
    proof {
        assert(models.skip(0) =~= models);
    }
    let mut done: bool = is_done(&cur);
    let mut i: usize = 0;
    while i < outcomes.len() && !done
        invariant
            cur.wf(),
            i <= outcomes@.len(),
            m0 == initial_model(*conf, init_param@, max_iters),
            fresh_dim_ok(*conf, init_param@),
            models == outcomes@.map_values(|o: StepOutcome| o.model()),
            models.len() == outcomes@.len(),
            done == cur.model().common().terminated,
            run_model(m0, models) == run_model(cur.model(), models.skip(i as int)),
            outcomes_fit(m0, models) == outcomes_fit(cur.model(), models.skip(i as int)),
        decreases outcomes@.len() - i,
    {
        proof {
            assert(models.skip(i as int)[0] == models[i as int]);
            assert(models.skip(i as int).drop_first() =~= models.skip(i + 1));
            assert(models[i as int] == outcomes@[i as int].model());
        }
        if !outcome_fits_exec(&cur, &outcomes[i]) {
            proof {
                assert(!outcomes_fit(cur.model(), models.skip(i as int)));
            }
            return Err(DriverError::DimensionMismatch);
        }
        cur = advance(cur, &outcomes[i]);
        done = is_done(&cur);
        i = i + 1;
    }
    proof {
        if i == outcomes@.len() {
            assert(models.skip(i as int) =~= Seq::<OutcomeModel>::empty());
        }
        assert(run_model(cur.model(), models.skip(i as int)) == cur.model());
        assert(outcomes_fit(cur.model(), models.skip(i as int)));
    }
    let summary: StepSummary = summarize(&cur);
    let best: Vec<u64> = clone_words(best_param(&cur));
    Ok((summary, best))
}

} // verus!
