//! Configuration surface of the optimizer: the evaluator connection target,
//! the optimizer and solver settings, the evaluator identifiers of the
//! problem, and the name under which the solved model is published.
//!
//! Double-precision settings (the initial point, the solver tolerances) are
//! held as IEEE-754 bit patterns (`u64`); the components that perform
//! floating-point work interpret them.

use vstd::prelude::*;

verus! {

/// Command-line arguments: the path of the configuration file.
pub struct Args {
    /// Path of the configuration file to load.
    pub config: String,
}

/// The whole configuration of one run, resolved once and immutable.
pub struct Config {
    /// Where the external evaluator is reached.
    pub database: DatabaseConfig,
    /// Initial point and iteration budget.
    pub optimizer: OptimizerConfig,
    /// Which descent algorithm runs, with its tolerances.
    pub solver: SolverConfig,
    /// The evaluator identifiers of the problem.
    pub problem: ProblemConfig,
    /// Where the solved model is published.
    pub output: OutputConfig,
}

/// Initial point and iteration budget of the optimizer.
pub struct OptimizerConfig {
    /// Initial parameter vector, one IEEE-754 bit pattern per element.
    pub init_param: Vec<u64>,
    /// Upper bound on the number of iterations of a full run.
    pub max_iters: u64,
}

/// Name under which the solved model is published as an inference artifact.
pub struct OutputConfig {
    /// Identifier of the published artifact.
    pub fn_name: String,
}

/// The tagged choice of descent algorithm, immutable for the run.
pub enum SolverConfig {
    /// Quasi-Newton descent with a curvature approximation; stops early when
    /// the absolute cost improvement or the gradient norm falls under a
    /// tolerance (each given as an IEEE-754 bit pattern).
    Bfgs {
        /// Stop when the absolute cost improvement falls under this value.
        tol_cost: u64,
        /// Stop when the gradient norm falls under this value.
        tol_grad: u64,
    },
    /// Steepest descent; terminates only at the iteration budget.
    SteepestDescent,
}

/// Identifiers of the external cost, gradient and Hessian evaluators; each is
/// optional, and missing the one the active solver needs is a configuration
/// error raised at first use.
pub struct ProblemConfig {
    /// Identifier of the cost evaluator.
    pub cost_fn: Option<String>,
    /// Identifier of the gradient evaluator.
    pub grad_fn: Option<String>,
    /// Identifier of the Hessian evaluator.
    pub hessian_fn: Option<String>,
}

/// Connection target of the external evaluator backend.
pub struct DatabaseConfig {
    /// Host name or address.
    pub host: String,
    /// Port; a missing value stands for the conventional default.
    pub port: Option<u16>,
    /// User name; a missing value stands for the conventional default.
    pub user: Option<String>,
    /// Password, when one is needed.
    pub password: Option<String>,
    /// Database name; a missing value stands for the conventional default.
    pub database: Option<String>,
}

impl DatabaseConfig {
    /// The port to connect to: the configured one, or 3306 when none is set.
    pub fn effective_port(&self) -> (r: u16)
        ensures
            self.port matches Some(p) ==> r == p,
            self.port is None ==> r == 3306,
    {
        match self.port {
            Some(p) => p,
            None => 3306,
        }
    }

    /// The user to connect as: the configured one, or "root" when none is
    /// set.
    pub fn effective_user(&self) -> (r: String)
        ensures
            self.user matches Some(u) ==> r@ == u@,
            self.user is None ==> r@ == "root"@,
    {
        match &self.user {
            Some(u) => u.clone(),
            None => "root".to_owned(),
        }
    }

    /// The database to use: the configured one, or "numeromancy" when none
    /// is set.
    pub fn effective_database(&self) -> (r: String)
        ensures
            self.database matches Some(d) ==> r@ == d@,
            self.database is None ==> r@ == "numeromancy"@,
    {
        match &self.database {
            Some(d) => d.clone(),
            None => "numeromancy".to_owned(),
        }
    }
}

impl SolverConfig {
    /// Whether this choice is the quasi-Newton algorithm.
    pub open spec fn spec_is_bfgs(self) -> bool {
        self matches SolverConfig::Bfgs { .. }
    }

    /// Whether this choice is the quasi-Newton algorithm.
    pub fn is_bfgs(&self) -> (r: bool)
        ensures
            r == self.spec_is_bfgs(),
    {
        match self {
            SolverConfig::Bfgs { .. } => true,
            SolverConfig::SteepestDescent => false,
        }
    }
}

} // verus!
