use numeromancy::config::{
    Args, Config, DatabaseConfig, OptimizerConfig, OutputConfig, ProblemConfig, SolverConfig,
};

fn database(port: Option<u16>, user: Option<&str>, db: Option<&str>) -> DatabaseConfig {
    DatabaseConfig {
        host: "localhost".to_string(),
        port,
        user: user.map(|s| s.to_string()),
        password: None,
        database: db.map(|s| s.to_string()),
    }
}

#[test]
fn database_connection_defaults_apply_when_unset() {
    let c = database(None, None, None);
    assert_eq!(c.effective_port(), 3306);
    assert_eq!(c.effective_user(), "root");
    assert_eq!(c.effective_database(), "numeromancy");
}

#[test]
fn database_connection_settings_win_over_defaults() {
    let c = database(Some(3307), Some("alice"), Some("experiments"));
    assert_eq!(c.effective_port(), 3307);
    assert_eq!(c.effective_user(), "alice");
    assert_eq!(c.effective_database(), "experiments");
}

#[test]
fn solver_choice_is_tagged() {
    assert!(SolverConfig::Bfgs { tol_cost: 0, tol_grad: 0 }.is_bfgs());
    assert!(!SolverConfig::SteepestDescent.is_bfgs());
}

#[test]
fn whole_configuration_assembles() {
    let config = Config {
        database: database(None, None, None),
        optimizer: OptimizerConfig {
            init_param: vec![(-1.2f64).to_bits(), 1.0f64.to_bits()],
            max_iters: 100,
        },
        solver: SolverConfig::SteepestDescent,
        problem: ProblemConfig {
            cost_fn: Some("cost_udf".to_string()),
            grad_fn: Some("grad_udf".to_string()),
            hessian_fn: None,
        },
        output: OutputConfig { fn_name: "model_infer".to_string() },
    };
    let args = Args { config: "config.toml".to_string() };
    assert_eq!(args.config, "config.toml");
    assert_eq!(config.optimizer.init_param.len(), 2);
    assert_eq!(config.output.fn_name, "model_infer");
    assert_eq!(config.problem.hessian_fn, None);
}
