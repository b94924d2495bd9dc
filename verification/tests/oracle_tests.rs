use numeromancy::codec::encode;
use numeromancy::config::ProblemConfig;
use numeromancy::oracle::{EvalRole, Oracle, OracleError};

fn oracle_with(cost: Option<&str>, grad: Option<&str>, hessian: Option<&str>) -> Oracle {
    Oracle {
        problem: ProblemConfig {
            cost_fn: cost.map(|s| s.to_string()),
            grad_fn: grad.map(|s| s.to_string()),
            hessian_fn: hessian.map(|s| s.to_string()),
        },
        dim: 2,
    }
}

#[test]
fn oracle_unconfigured_gradient_fails_before_any_call() {
    // The gradient role has no evaluator configured: the request itself is
    // refused, so no external call is ever attempted.
    let oracle = oracle_with(Some("cost_udf"), None, None);
    let param = vec![1.0f64.to_bits(), 2.0f64.to_bits()];
    let r = oracle.request(EvalRole::Gradient, &param);
    assert_eq!(r.err().unwrap(), OracleError::EvaluatorUnavailable);
}

#[test]
fn oracle_request_carries_name_and_encoded_param() {
    let oracle = oracle_with(Some("cost_udf"), Some("grad_udf"), None);
    let param = vec![(-1.2f64).to_bits(), 1.0f64.to_bits()];
    let req = oracle.request(EvalRole::Cost, &param).unwrap();
    assert_eq!(req.evaluator, "cost_udf");
    assert_eq!(req.payload, encode(&param));
    let req = oracle.request(EvalRole::Gradient, &param).unwrap();
    assert_eq!(req.evaluator, "grad_udf");
    assert_eq!(req.payload, encode(&param));
    let r = oracle.request(EvalRole::Hessian, &param);
    assert_eq!(r.err().unwrap(), OracleError::EvaluatorUnavailable);
}

#[test]
fn oracle_cost_response_requires_a_result() {
    let oracle = oracle_with(Some("cost_udf"), None, None);
    assert_eq!(oracle.cost_response(None).err().unwrap(), OracleError::EvaluatorError);
    let c = 4.25f64.to_bits();
    assert_eq!(oracle.cost_response(Some(c)).unwrap(), c);
}

#[test]
fn oracle_gradient_response_checks_shape() {
    let oracle = oracle_with(Some("cost_udf"), Some("grad_udf"), None);
    // Absent result: the external call returned nothing.
    assert_eq!(oracle.gradient_response(None).err().unwrap(), OracleError::EvaluatorError);
    // Wrong length for dimension 2 (one element instead of two).
    let short = encode(&vec![3.0f64.to_bits()]);
    assert_eq!(oracle.gradient_response(Some(short)).err().unwrap(), OracleError::DecodeError);
    // A length that is not even a whole number of elements.
    assert_eq!(
        oracle.gradient_response(Some(vec![0u8; 9])).err().unwrap(),
        OracleError::DecodeError
    );
    // The right shape decodes to the vector bit-for-bit.
    let g = vec![0.5f64.to_bits(), (-0.25f64).to_bits()];
    let ok = oracle.gradient_response(Some(encode(&g))).unwrap();
    assert_eq!(ok, g);
}

#[test]
fn oracle_hessian_response_checks_shape() {
    let oracle = oracle_with(Some("cost_udf"), None, Some("hessian_udf"));
    assert_eq!(oracle.hessian_response(None).err().unwrap(), OracleError::EvaluatorError);
    // Dimension 2 demands a 2-by-2 matrix: four entries, not two.
    let two = encode(&vec![1.0f64.to_bits(), 2.0f64.to_bits()]);
    assert_eq!(oracle.hessian_response(Some(two)).err().unwrap(), OracleError::DecodeError);
    let h: Vec<u64> = [1.0f64, 0.5, 0.5, 2.0].iter().map(|x| x.to_bits()).collect();
    let ok = oracle.hessian_response(Some(encode(&h))).unwrap();
    assert_eq!(ok, h);
}
