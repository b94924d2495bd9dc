//! Oracle protocol: cost, gradient and Hessian evaluation through a named
//! external evaluator.
//!
//! The external call itself is input/output performed by the surrounding
//! program; the library prepares each call and interprets each response. A
//! call is prepared by resolving the evaluator identifier that the requested
//! role is configured with and encoding the parameter vector; the response is
//! checked for presence and for the shape the role demands, and decoded.

use crate::codec::{decoded, encoded, encode};
use crate::config::ProblemConfig;
use vstd::prelude::*;

verus! {

/// The logical role an external evaluator is invoked under.
#[derive(Clone, Copy, Debug, PartialEq, Eq, Structural)]
pub enum EvalRole {
    /// Scalar objective value at a point.
    Cost,
    /// Gradient vector at a point.
    Gradient,
    /// Row-major Hessian matrix at a point.
    Hessian,
}

/// Failure modes of one oracle operation.
#[derive(Clone, Copy, Debug, PartialEq, Eq, Structural)]
pub enum OracleError {
    /// No evaluator identifier is configured for the requested role.
    EvaluatorUnavailable,
    /// The external call failed or returned no result.
    EvaluatorError,
    /// The response buffer has an invalid length or does not match the
    /// expected dimension.
    DecodeError,
}

/// One prepared external call: the evaluator to invoke and the encoded
/// parameter vector to hand it.
pub struct EvalRequest {
    /// Identifier of the evaluator to invoke.
    pub evaluator: String,
    /// The parameter vector, encoded eight bytes per element.
    pub payload: Vec<u8>,
}

/// The oracle: the evaluator identifiers of the problem and the dimension of
/// the parameter space, fixed for the run.
pub struct Oracle {
    /// Evaluator identifiers, by role.
    pub problem: ProblemConfig,
    /// Length of every parameter and gradient vector of the run.
    pub dim: usize,
}

impl Oracle {
    /// The evaluator identifier configured for `role`, if any.
    pub open spec fn spec_evaluator(self, role: EvalRole) -> Option<String> {
        match role {
            EvalRole::Cost => self.problem.cost_fn,
            EvalRole::Gradient => self.problem.grad_fn,
            EvalRole::Hessian => self.problem.hessian_fn,
        }
    }

    /// Prepares the external call for `role` at the point `param`: fails with
    /// `EvaluatorUnavailable` exactly when no identifier is configured for
    /// `role`, before any external call could be attempted; otherwise yields
    /// the configured identifier and the encoded parameter vector.
    pub fn request(&self, role: EvalRole, param: &Vec<u64>) -> (r: Result<EvalRequest, OracleError>)
        ensures
            match r {
                Ok(req) => {
                    &&& self.spec_evaluator(role) matches Some(name) && req.evaluator@ == name@
                    &&& req.payload@ == encoded(param@)
                },
                Err(e) => {
                    &&& self.spec_evaluator(role) is None
                    &&& e == OracleError::EvaluatorUnavailable
                },
            },
    {
        let name: &String = match role {
            EvalRole::Cost => {
                match &self.problem.cost_fn {
                    Some(s) => s,
                    None => { return Err(OracleError::EvaluatorUnavailable); },
                }
            },
            EvalRole::Gradient => {
                match &self.problem.grad_fn {
                    Some(s) => s,
                    None => { return Err(OracleError::EvaluatorUnavailable); },
                }
            },
            EvalRole::Hessian => {
                match &self.problem.hessian_fn {
                    Some(s) => s,
                    None => { return Err(OracleError::EvaluatorUnavailable); },
                }
            },
        };
        Ok(EvalRequest { evaluator: name.clone(), payload: encode(param) })
    }

    /// Interprets the response of a cost call: the evaluator returns one
    /// double, or nothing. Fails with `EvaluatorError` exactly when no result
    /// came back; otherwise yields the returned bit pattern unchanged.
    pub fn cost_response(&self, resp: Option<u64>) -> (r: Result<u64, OracleError>)
        ensures
            match r {
                Ok(c) => resp == Some(c),
                Err(e) => resp is None && e == OracleError::EvaluatorError,
            },
    {
        match resp {
            Some(c) => Ok(c),
            None => Err(OracleError::EvaluatorError),
        }
    }

    /// Interprets the response of a gradient call: the evaluator returns an
    /// encoded vector, or nothing. Fails with `EvaluatorError` exactly when no
    /// result came back, and with `DecodeError` exactly when the buffer is not
    /// eight bytes per element of a vector of the run's dimension; otherwise
    /// yields the decoded vector.
    pub fn gradient_response(&self, resp: Option<Vec<u8>>) -> (r: Result<Vec<u64>, OracleError>)
        ensures
            match r {
                Ok(g) => {
                    &&& resp matches Some(b) && b@.len() == 8 * self.dim
                    &&& g@ == decoded(resp->Some_0@)
                    &&& g@.len() == self.dim
                },
                Err(e) => match e {
                    OracleError::EvaluatorError => resp is None,
                    OracleError::DecodeError => resp matches Some(b) && b@.len() != 8 * self.dim,
                    _ => false,
                },
            },
    {
        let b: Vec<u8> = match resp {
            Some(b) => b,
            None => { return Err(OracleError::EvaluatorError); },
        };
        if b.len() / 8 != self.dim || b.len() % 8 != 0 {
            return Err(OracleError::DecodeError);
        }
        let g: Vec<u64> = match crate::codec::decode(&b) {
            Ok(g) => g,
            Err(_) => { return Err(OracleError::DecodeError); },
        };
        Ok(g)
    }

    /// Interprets the response of a Hessian call: the evaluator returns an
    /// encoded row-major matrix of the run's dimension squared, or nothing.
    /// Fails with `EvaluatorError` exactly when no result came back, and with
    /// `DecodeError` exactly when the buffer is not eight bytes per matrix
    /// entry; otherwise yields the decoded matrix.
    pub fn hessian_response(&self, resp: Option<Vec<u8>>) -> (r: Result<Vec<u64>, OracleError>)
        ensures
            match r {
                Ok(h) => {
                    &&& resp matches Some(b) && b@.len() == 8 * (self.dim * self.dim)
                    &&& h@ == decoded(resp->Some_0@)
                    &&& h@.len() == self.dim * self.dim
                },
                Err(e) => match e {
                    OracleError::EvaluatorError => resp is None,
                    OracleError::DecodeError => resp matches Some(b) && b@.len() != 8 * (self.dim
                        * self.dim),
                    _ => false,
                },
            },
    {
        let b: Vec<u8> = match resp {
            Some(b) => b,
            None => { return Err(OracleError::EvaluatorError); },
        };
        let len: usize = b.len();
        proof {
            assert(b@.len() == len);
            assert((self.dim as int) * (self.dim as int) >= 0) by (nonlinear_arith);
        }
        let nn: usize = match self.dim.checked_mul(self.dim) {
            Some(nn) => nn,
            None => {
                // No addressable buffer can hold a matrix beyond the machine.
                return Err(OracleError::DecodeError);
            },
        };
        if len / 8 != nn || len % 8 != 0 {
            return Err(OracleError::DecodeError);
        }
        let h: Vec<u64> = match crate::codec::decode(&b) {
            Ok(h) => h,
            Err(_) => { return Err(OracleError::DecodeError); },
        };
        Ok(h)
    }
}

} // verus!
