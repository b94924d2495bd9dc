//! Numeromancy: a resumable numerical optimization driver.
//!
//! The library drives an iterative descent over a scalar objective whose cost
//! and gradient are computed by an external evaluator. Double-precision values
//! are carried everywhere as their IEEE-754 bit patterns (`u64`), so that the
//! encoding, the oracle protocol, the engine bookkeeping and the checkpoint
//! store can be stated and verified exactly, while the floating-point descent
//! mathematics stay in the external components that perform them.

pub mod checkpoint;
pub mod codec;
pub mod config;
pub mod driver;
pub mod engine;
pub mod oracle;
