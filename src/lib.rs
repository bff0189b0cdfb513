//! The request-handling rules of a small numeric HTTP service: summing a list of
//! values in order, the reply to a liveness probe, and the address the service
//! listens on.

pub mod config;
pub mod health;
pub mod sum;
