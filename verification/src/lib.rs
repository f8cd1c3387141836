//! Request-inspection dispatch pipeline for a proxy-side security filter.
//!
//! The filter accumulates request state across the proxy's lifecycle events
//! (headers, payload, end), assembles an immutable snapshot of the request,
//! and decides at end of request whether to let it continue or block it,
//! based on the rule engine's intervention decision and a fail-closed
//! timeout policy.

pub mod descriptor;
pub mod engine;
pub mod filter;
pub mod intervention;
pub mod rules;
