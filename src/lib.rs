//! Per-destination circuit breaking: tallies of call outcomes, the
//! closed / open / half-open state machine that turns them into admission
//! decisions, and a registry that keeps one breaker per destination.
use vstd::prelude::*;

pub mod config;
pub mod counter;
pub mod breaker;
pub mod registry;
pub mod middleware;
pub mod strategy;
pub mod laws;

verus! {

} // verus!
