//! A one-way folder mirror: the decisions of a mirror pass, a model of what a
//! pass does to the destination tree with the laws it obeys, and the run loop
//! that repeats passes until a shutdown request arrives.
use vstd::prelude::*;

pub mod config;
pub mod mirror;
pub mod schedule;
pub mod trigger;

verus! {

} // verus!
