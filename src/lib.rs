use vstd::prelude::*;

pub mod amount;
pub mod classify;
pub mod config;
pub mod maturation;
pub mod pipeline;
pub mod report;
pub mod wallet;

verus! {

} // verus!
