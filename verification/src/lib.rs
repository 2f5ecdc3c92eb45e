//! Decision logic of a memory-cleaning service: load tiers and run budgets,
//! the cycle scheduler, kernel command plans, memory and CPU figures, and the
//! service's log lines.
use vstd::prelude::*;

pub mod budget;
pub mod schedule;
pub mod text;
pub mod report;
pub mod memory;
pub mod commands;
pub mod cpu;
pub mod wide;

verus! {

} // verus!
