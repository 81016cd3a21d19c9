//! A coverage-guided fuzzing campaign core: coverage maps and the campaign's
//! seen-map, a deduplicating corpus store with a minimizing scheduler, a
//! reproducible havoc mutator, fault classification with crash
//! deduplication, and the broker and restart decisions of the campaign
//! manager. `tools` holds the helpers of the repository maintenance program.

use vstd::prelude::*;

pub mod campaign;
pub mod corpus;
pub mod coverage;
pub mod feedback;
pub mod mutator;
pub mod scheduler;
pub mod tools;

verus! {

} // verus!
