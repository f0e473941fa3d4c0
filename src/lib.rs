//! A falling-sand cellular automaton: a grid of granular cells, an emitter
//! that spawns particles, a per-tick update rule and the decisions of the
//! tick scheduler that drives it.
pub mod emitter;
pub mod count;
pub mod grid;
pub mod lemmas;
pub mod rule;
pub mod simulation;

use vstd::prelude::*;

verus! {

} // verus!
