//! Local planner for autonomous decision-making.

use vstd::prelude::*;

verus! {

/// A planner that plans only a no-op and does nothing when executing.
pub struct NoOpPlanner;

} // verus!
