//! The decision rule of the vector field's reverse integration.
//!
//! Reverse integration walks a particle backwards along the flow for a
//! bounded number of steps. The flow itself is continuous arithmetic and is
//! evaluated by the caller, which hands the two observations the rule needs:
//! whether the point still lies on the grid, and whether the raw flow
//! magnitude has dropped to the stationary-point threshold. The rule decides
//! whether another step is taken; as soon as the point has left the grid or
//! the flow has stalled, the walk stops and the point is returned as it
//! stands, so a point that starts at a stationary point is returned after
//! zero steps.

use vstd::prelude::*;

verus! {

/// One step of reverse integration is taken exactly when the point is still
/// on the grid and the flow there has not stalled.
pub fn rewind_should_step(inside_grid: bool, flow_at_most_threshold: bool) -> (r: bool)
    ensures
        r <==> (inside_grid && !flow_at_most_threshold),
{
    inside_grid && !flow_at_most_threshold
}

} // verus!
