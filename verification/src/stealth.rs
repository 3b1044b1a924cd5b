//! Behavioural simulation: the scroll step that the (floating-point) generator produces.

use vstd::prelude::*;

verus! {

/// A single discrete scroll action.
#[derive(Debug, Clone, Copy, PartialEq, Eq, Structural)]
pub struct ScrollStep {
    /// Pixels to scroll (positive = down).
    pub pixels: i32,
    /// Delay in milliseconds before this step.
    pub delay_ms: u64,
}

} // verus!
