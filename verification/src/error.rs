//! The recoverable failures of the library: rejected grid dimensions, a step
//! reporting an ordinary processing failure, and a pipeline run after its
//! grid was already consumed.

use vstd::prelude::*;

verus! {

/// Everything a grid constructor, a step, or a pipeline run can report
/// without aborting the process. Out-of-range indexed access is not here: it
/// is a programmer error, ruled out by preconditions on the indexed
/// accessors, while `get` and `get_mut` stay as the recoverable path.
#[derive(Debug, Clone, PartialEq, Eq)]
pub enum PipelineError {
    /// A grid was requested with a zero dimension.
    InvalidDimensions,
    /// A step failed, with a human-readable reason.
    StepFailure(String),
    /// The pipeline's grid was already consumed by an earlier run.
    PipelineNotReady,
}

} // verus!
