use vstd::prelude::*;

verus! {

/// Why judging a target failed.
#[derive(Debug, Clone, Copy, PartialEq, Eq, Structural)]
pub enum PipelineError {
    /// The judge script ran but reported failure.
    TriggerError,
    /// The judge script succeeded but its output was not a score.
    MalformedOutput,
}

} // verus!
