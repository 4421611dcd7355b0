use vstd::prelude::*;

verus! {

/// Why a judge could not produce a score.
#[derive(Debug, Clone, Copy, PartialEq, Eq, Structural)]
pub enum JudosError {
    /// The judge script ran but reported failure.
    TriggerError,
    /// The judge script succeeded but its output was not a score.
    MalformedOutput,
}

} // verus!
