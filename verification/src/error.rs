//! What can go wrong while saving or loading.

use vstd::prelude::*;

verus! {

#[derive(Clone, Copy, Debug, PartialEq, Eq)]
pub enum PipelineError {
    /// The snapshot could not be written as text.
    Saving,
    /// The text is not a snapshot: malformed, truncated, or of the wrong shape.
    Loading,
    /// The snapshot cannot be applied: the world has too few identifiers
    /// left for its records.
    Apply,
}

impl PipelineError {
    /// A short description, for logs.
    pub fn message(&self) -> (r: &'static str)
        ensures
            r@ == match *self {
                PipelineError::Saving => "saving failed"@,
                PipelineError::Loading => "loading failed"@,
                PipelineError::Apply => "applying the snapshot failed"@,
            },
    {
        match self {
            PipelineError::Saving => "saving failed",
            PipelineError::Loading => "loading failed",
            PipelineError::Apply => "applying the snapshot failed",
        }
    }
}

} // verus!
