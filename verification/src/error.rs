//! The failure taxonomy of the pipeline. Every stage returns an explicit
//! outcome; on any failure the invocation produces no report and sends no
//! message.

use vstd::prelude::*;

verus! {

/// Why a resolution pass aborted.
#[derive(Clone, Copy, Debug, PartialEq, Eq, Structural)]
pub enum PipelineError {
    /// The transport collaborator could not supply metadata or execute the
    /// batched read.
    TransportFailure,
    /// A requested named range is present but one of its coordinate bounds
    /// is absent; partial data would be misleading, so the whole pass
    /// aborts.
    IncompleteMetadata,
    /// The batched response does not line up positionally with the request.
    CorrelationMismatch,
    /// The qualifier-count cell is not decimal text, or an expected named
    /// block is absent from the correlated values.
    FormatFailure,
}

impl PipelineError {
    /// A short diagnostic label for the failure kind.
    pub fn label(&self) -> (r: &'static str)
        ensures
            *self == PipelineError::TransportFailure ==> r@ == "transport failure"@,
            *self == PipelineError::IncompleteMetadata ==> r@ == "incomplete metadata"@,
            *self == PipelineError::CorrelationMismatch ==> r@ == "correlation mismatch"@,
            *self == PipelineError::FormatFailure ==> r@ == "format failure"@,
    {
        match self {
            PipelineError::TransportFailure => "transport failure",
            PipelineError::IncompleteMetadata => "incomplete metadata",
            PipelineError::CorrelationMismatch => "correlation mismatch",
            PipelineError::FormatFailure => "format failure",
        }
    }
}

} // verus!
