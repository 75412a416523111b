//! Error taxonomy of the scan pipeline.

use vstd::prelude::*;

verus! {

/// Errors surfaced to callers of the pipeline.
///
/// `ArtifactInvalid`: the submitted bytes cannot be parsed; fatal for the job.
/// `ScanInProgress`: an admission-time rejection when a non-terminal job
/// already exists for the same `(contract_id, version)`.
/// `NotFound`: an unknown contract, version, job or checklist version.
#[derive(Clone, Copy, PartialEq, Eq, Structural, Debug)]
pub enum ScanError {
    ArtifactInvalid,
    ScanInProgress,
    NotFound,
}

/// Why a job reached the `Failed` terminal state.
#[derive(Clone, Copy, PartialEq, Eq, Structural, Debug)]
pub enum FailReason {
    /// The artifact could not be parsed.
    ArtifactInvalid,
    /// The overall per-job deadline elapsed before the job ran.
    DeadlineExceeded,
    /// The job was cancelled while still pending.
    Cancelled,
    /// The checklist registry had no published version to scan against.
    RegistryUnavailable,
}

} // verus!
