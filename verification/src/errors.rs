//! The closed error taxonomy of the lifecycle orchestrator.

use vstd::prelude::*;

verus! {

/// Why a lifecycle operation failed. Every error carries the index of the
/// component it concerns, so a caller can diagnose without internal state.
#[derive(Debug)]
pub enum OrchestratorError {
    /// The configuration artifact of a validator could not be produced.
    ConfigGenerationFailure { validator: usize },
    /// A backend command targeting one shard returned non-success.
    BackendCommandFailure { validator: usize, shard: usize },
    /// A component never passed its liveness probe in the allotted window.
    ReadinessTimeout { validator: usize, shard: usize },
    /// Some resources could not be released during teardown; the components
    /// that are still alive are listed, not silently dropped.
    PartialTeardownFailure { failed: Vec<(usize, usize)> },
    /// The referenced validator index is not in the tracked set.
    ValidatorNotFound { validator: usize },
}

/// The fixed description of each error kind.
pub open spec fn message_spec(e: OrchestratorError) -> Seq<char> {
    match e {
        OrchestratorError::ConfigGenerationFailure { .. } =>
            "configuration artifact could not be generated"@,
        OrchestratorError::BackendCommandFailure { .. } =>
            "backend command failed"@,
        OrchestratorError::ReadinessTimeout { .. } =>
            "component did not become ready in time"@,
        OrchestratorError::PartialTeardownFailure { .. } =>
            "some resources could not be released"@,
        OrchestratorError::ValidatorNotFound { .. } =>
            "validator not found"@,
    }
}

impl OrchestratorError {
    /// A short, fixed description of the error kind.
    pub fn message(&self) -> (r: &'static str)
        ensures
            r@ == message_spec(*self),
    {
        match self {
            OrchestratorError::ConfigGenerationFailure { .. } =>
                "configuration artifact could not be generated",
            OrchestratorError::BackendCommandFailure { .. } =>
                "backend command failed",
            OrchestratorError::ReadinessTimeout { .. } =>
                "component did not become ready in time",
            OrchestratorError::PartialTeardownFailure { .. } =>
                "some resources could not be released",
            OrchestratorError::ValidatorNotFound { .. } =>
                "validator not found",
        }
    }
}

} // verus!
