//! Observation of a running process: sampling, auditing, budgeting, and the bundle of it all.
//!
//! What overflows is dropped, and what is dropped is counted and marked. Secrets are blotted out
//! before anything is written.
use vstd::prelude::*;

pub mod audit;
pub mod budget;
pub mod bundle;
pub mod sampler;
pub mod self_test;
pub mod supervisor;

pub use audit::AuditEvent;
pub use audit::AuditHook;
pub use audit::AuditKind;
pub use budget::ObserveBudget;
pub use bundle::{bundle_path, verify_bundle, BundleWriter, VerifyResult};
pub use sampler::{OutOfProcessSampler, SampleEvent, StackSampler, SAMPLER_CHANNEL_CAP};
pub use supervisor::{BundleWatermark, CollectorFailure, DalDecision, ObserveSupervisor};

verus! {

/// A reading of the clocks.
#[derive(Debug, Clone, Copy, PartialEq, Eq, Structural)]
pub struct Clock {
    /// Unix time, in seconds.
    pub secs: u64,
    /// Nanoseconds of a clock that never goes back.
    pub mono_ns: u64,
    /// Unix time, in nanoseconds.
    pub wall_ns: u64,
}

} // verus!
