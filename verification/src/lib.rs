//! A runtime for the capabilities of an agent: structured execution with resource limits, an event
//! log, and telemetry before and after, on machines that cannot be reset.
//!
//! Every module decides and computes on plain values. What reads files, environment variables,
//! clocks and processes stands outside, hands over what it read, and carries out what was decided.
//!
//! - [`executor`] takes a request through its stages and says what to do next.
//! - [`guard`] and [`safety`] judge texts and resources; [`validation`] judges paths.
//! - [`telemetry`], [`processes`] and [`monitor`] make sense of what a machine says of itself.
//! - [`observe`] samples and audits a process into a bundle that can be checked afterwards.
//! - [`oracle`] evaluates properties over the event log of [`wal`].
//! - [`runtime`] holds the records in which facts of a run are exchanged.
//! - [`config`], [`template`], [`session`], [`job`], [`schema`], [`error`], [`capability`] and
//!   [`format`] hold settings, their templates, sessions, jobs, argument shapes, errors, results and
//!   layouts.
//! - [`json`], [`text`], [`digest`] and [`utils`] are what the others are built on.
use vstd::prelude::*;

pub mod capability;
pub mod config;
pub mod digest;
pub mod error;
pub mod executor;
pub mod format;
pub mod guard;
pub mod job;
pub mod json;
pub mod monitor;
pub mod observe;
pub mod oracle;
pub mod processes;
pub mod runtime;
pub mod safety;
pub mod schema;
pub mod session;
pub mod telemetry;
pub mod template;
pub mod test_isolation;
pub mod text;
pub mod utils;
pub mod validation;
pub mod wal;

pub use capability::{Context, Output};
pub use config::RuntimoConfig;
pub use error::Error;
pub use guard::LlmoSafeGuard;
pub use job::{Job, JobId, JobState};
pub use monitor::HealthMonitor;
pub use oracle::{
    evaluate, evaluate_v2, Op, OracleError, Predicate, PropertySpec, PropertyVerdict, Quantifier,
    Verdict,
};
pub use processes::ProcessSnapshot;
pub use runtime::{
    resolve_locator, EvidenceFidelity, ProviderStatus, RunManifestV1, RunProcessKey,
    RuntimeFactExport, RuntimeFactV1, RuntimeLocator, SymbolUID, SymbolUidResolution,
};
pub use safety::{
    AnalysisKind, AssessmentError, FieldSemantics, InputClass, RuntimoDisposition,
    SafetyAssessmentV1, SAFETY_SCHEMA_VERSION,
};
pub use telemetry::Telemetry;
pub use validation::path::{validate_path, PathContext};
pub use wal::{WalEvent, WalEventType};

verus! {

} // verus!
