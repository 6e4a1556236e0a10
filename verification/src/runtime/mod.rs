//! Versioned records of a run: who observed what, of which process, and how well.
//!
//! What was not observed is not thereby false. A process number never stands alone: it comes with
//! the start time of the process.
use vstd::prelude::*;

pub mod evidence_fidelity;
pub mod provider_status;
pub mod run_manifest_v1;
pub mod run_process_key;
pub mod runtime_fact_export;
pub mod runtime_fact_v1;
pub mod runtime_locator;

pub use evidence_fidelity::EvidenceFidelity;
pub use provider_status::ProviderStatus;
pub use run_manifest_v1::RepositoryIdentity;
pub use run_manifest_v1::RunManifestV1;
pub use run_manifest_v1::Target;
pub use run_process_key::RunProcessKey;
pub use runtime_fact_export::resolve_locator;
pub use runtime_fact_export::RuntimeFactExport;
pub use runtime_fact_export::SymbolUID;
pub use runtime_fact_export::SymbolUidResolution;
pub use runtime_fact_v1::ArtifactRef;
pub use runtime_fact_v1::RuntimeFactFamily;
pub use runtime_fact_v1::RuntimeFactV1;
pub use runtime_locator::RuntimeLocator;

verus! {

} // verus!
