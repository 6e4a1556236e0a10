//! A fact observed of a run, and where it comes from.
use vstd::prelude::*;
use vstd::string::*;

use crate::json::Value;
use crate::runtime::evidence_fidelity::EvidenceFidelity;
use crate::runtime::run_process_key::RunProcessKey;

verus! {

broadcast use vstd::string::group_string_axioms;

/// A file that a provider left.
#[derive(Debug, PartialEq, Eq)]
pub struct ArtifactRef {
    pub path: String,
    /// Media type.
    pub media: String,
    pub sha256: String,
    pub provider: String,
    pub pid: u32,
    /// Field 22 of the `stat` file of the process.
    pub process_start_time: u64,
}

/// The kinds of facts. Each has a provider, but for calls, which none reports yet.
#[derive(Debug, Clone, Copy, PartialEq, Eq, Structural, Hash)]
pub enum RuntimeFactFamily {
    ObservedExec,
    ObservedExit,
    ObservedClassLoad,
    ObservedException,
    ObservedCall,
}

/// A fact of a run.
#[derive(Debug)]
pub struct RuntimeFactV1 {
    pub family: RuntimeFactFamily,
    pub run_id: String,
    pub process_key: RunProcessKey,
    pub provider: String,
    pub artifact: ArtifactRef,
    pub fidelity: EvidenceFidelity,
    /// How many times it was observed.
    pub observations: u64,
    /// Unix time of the first observation.
    pub first_seen: u64,
    /// Unix time of the last observation.
    pub last_seen: u64,
    /// Commit that ran.
    pub revision: String,
    /// More observations, by name.
    pub extra: Vec<(String, Value)>,
}

impl RuntimeFactV1 {
    /// The fact belongs to a named run of a named commit, and was not first seen after it was last
    /// seen.
    pub open spec fn well_formed(self) -> bool {
        &&& self.run_id@.len() > 0
        &&& self.revision@.len() > 0
        &&& self.first_seen <= self.last_seen
    }

    /// A fact of a named run of a named commit.
    pub fn new(
        family: RuntimeFactFamily,
        run_id: String,
        process_key: RunProcessKey,
        provider: String,
        artifact: ArtifactRef,
        fidelity: EvidenceFidelity,
        observations: u64,
        first_seen: u64,
        last_seen: u64,
        revision: String,
    ) -> (r: Self)
        requires
            run_id@.len() > 0,
            revision@.len() > 0,
            first_seen <= last_seen,
        ensures
            r.well_formed(),
            r.family == family,
            r.run_id == run_id,
            r.process_key == process_key,
            r.provider == provider,
            r.artifact == artifact,
            r.fidelity == fidelity,
            r.observations == observations,
            r.first_seen == first_seen,
            r.last_seen == last_seen,
            r.revision == revision,
            r.extra@.len() == 0,
    {
        RuntimeFactV1 {
            family,
            run_id,
            process_key,
            provider,
            artifact,
            fidelity,
            observations,
            first_seen,
            last_seen,
            revision,
            extra: Vec::new(),
        }
    }

    /// Whether the evidence for the fact was observed.
    pub fn is_observed(&self) -> (r: bool)
        ensures
            r == (self.fidelity != EvidenceFidelity::Derived),
    {
        self.fidelity.is_observed()
    }
}


/// A fact holds what it was made of, and says that it was observed unless it was derived.
pub proof fn law_new_fact(
    family: RuntimeFactFamily,
    run_id: String,
    process_key: RunProcessKey,
    provider: String,
    artifact: ArtifactRef,
    fidelity: EvidenceFidelity,
    observations: u64,
    first_seen: u64,
    last_seen: u64,
    revision: String,
    r: RuntimeFactV1,
    observed: bool,
)
    requires
        call_ensures(
            RuntimeFactV1::new,
            (
                family,
                run_id,
                process_key,
                provider,
                artifact,
                fidelity,
                observations,
                first_seen,
                last_seen,
                revision,
            ),
            r,
        ),
        call_ensures(RuntimeFactV1::is_observed, (&r,), observed),
    ensures
        r.family == family,
        r.run_id == run_id,
        r.process_key == process_key,
        r.provider == provider,
        r.artifact == artifact,
        r.fidelity == fidelity,
        r.observations == observations,
        r.first_seen == first_seen,
        r.last_seen == last_seen,
        r.revision == revision,
        r.extra@.len() == 0,
        observed <==> !(fidelity is Derived),
{
}

} // verus!
