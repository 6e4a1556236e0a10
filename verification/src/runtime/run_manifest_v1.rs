//! What a run attests of itself.
use vstd::prelude::*;
use vstd::string::*;

use crate::json::Value;

verus! {

broadcast use vstd::string::group_string_axioms;

/// The state of a repository.
#[derive(Debug, PartialEq, Eq)]
pub struct RepositoryIdentity {
    pub identity: String,
    /// Commit hash.
    pub commit: String,
    pub tree_hash: String,
    /// Whether the working tree differs from the commit.
    pub dirty: bool,
    /// Hash of what differs.
    pub diff_hash: String,
}

/// What was run.
#[derive(Debug, PartialEq, Eq)]
pub struct Target {
    pub executable: String,
    pub argv: Vec<String>,
    /// Working directory.
    pub cwd: String,
}

/// A process. Its number comes with its start time.
#[derive(Debug, Clone, Copy, PartialEq, Eq, Structural)]
pub struct ProcessInfo {
    pub pid: u32,
    /// Field 22 of the `stat` file of the process.
    pub process_start_time: u64,
}

/// Where it was run.
#[derive(Debug, PartialEq, Eq)]
pub struct Environment {
    pub kernel: String,
    pub arch: String,
    pub runtimes: Vec<RuntimeVersion>,
}

/// A language runtime.
#[derive(Debug, PartialEq, Eq)]
pub struct RuntimeVersion {
    pub name: String,
    pub version: String,
}

/// A provider that took part.
#[derive(Debug)]
pub struct ProviderEntry {
    pub name: String,
    pub version: String,
    pub mode: String,
    pub config: Value,
    /// Hash of the binary, as hexadecimal digits.
    pub binary_hash: String,
}

/// When it was run, in Unix time.
#[derive(Debug, Clone, Copy, PartialEq, Eq, Structural)]
pub struct Timing {
    pub start_time: u64,
    pub end_time: u64,
}

/// A file that the run left.
#[derive(Debug, PartialEq, Eq)]
pub struct ArtifactRef {
    pub path: String,
    /// Media type.
    pub media: String,
    pub sha256: String,
    pub provider: String,
}

/// How complete the evidence is.
#[derive(Debug)]
pub struct Completeness {
    /// What each provider said of itself, by name.
    pub provider_status: Vec<(String, Value)>,
    pub watermark: String,
}

/// The attestation of a run. Of the environment it holds no variables.
#[derive(Debug)]
pub struct RunManifestV1 {
    /// Always `1`.
    pub schema_version: String,
    pub run_id: String,
    pub repository: RepositoryIdentity,
    pub target: Target,
    pub process: ProcessInfo,
    pub environment: Environment,
    pub providers: Vec<ProviderEntry>,
    pub timing: Timing,
    pub artifacts: Vec<ArtifactRef>,
    pub completeness: Completeness,
}

impl RunManifestV1 {
    /// The attestation of a run of which only the name, the repository and the target are known.
    pub fn new(run_id: String, repository: RepositoryIdentity, target: Target) -> (r: Self)
        ensures
            r.schema_version@ == "1"@,
            r.run_id == run_id,
            r.repository == repository,
            r.target == target,
            r.process == (ProcessInfo { pid: 0, process_start_time: 0 }),
            r.environment.kernel@ == ""@,
            r.environment.arch@ == ""@,
            r.environment.runtimes@.len() == 0,
            r.providers@.len() == 0,
            r.timing == (Timing { start_time: 0, end_time: 0 }),
            r.artifacts@.len() == 0,
            r.completeness.provider_status@.len() == 0,
            r.completeness.watermark@ == ""@,
    {
        RunManifestV1 {
            schema_version: "1".to_owned(),
            run_id,
            repository,
            target,
            process: ProcessInfo { pid: 0, process_start_time: 0 },
            environment: Environment {
                kernel: "".to_owned(),
                arch: "".to_owned(),
                runtimes: Vec::new(),
            },
            providers: Vec::new(),
            timing: Timing { start_time: 0, end_time: 0 },
            artifacts: Vec::new(),
            completeness: Completeness {
                provider_status: Vec::new(),
                watermark: "".to_owned(),
            },
        }
    }
}


/// A new manifest is one of the first version, names its run, repository and target, and holds
/// nothing else yet.
pub proof fn law_new_manifest(
    run_id: String,
    repository: RepositoryIdentity,
    target: Target,
    r: RunManifestV1,
)
    requires
        call_ensures(RunManifestV1::new, (run_id, repository, target), r),
    ensures
        r.schema_version@ == "1"@,
        r.run_id == run_id,
        r.repository == repository,
        r.target == target,
        r.providers@.len() == 0,
        r.artifacts@.len() == 0,
        r.process.pid == 0,
        r.process.process_start_time == 0,
        r.timing.start_time == 0,
        r.timing.end_time == 0,
{
}

} // verus!
