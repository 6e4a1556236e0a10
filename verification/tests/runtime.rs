use runtimo_core::runtime::runtime_locator::GeneratedLocation;
use runtimo_core::runtime::{
    resolve_locator, ArtifactRef, EvidenceFidelity, ProviderStatus, RepositoryIdentity,
    RunManifestV1, RunProcessKey, RuntimeFactExport, RuntimeFactFamily, RuntimeFactV1,
    RuntimeLocator, SymbolUidResolution, Target,
};

fn python_locator() -> RuntimeLocator {
    RuntimeLocator::Python {
        module: "runtimo".to_string(),
        qualname: "run".to_string(),
        file: "/src/runtimo.py".to_string(),
        line: 10,
    }
}

fn make_artifact() -> ArtifactRef {
    ArtifactRef {
        path: "/tmp/bundle.jsonl".to_string(),
        media: "application/json".to_string(),
        sha256: "a".repeat(64),
        provider: "tetragon".to_string(),
        pid: 1234,
        process_start_time: 1000,
    }
}

fn make_fact(family: RuntimeFactFamily) -> RuntimeFactV1 {
    RuntimeFactV1::new(
        family,
        "run-001".to_string(),
        RunProcessKey::new("run-001".to_string(), 1234, 1000),
        "tetragon".to_string(),
        make_artifact(),
        EvidenceFidelity::KernelObserved,
        1,
        1000,
        2000,
        "abc123".to_string(),
    )
}

fn make_manifest() -> RunManifestV1 {
    RunManifestV1::new(
        "run-001".to_string(),
        RepositoryIdentity {
            identity: "runtimo".to_string(),
            commit: "abc123".to_string(),
            tree_hash: "def456".to_string(),
            dirty: false,
            diff_hash: "ghi789".to_string(),
        },
        Target {
            executable: "/usr/bin/runtimo".to_string(),
            argv: vec!["--mode".to_string(), "test".to_string()],
            cwd: "/tmp".to_string(),
        },
    )
}

#[test]
fn evidence_fidelity_is_observed() {
    assert!(EvidenceFidelity::ExactRuntime.is_observed());
    assert!(EvidenceFidelity::KernelObserved.is_observed());
    assert!(EvidenceFidelity::Sampled.is_observed());
    assert!(!EvidenceFidelity::Derived.is_observed());
}

#[test]
fn evidence_fidelity_not_observed_not_false() {
    let derived = EvidenceFidelity::Derived;
    assert!(derived.is_derived());
}

#[test]
fn provider_status_name_and_version() {
    let status = ProviderStatus::Failed {
        provider: "otel".to_string(),
        version: "0.0.1".to_string(),
        mode: "sampled".to_string(),
        reason: "blocked".to_string(),
    };
    assert_eq!(status.provider_name(), "otel");
    assert_eq!(status.version(), "0.0.1");
    assert!(status.is_unavailable());
    assert!(!status.is_active());
}

#[test]
fn provider_states_are_told_apart() {
    let active = ProviderStatus::Active {
        provider: "tetragon".to_string(),
        version: "1.7.1".to_string(),
        mode: "monitor".to_string(),
    };
    assert!(active.is_active());
    assert!(!active.is_unavailable());
    assert_eq!(active.clone(), active);
    let degraded = ProviderStatus::Degraded {
        provider: "jfr".to_string(),
        version: "0.1.0".to_string(),
        mode: "exact".to_string(),
        reason: "high overhead".to_string(),
    };
    assert!(!degraded.is_active());
    assert!(!degraded.is_unavailable());
    assert_eq!(degraded.provider_name(), "jfr");
    let gone = ProviderStatus::Unavailable {
        provider: "otel".to_string(),
        version: "0".to_string(),
        reason: "blocked".to_string(),
    };
    assert!(gone.is_unavailable());
}

#[test]
fn run_process_key_same_pid_diff_start_time_distinct() {
    let key1 = RunProcessKey::new("run-001".to_string(), 1234, 1000);
    let key2 = RunProcessKey::new("run-001".to_string(), 1234, 2000);
    assert_ne!(key1, key2, "Same PID with different start_time must be distinct");
}

#[test]
fn run_process_key_same_pid_same_start_time_equal() {
    let key1 = RunProcessKey::new("run-001".to_string(), 1234, 1000);
    let key2 = RunProcessKey::new("run-001".to_string(), 1234, 1000);
    assert_eq!(key1, key2);
    assert_ne!(key1, RunProcessKey::new("run-002".to_string(), 1234, 1000));
}

#[test]
fn run_manifest_schema_version() {
    let manifest = make_manifest();
    assert_eq!(manifest.schema_version, "1");
    assert_eq!(manifest.run_id, "run-001");
    assert_eq!(manifest.target.argv, vec!["--mode", "test"]);
    assert_eq!(manifest.process.pid, 0);
    assert!(manifest.providers.is_empty());
    assert!(manifest.completeness.provider_status.is_empty());
}

#[test]
fn run_manifest_pid_never_alone() {
    let mut manifest = make_manifest();
    manifest.process.pid = 1234;
    manifest.process.process_start_time = 1000;
    assert!(
        manifest.process.process_start_time > 0,
        "PID must never be alone; process_start_time must be present"
    );
}

#[test]
fn export_new_has_zero_facts() {
    let export = RuntimeFactExport::new("run-001".to_string());
    assert_eq!(export.fact_count(), 0);
}

#[test]
fn export_add_fact_increases_count() {
    let mut export = RuntimeFactExport::new("run-001".to_string());
    export.add_fact(make_fact(RuntimeFactFamily::ObservedExec));
    assert_eq!(export.fact_count(), 1);
    assert_eq!(export.facts()[0].family, RuntimeFactFamily::ObservedExec);
}

#[test]
fn export_facts_are_distinct() {
    let mut export = RuntimeFactExport::new("run-001".to_string());
    export.add_fact(make_fact(RuntimeFactFamily::ObservedExec));
    export.add_fact(make_fact(RuntimeFactFamily::ObservedExit));
    export.add_fact(make_fact(RuntimeFactFamily::ObservedClassLoad));
    assert!(export.facts_are_distinct());
}

#[test]
fn export_observed_call_distinct() {
    let mut export = RuntimeFactExport::new("run-001".to_string());
    export.add_fact(make_fact(RuntimeFactFamily::ObservedCall));
    export.add_fact(make_fact(RuntimeFactFamily::ObservedCall));
    assert_eq!(export.fact_count(), 2);
    assert!(export.facts_are_distinct());
}

#[test]
fn resolve_locator_returns_unresolved_without_codegraph() {
    let locator = python_locator();
    let resolution = resolve_locator(&locator, false);
    assert!(
        matches!(resolution, SymbolUidResolution::Unresolved { .. }),
        "Should be Unresolved when Codegraph is unavailable"
    );
    assert_eq!(
        resolution,
        SymbolUidResolution::Unresolved {
            locator: python_locator(),
            reason: "Codegraph unavailable — export works without Codegraph; locator documented but not resolved".to_string(),
        }
    );
}

#[test]
fn resolve_locator_returns_resolved_with_codegraph() {
    let locator = python_locator();
    let resolution = resolve_locator(&locator, true);
    assert!(
        matches!(resolution, SymbolUidResolution::Resolved { .. }),
        "Should be Resolved when Codegraph is available"
    );
    match RuntimeFactExport::resolve_locator_for_test(&locator, true) {
        SymbolUidResolution::Resolved { symbol_uid } => {
            assert_eq!(symbol_uid.uid, "/src/runtimo.py:10:method");
            assert_eq!(symbol_uid.kind, "method");
            assert_eq!(symbol_uid.file, "/src/runtimo.py");
            assert_eq!(symbol_uid.line, 10);
        }
        _ => panic!("must resolve"),
    }
}

#[test]
fn first_resolution_stands() {
    let mut export = RuntimeFactExport::new("run-001".to_string());
    let first = matches!(
        export.resolve_locator(&python_locator()),
        SymbolUidResolution::Unresolved { .. }
    );
    assert!(first);
    export.set_codegraph_available(true);
    let again = matches!(
        export.resolve_locator(&python_locator()),
        SymbolUidResolution::Unresolved { .. }
    );
    assert!(again);
    let other = RuntimeLocator::JsTs {
        generated: GeneratedLocation { file: "/dist/b.js".to_string(), line: 1, column: 0 },
        original: GeneratedLocation { file: "/src/i.ts".to_string(), line: 5, column: 2 },
        function: "main".to_string(),
    };
    match export.resolve_locator(&other) {
        SymbolUidResolution::Resolved { symbol_uid } => {
            assert_eq!(symbol_uid.uid, "/dist/b.js:1:function");
        }
        _ => panic!("must resolve"),
    }
    assert_eq!(export.resolutions().len(), 2);
    assert_eq!(
        export.resolutions()[0].0,
        "Python { module: \"runtimo\", qualname: \"run\", file: \"/src/runtimo.py\", line: 10 }"
    );
}

#[test]
fn locators_are_shown_as_records() {
    let quoted = RuntimeLocator::Jvm {
        class: "a\"b".to_string(),
        method: "m".to_string(),
        descriptor: "()V".to_string(),
        file: "A.java".to_string(),
        line: 3,
    };
    assert_eq!(quoted.show(), format!("{:?}", quoted));
    let js = RuntimeLocator::JsTs {
        generated: GeneratedLocation { file: "b\n.js".to_string(), line: 1, column: 0 },
        original: GeneratedLocation { file: "i.ts".to_string(), line: 5, column: 2 },
        function: "main".to_string(),
    };
    assert_eq!(js.show(), format!("{:?}", js));
    assert_eq!(js.file(), Some("b\n.js"));
    assert_eq!(js.line(), Some(1));
    let native = RuntimeLocator::Native {
        binary: "/bin/x".to_string(),
        build_id: "1".to_string(),
        address_offset: "0x10".to_string(),
        symbol: "main".to_string(),
        file: "m.rs".to_string(),
        line: 4,
        column: 2,
    };
    assert_eq!(native.show(), format!("{:?}", native));
    let dotnet = RuntimeLocator::DotNet {
        assembly: "a".to_string(),
        declaring_type: "T".to_string(),
        method: "m".to_string(),
        file: "f.cs".to_string(),
        line: 9,
    };
    assert_eq!(
        dotnet.show(),
        "DotNet { assembly: \"a\", type_name: \"T\", method: \"m\", file: \"f.cs\", line: 9 }"
    );
}

#[test]
fn export_lines_are_each_ended() {
    let mut export = RuntimeFactExport::new("run-001".to_string());
    assert_eq!(export.jsonl_content(&Vec::new()), "\n");
    export.add_fact(make_fact(RuntimeFactFamily::ObservedExec));
    export.add_fact(make_fact(RuntimeFactFamily::ObservedExit));
    let lines = vec!["{\"a\":1}".to_string(), "{\"b\":2}".to_string()];
    assert_eq!(export.jsonl_content(&lines), "{\"a\":1}\n{\"b\":2}\n");
    assert_eq!(export.manifest_to_export().unwrap_err(), "Manifest not set");
    assert!(export.manifest().is_none());
    export.set_manifest(make_manifest());
    assert_eq!(export.manifest_to_export().unwrap().run_id, "run-001");
    assert_eq!(export.manifest().unwrap().schema_version, "1");
}

#[test]
fn export_paths_are_correct() {
    let (facts_path, manifest_path) = RuntimeFactExport::export_paths("/tmp/exports");
    assert_eq!(facts_path, "/tmp/exports/runtime-facts-v1.jsonl");
    assert_eq!(manifest_path, "/tmp/exports/run-manifest-v1.json");
}

#[test]
fn runtime_fact_first_seen_le_last_seen() {
    let fact = make_fact(RuntimeFactFamily::ObservedExec);
    assert!(fact.first_seen <= fact.last_seen);
}

#[test]
fn runtime_fact_is_observed() {
    let fact = make_fact(RuntimeFactFamily::ObservedExec);
    assert!(fact.is_observed());
}

#[test]
fn runtime_fact_provenance_fields() {
    let fact = RuntimeFactV1::new(
        RuntimeFactFamily::ObservedClassLoad,
        "run-001".to_string(),
        RunProcessKey::new("run-001".to_string(), 1234, 1000),
        "jfr".to_string(),
        make_artifact(),
        EvidenceFidelity::ExactRuntime,
        3,
        1000,
        3000,
        "def456".to_string(),
    );
    assert_eq!(fact.run_id, "run-001");
    assert_eq!(fact.provider, "jfr");
    assert_eq!(fact.fidelity, EvidenceFidelity::ExactRuntime);
    assert_eq!(fact.observations, 3);
}

#[test]
fn runtime_fact_pid_never_alone() {
    let fact = make_fact(RuntimeFactFamily::ObservedExec);
    assert!(
        fact.process_key.process_start_time > 0,
        "PID must never be alone; process_start_time must be present"
    );
}

#[test]
fn runtime_locator_file_and_line() {
    let locator = python_locator();
    assert_eq!(locator.file(), Some("/src/runtimo.py"));
    assert_eq!(locator.line(), Some(10));
}
