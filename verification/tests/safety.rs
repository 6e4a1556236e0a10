use runtimo_core::guard::{
    DecisionProvenance, DesignAssuranceLevel, EscalationPolicy, EscalationReason, KernelError,
    SafetyDecision, SemanticPolicy,
};
use runtimo_core::json::{Object, Value};
use runtimo_core::safety::{
    assess_one_shot, assessment_of, disposition_for, fields_for, hash_input, provenance_consistent,
    registered_capabilities, resource_only_assessment, AnalysisKind, AssessmentError, InputClass,
    RuntimoDisposition,
};

#[test]
fn capability_coverage_is_exhaustive() {
    for cap in registered_capabilities() {
        let fields = fields_for(cap);
        assert!(!fields.is_empty(), "capability {cap} lacks input-semantics classification");
    }
    assert!(fields_for("Unknown").is_empty());
}

#[test]
fn sifter_only_provenance_is_absent() {
    let policy = EscalationPolicy::default()
        .with_semantic_policy(SemanticPolicy::Corroborate)
        .with_dal(DesignAssuranceLevel::A);
    let assessment = assess_one_shot(
        &policy,
        "Hello world",
        "content",
        InputClass::PayloadProse,
        Some(10),
        50,
    )
    .unwrap();
    assert!(
        assessment.provenance_label.is_none(),
        "provenance_label must be None on sifter-only path"
    );
    assert!(
        assessment.provenance_reasons.is_none(),
        "provenance_reasons must be None on sifter-only path"
    );
    assert!(
        assessment.provenance_families.is_none(),
        "provenance_families must be None on sifter-only path"
    );
    assert!(
        assessment.provenance_hard_invariant.is_none(),
        "provenance_hard_invariant must be None on sifter-only path"
    );
    assert!(
        assessment.provenance_consistent.is_none(),
        "provenance_consistent must be None when provenance is unavailable"
    );
    assert!(
        !assessment.runtimo_explanation.is_empty(),
        "runtimo_explanation must be present when provenance is absent"
    );
    assert!(!assessment.has_provenance_mismatch());
    assert_eq!(assessment.analysis_kind, AnalysisKind::SemanticOneShot);
    assert_eq!(assessment.stages_executed, 1);
    assert_eq!(assessment.body_pressure, Some(10));
}

#[test]
fn resource_only_never_semantic_safe() {
    let assessment = resource_only_assessment(
        InputClass::FilesystemLocator,
        "path",
        SemanticPolicy::Corroborate,
        DesignAssuranceLevel::A,
        Some(10),
    );
    assert_ne!(
        assessment.llmosafe_status, "safe",
        "resource-only must not claim semantic 'safe'"
    );
    assert_eq!(assessment.runtimo_disposition, RuntimoDisposition::Allow);
    assert!(assessment.provenance_label.is_none());
    assert!(assessment.provenance_consistent.is_none());
    assert_eq!(assessment.analysis_kind, AnalysisKind::ResourceOnly);
}

#[test]
fn all_capability_fields_are_classified() {
    fn fields_for_cap(cap: &str) -> Vec<&'static str> {
        fields_for(cap).iter().map(|fs| fs.field).collect()
    }

    let shell = fields_for_cap("ShellExec");
    for required in &["cmd", "cwd", "stdin"] {
        assert!(shell.contains(required), "ShellExec field '{required}' not classified");
    }

    let write = fields_for_cap("FileWrite");
    for required in &["path", "content"] {
        assert!(write.contains(required), "FileWrite field '{required}' not classified");
    }

    let read = fields_for_cap("FileRead");
    assert!(read.contains(&"path"), "FileRead field 'path' not classified");

    let delete = fields_for_cap("Delete");
    assert!(delete.contains(&"path"), "Delete field 'path' not classified");

    let kill = fields_for_cap("Kill");
    assert!(kill.contains(&"pid"), "Kill field 'pid' not classified");

    let git = fields_for_cap("GitExec");
    for required in &["operation", "url", "path", "branch", "message", "files", "commit_sha"] {
        assert!(git.contains(required), "GitExec field '{required}' not classified");
    }

    let undo = fields_for_cap("Undo");
    for required in &["job_id", "file"] {
        assert!(undo.contains(required), "Undo field '{required}' not classified");
    }
}

#[test]
fn resource_only_uses_present_field() {
    let fields = fields_for("ShellExec");
    let args = Value::Object(
        Object::new().with("cwd".to_string(), Value::from_text("/tmp")),
    );
    let (class, field) = fields
        .iter()
        .find(|fs| args.get(fs.field).is_some())
        .map_or((InputClass::OpaqueData, "-"), |fs| (fs.class, fs.field));
    assert_eq!(field, "cwd", "must use present field, not table-first");
    assert_eq!(class, InputClass::FilesystemLocator);

    let args2 = Value::Object(Object::new());
    let (class2, field2) = fields
        .iter()
        .find(|fs| args2.get(fs.field).is_some())
        .map_or((InputClass::OpaqueData, "-"), |fs| (fs.class, fs.field));
    assert_eq!(field2, "-");
    assert_eq!(class2, InputClass::OpaqueData);
}

#[test]
fn disposition_mapping_preserves_distinctions() {
    assert_eq!(disposition_for(&SafetyDecision::Proceed), RuntimoDisposition::Allow);
    assert_eq!(
        disposition_for(&SafetyDecision::Warn("x".to_string())),
        RuntimoDisposition::AllowWithWarning
    );
    assert_eq!(
        disposition_for(&SafetyDecision::Escalate {
            entropy: 0,
            reason: EscalationReason::BiasDetected,
            cooldown_ms: 5000,
        }),
        RuntimoDisposition::EscalationRequired
    );
    assert_eq!(
        disposition_for(&SafetyDecision::Halt(KernelError::CognitiveInstability, 30000)),
        RuntimoDisposition::Reject
    );
    assert_eq!(
        disposition_for(&SafetyDecision::Exit(KernelError::CognitiveInstability)),
        RuntimoDisposition::Fatal
    );
    assert!(RuntimoDisposition::AllowWithWarning.permits_execution());
    assert!(!RuntimoDisposition::EscalationRequired.permits_execution());
    assert_eq!(RuntimoDisposition::EscalationRequired.as_str(), "escalation_required");
}

#[test]
fn provenance_mismatch_detected() {
    let prov = DecisionProvenance {
        decision_label: "Halt".to_string(),
        reasons: vec!["x".to_string()],
        evidence_families: vec!["mechanical".to_string()],
        hard_invariant: true,
    };
    assert!(!provenance_consistent(&SafetyDecision::Proceed, &prov));
    let theirs = llmosafe::llmosafe_integration::DecisionProvenance::mechanical_halt("oom");
    let ok = DecisionProvenance {
        decision_label: theirs.decision_label,
        reasons: theirs.reasons,
        evidence_families: theirs.evidence_families,
        hard_invariant: theirs.hard_invariant,
    };
    assert!(provenance_consistent(
        &SafetyDecision::Halt(KernelError::ResourceExhaustion, 30000),
        &ok
    ));
}

#[test]
fn inputs_are_named_by_their_digest() {
    // The digest of the empty text begins so.
    assert_eq!(hash_input(""), "e3b0c44298fc1c14");
    assert_eq!(hash_input("abc"), "ba7816bf8f01cfea");
}

#[test]
fn what_was_not_sifted_is_not_assessed() {
    let policy = EscalationPolicy::default();
    let exhausted = assessment_of(
        &policy,
        Err("ResourceExhaustion".to_string()),
        "x",
        "content",
        InputClass::PayloadProse,
        10,
    );
    assert!(matches!(exhausted, Err(AssessmentError::WorkBudgetExhausted)));
    match assessment_of(
        &policy,
        Err("DepthExceeded".to_string()),
        "x",
        "content",
        InputClass::PayloadProse,
        10,
    ) {
        Err(e) => assert_eq!(e.message(), "sifter analysis failed: DepthExceeded"),
        Ok(_) => panic!("a failed analysis gives no record"),
    }
}

#[test]
fn classes_have_names() {
    assert_eq!(InputClass::UrlLocator.as_str(), "url_locator");
    assert!(InputClass::SourceCode.is_semantic_eligible());
    assert!(!InputClass::CommandControl.is_semantic_eligible());
    assert_eq!(AnalysisKind::ResourceOnly.as_str(), "resource_only");
}

#[test]
fn capabilities_are_listed_in_order() {
    assert_eq!(
        registered_capabilities(),
        vec!["ShellExec", "FileWrite", "FileRead", "Delete", "Kill", "GitExec", "Undo"]
    );
}
