//! What a safety decision means for the runtime, and the record that is kept of it.
//!
//! A decision is evidence; what happens is the runtime's. A text that was not assessed is not
//! safe, and one that cannot be assessed is refused.
use vstd::prelude::*;
use vstd::string::*;

use crate::digest;
use crate::guard;
use crate::guard::DecisionProvenance;
use crate::guard::DesignAssuranceLevel;
use crate::guard::EscalationPolicy;
use crate::guard::SafetyDecision;
use crate::guard::SemanticPolicy;
use crate::guard::Synapse;
use crate::text;

verus! {

broadcast use vstd::string::group_string_axioms;

// ---------------------------------------------------------------------------
// Inputs
// ---------------------------------------------------------------------------

/// What an argument of a capability is.
#[derive(Debug, Clone, Copy, PartialEq, Eq, Structural)]
pub enum InputClass {
    /// An instruction in natural language.
    ControlInstruction,
    /// A command.
    CommandControl,
    /// A path.
    FilesystemLocator,
    /// An identifier.
    StructuredIdentifier,
    /// A URL.
    UrlLocator,
    SourceCode,
    /// Natural language that instructs nobody.
    PayloadProse,
    /// Anything else.
    OpaqueData,
}

impl InputClass {
    /// An agent could take the input for an instruction.
    pub open spec fn eligible(self) -> bool {
        self == InputClass::ControlInstruction || self == InputClass::PayloadProse || self
            == InputClass::SourceCode
    }

    /// The name of the class.
    pub open spec fn name(self) -> Seq<char> {
        match self {
            InputClass::ControlInstruction => "control_instruction"@,
            InputClass::CommandControl => "command_control"@,
            InputClass::FilesystemLocator => "filesystem_locator"@,
            InputClass::StructuredIdentifier => "structured_identifier"@,
            InputClass::UrlLocator => "url_locator"@,
            InputClass::SourceCode => "source_code"@,
            InputClass::PayloadProse => "payload_prose"@,
            InputClass::OpaqueData => "opaque_data"@,
        }
    }

    /// Whether what the input says is assessed.
    pub fn is_semantic_eligible(self) -> (r: bool)
        ensures
            r == self.eligible(),
    {
        matches!(
            self,
            InputClass::ControlInstruction | InputClass::PayloadProse | InputClass::SourceCode
        )
    }

    /// The name of the class.
    pub fn as_str(self) -> (r: &'static str)
        ensures
            r@ == self.name(),
    {
        match self {
            InputClass::ControlInstruction => "control_instruction",
            InputClass::CommandControl => "command_control",
            InputClass::FilesystemLocator => "filesystem_locator",
            InputClass::StructuredIdentifier => "structured_identifier",
            InputClass::UrlLocator => "url_locator",
            InputClass::SourceCode => "source_code",
            InputClass::PayloadProse => "payload_prose",
            InputClass::OpaqueData => "opaque_data",
        }
    }
}

/// How an assessment came about.
#[derive(Debug, Clone, Copy, PartialEq, Eq, Structural)]
pub enum AnalysisKind {
    /// The text was sifted.
    SemanticOneShot,
    /// Only the resources were looked at.
    ResourceOnly,
}

impl AnalysisKind {
    /// The name of the kind.
    pub open spec fn name(self) -> Seq<char> {
        match self {
            AnalysisKind::SemanticOneShot => "semantic_one_shot"@,
            AnalysisKind::ResourceOnly => "resource_only"@,
        }
    }

    /// The name of the kind.
    pub fn as_str(self) -> (r: &'static str)
        ensures
            r@ == self.name(),
    {
        match self {
            AnalysisKind::SemanticOneShot => "semantic_one_shot",
            AnalysisKind::ResourceOnly => "resource_only",
        }
    }
}

// ---------------------------------------------------------------------------
// Dispositions
// ---------------------------------------------------------------------------

/// What the runtime does.
#[derive(Debug, Clone, Copy, PartialEq, Eq, Structural)]
pub enum RuntimoDisposition {
    /// Execute.
    Allow,
    /// Execute, and log a warning.
    AllowWithWarning,
    /// Do not execute now: a higher level is to decide.
    EscalationRequired,
    /// Refuse.
    Reject,
    /// Refuse, with a fatal finding.
    Fatal,
}

impl RuntimoDisposition {
    /// The request is executed.
    pub open spec fn permits(self) -> bool {
        self == RuntimoDisposition::Allow || self == RuntimoDisposition::AllowWithWarning
    }

    /// The name of the disposition.
    pub open spec fn name(self) -> Seq<char> {
        match self {
            RuntimoDisposition::Allow => "allow"@,
            RuntimoDisposition::AllowWithWarning => "allow_with_warning"@,
            RuntimoDisposition::EscalationRequired => "escalation_required"@,
            RuntimoDisposition::Reject => "reject"@,
            RuntimoDisposition::Fatal => "fatal"@,
        }
    }

    /// Whether the request is executed.
    pub fn permits_execution(self) -> (r: bool)
        ensures
            r == self.permits(),
    {
        matches!(self, RuntimoDisposition::Allow | RuntimoDisposition::AllowWithWarning)
    }

    /// The name of the disposition.
    pub fn as_str(self) -> (r: &'static str)
        ensures
            r@ == self.name(),
    {
        match self {
            RuntimoDisposition::Allow => "allow",
            RuntimoDisposition::AllowWithWarning => "allow_with_warning",
            RuntimoDisposition::EscalationRequired => "escalation_required",
            RuntimoDisposition::Reject => "reject",
            RuntimoDisposition::Fatal => "fatal",
        }
    }
}

/// What the runtime does on a decision.
pub open spec fn disposition(d: SafetyDecision) -> RuntimoDisposition {
    match d {
        SafetyDecision::Proceed => RuntimoDisposition::Allow,
        SafetyDecision::Warn(_) => RuntimoDisposition::AllowWithWarning,
        SafetyDecision::Escalate { .. } => RuntimoDisposition::EscalationRequired,
        SafetyDecision::Halt(..) => RuntimoDisposition::Reject,
        SafetyDecision::Exit(_) => RuntimoDisposition::Fatal,
    }
}

/// What the runtime does on a decision.
pub fn disposition_for(decision: &SafetyDecision) -> (r: RuntimoDisposition)
    ensures
        r == disposition(*decision),
{
    match decision {
        SafetyDecision::Proceed => RuntimoDisposition::Allow,
        SafetyDecision::Warn(_) => RuntimoDisposition::AllowWithWarning,
        SafetyDecision::Escalate { .. } => RuntimoDisposition::EscalationRequired,
        SafetyDecision::Halt(..) => RuntimoDisposition::Reject,
        SafetyDecision::Exit(_) => RuntimoDisposition::Fatal,
    }
}

/// A request is executed exactly on a decision that does not block it, and decisions of different
/// kinds never come to the same.
pub proof fn law_dispositions_keep_decisions_apart(a: SafetyDecision, b: SafetyDecision)
    ensures
        disposition(a).permits() <==> a.rank() <= 1,
        disposition(a) == disposition(b) <==> a.rank() == b.rank(),
{
}

// ---------------------------------------------------------------------------
// Assessments
// ---------------------------------------------------------------------------

/// Why a text could not be assessed.
#[derive(Debug, PartialEq, Eq)]
pub enum AssessmentError {
    /// It is too long.
    WorkBudgetExhausted,
    AnalysisFailed(String),
}

impl AssessmentError {
    /// The text of the error.
    pub open spec fn text(self) -> Seq<char> {
        match self {
            AssessmentError::WorkBudgetExhausted => "sifter work budget exhausted"@,
            AssessmentError::AnalysisFailed(s) => "sifter analysis failed: "@ + s@,
        }
    }

    /// The text of the error.
    pub fn message(&self) -> (r: String)
        ensures
            r@ == self.text(),
    {
        match self {
            AssessmentError::WorkBudgetExhausted => "sifter work budget exhausted".to_owned(),
            AssessmentError::AnalysisFailed(s) => {
                let mut r = "sifter analysis failed: ".to_owned();
                r.append(s.as_str());
                r
            },
        }
    }
}

/// Version of the record.
pub const SAFETY_SCHEMA_VERSION: u32 = 1;

/// The sifter's bit in [`SafetyAssessmentV1::stages_executed`].
pub const STAGE_SIFT: u8 = 1;

/// The record of an assessment. It holds no input, only what is needed to find it again.
#[derive(Debug)]
pub struct SafetyAssessmentV1 {
    pub schema_version: u32,
    pub analysis_kind: AnalysisKind,
    pub input_class: InputClass,
    pub semantic_policy: String,
    pub dal: String,
    /// The label of the decision.
    pub llmosafe_status: String,
    pub llmosafe_severity: u8,
    pub llmosafe_blocking: bool,
    /// Where the decision came from, as far as that is known.
    pub provenance_label: Option<String>,
    pub provenance_reasons: Option<Vec<String>>,
    pub provenance_families: Option<Vec<String>>,
    pub provenance_hard_invariant: Option<bool>,
    /// Whether that fits the decision.
    pub provenance_consistent: Option<bool>,
    /// The runtime's own explanation.
    pub runtimo_explanation: Vec<String>,
    pub runtimo_disposition: RuntimoDisposition,
    /// The stages that ran, bit by bit.
    pub stages_executed: u8,
    pub oov_ratio: Option<u8>,
    pub detection_flags: Option<u8>,
    pub body_pressure: Option<u8>,
    pub no_evidence: Option<bool>,
    /// Fingerprint of the input.
    pub input_hash: String,
    pub field_id: String,
    /// Length of the input in bytes.
    pub input_len: usize,
    pub analysis_complete: bool,
}

impl SafetyAssessmentV1 {
    /// Nothing is said of where the decision came from.
    pub open spec fn without_provenance(self) -> bool {
        &&& self.provenance_label is None
        &&& self.provenance_reasons is None
        &&& self.provenance_families is None
        &&& self.provenance_hard_invariant is None
        &&& self.provenance_consistent is None
    }

    /// What every record says.
    pub open spec fn framed(
        self,
        class: InputClass,
        field: Seq<char>,
        policy: EscalationPolicy,
        pressure: Option<u8>,
    ) -> bool {
        &&& self.schema_version == SAFETY_SCHEMA_VERSION
        &&& self.input_class == class
        &&& self.field_id@ == field
        &&& self.semantic_policy@ == policy.semantic_policy.name()
        &&& self.dal@ == policy.dal.letter()
        &&& self.body_pressure == pressure
        &&& self.without_provenance()
        &&& self.no_evidence is None
        &&& self.analysis_complete
    }

    /// The record of a text in which the sifter found `found`.
    pub open spec fn of_text(
        self,
        policy: EscalationPolicy,
        observation: Seq<char>,
        field: Seq<char>,
        class: InputClass,
        pressure: u8,
        found: (u16, u16, bool, u8, u8),
        decision: SafetyDecision,
    ) -> bool {
        &&& self.framed(class, field, policy, Some(pressure))
        &&& self.analysis_kind == AnalysisKind::SemanticOneShot
        &&& decision.says(policy.ruling(found.0, found.1, found.2, pressure))
        &&& self.llmosafe_status@ == decision.label()
        &&& self.llmosafe_severity == decision.rank()
        &&& self.llmosafe_blocking == (decision.rank() >= 2)
        &&& text::texts(self.runtimo_explanation@) == seq!["one-shot sifter: "@ + decision.label()]
        &&& self.runtimo_disposition == disposition(decision)
        &&& self.stages_executed == STAGE_SIFT
        &&& self.oov_ratio == Some(found.3)
        &&& self.detection_flags == Some(found.4)
        &&& self.input_hash@ == digest::fingerprint(observation)
        &&& self.input_len == text::byte_length(observation)
    }

    /// The record of a text in which the sifter found `found`, with a decision that keeps to the
    /// level and the pressure.
    pub open spec fn assesses(
        self,
        policy: EscalationPolicy,
        observation: Seq<char>,
        field: Seq<char>,
        class: InputClass,
        pressure: u8,
        found: (u16, u16, bool, u8, u8),
    ) -> bool {
        exists|d: SafetyDecision|
            {
                &&& #[trigger] self.of_text(policy, observation, field, class, pressure, found, d)
                &&& d.bounded(policy, pressure)
            }
    }

    /// Whether it is known where the decision came from, and does not fit.
    pub fn has_provenance_mismatch(&self) -> (r: bool)
        ensures
            r == (self.provenance_consistent == Some(false)),
    {
        matches!(self.provenance_consistent, Some(false))
    }
}

/// The first sixteen hexadecimal digits of the digest of an input.
pub fn hash_input(input: &str) -> (r: String)
    ensures
        r@ == digest::fingerprint(input@),
        r@.len() == 16,
{
    digest::fingerprint_of(input)
}

/// Where a decision is said to come from fits the decision: the label is its own, nothing
/// mechanical is behind one that neither halts nor exits, and there is evidence for one that
/// blocks.
pub open spec fn fits(decision: SafetyDecision, provenance: DecisionProvenance) -> bool {
    &&& text::same_folded(provenance.decision_label@, decision.label())
    &&& provenance.hard_invariant ==> decision.rank() >= 3
    &&& decision.rank() >= 2 ==> provenance.evidence_families@.len() > 0
}

/// Whether where a decision is said to come from fits the decision.
pub fn provenance_consistent(decision: &SafetyDecision, provenance: &DecisionProvenance) -> (r:
    bool)
    ensures
        r == fits(*decision, *provenance),
{
    if !text::equal_folded(provenance.decision_label.as_str(), decision.status_label()) {
        return false;
    }
    if provenance.hard_invariant && matches!(
        decision,
        SafetyDecision::Proceed | SafetyDecision::Warn(_) | SafetyDecision::Escalate { .. }
    ) {
        return false;
    }
    if decision.is_blocking() && provenance.evidence_families.len() == 0 {
        return false;
    }
    true
}

/// The record of a text, or why there is none, once the sifter is done with it.
pub fn assessment_of(
    policy: &EscalationPolicy,
    sifted: Result<Synapse, String>,
    observation: &str,
    field_id: &str,
    input_class: InputClass,
    pressure: u8,
) -> (r: Result<SafetyAssessmentV1, AssessmentError>)
    ensures
        r is Ok <==> sifted is Ok,
        match r {
            Ok(a) => a.assesses(
                *policy,
                observation@,
                field_id@,
                input_class,
                pressure,
                (sifted->Ok_0).values(),
            ),
            Err(AssessmentError::WorkBudgetExhausted) => sifted->Err_0@ == "ResourceExhaustion"@,
            Err(AssessmentError::AnalysisFailed(m)) => m@ == sifted->Err_0@ && m@
                != "ResourceExhaustion"@,
        },
{
    let synapse = match sifted {
        Ok(s) => s,
        Err(e) => {
            if text::same(e.as_str(), "ResourceExhaustion") {
                return Err(AssessmentError::WorkBudgetExhausted);
            }
            return Err(AssessmentError::AnalysisFailed(e));
        },
    };
    let decision = policy.decide_with_pressure(
        synapse.raw_entropy,
        synapse.raw_surprise,
        synapse.has_bias,
        pressure,
    );
    let mut line = "one-shot sifter: ".to_owned();
    line.append(decision.status_label());
    let mut explanation: Vec<String> = Vec::new();
    explanation.push(line);
    let a = SafetyAssessmentV1 {
        schema_version: SAFETY_SCHEMA_VERSION,
        analysis_kind: AnalysisKind::SemanticOneShot,
        input_class,
        semantic_policy: policy.semantic_policy.as_str().to_owned(),
        dal: policy.dal.as_str().to_owned(),
        llmosafe_status: decision.status_label().to_owned(),
        llmosafe_severity: decision.severity(),
        llmosafe_blocking: decision.is_blocking(),
        provenance_label: None,
        provenance_reasons: None,
        provenance_families: None,
        provenance_hard_invariant: None,
        provenance_consistent: None,
        runtimo_explanation: explanation,
        runtimo_disposition: disposition_for(&decision),
        stages_executed: STAGE_SIFT,
        oov_ratio: Some(synapse.oov_ratio),
        detection_flags: Some(synapse.detection_flags),
        body_pressure: Some(pressure),
        no_evidence: None,
        input_hash: hash_input(observation),
        field_id: field_id.to_owned(),
        input_len: text::byte_len(observation),
        analysis_complete: true,
    };
    proof {
        assert(text::texts(a.runtimo_explanation@) =~= seq!["one-shot sifter: "@
            + decision.label()]);
        assert(a.of_text(
            *policy,
            observation@,
            field_id@,
            input_class,
            pressure,
            (sifted->Ok_0).values(),
            decision,
        ));
    }
    Ok(a)
}

/// The pressure that is given, or the ambient one.
pub open spec fn given_or(body_pressure: Option<u8>, ambient: u8) -> u8 {
    match body_pressure {
        Some(p) => p,
        None => ambient,
    }
}

/// Assesses the whole of a text under a pressure in percent, or under the ambient one where none
/// is given. A text of more words than the sifter takes is not assessed.
pub fn assess_one_shot(
    policy: &EscalationPolicy,
    observation: &str,
    field_id: &str,
    input_class: InputClass,
    body_pressure: Option<u8>,
    ambient: u8,
) -> (r: Result<SafetyAssessmentV1, AssessmentError>)
    ensures
        r is Ok <==> guard::token_count(observation@) <= guard::MAX_WORK_TOKENS,
        r matches Err(e) ==> e is WorkBudgetExhausted,
        r matches Ok(a) ==> a.assesses(
            *policy,
            observation@,
            field_id@,
            input_class,
            given_or(body_pressure, ambient),
            guard::sifted(observation@),
        ),
{
    let sifted = guard::sift(observation);
    let pressure = match body_pressure {
        Some(p) => p,
        None => ambient,
    };
    assessment_of(policy, sifted, observation, field_id, input_class, pressure)
}

/// The record of an input whose words are not assessed.
pub fn resource_only_assessment(
    input_class: InputClass,
    field_id: &str,
    semantic_policy: SemanticPolicy,
    dal: DesignAssuranceLevel,
    body_pressure: Option<u8>,
) -> (r: SafetyAssessmentV1)
    ensures
        r.framed(
            input_class,
            field_id@,
            (EscalationPolicy { dal, semantic_policy }),
            body_pressure,
        ),
        r.analysis_kind == AnalysisKind::ResourceOnly,
        r.llmosafe_status@ == "resource-only"@,
        r.llmosafe_severity == 0,
        !r.llmosafe_blocking,
        text::texts(r.runtimo_explanation@) == seq!["input class not semantic-eligible"@],
        r.runtimo_disposition == RuntimoDisposition::Allow,
        r.stages_executed == 0,
        r.oov_ratio is None,
        r.detection_flags is None,
        r.input_hash@ == "-"@,
        r.input_len == 0,
{
    let mut explanation: Vec<String> = Vec::new();
    explanation.push("input class not semantic-eligible".to_owned());
    assert(text::texts(explanation@) =~= seq!["input class not semantic-eligible"@]);
    SafetyAssessmentV1 {
        schema_version: SAFETY_SCHEMA_VERSION,
        analysis_kind: AnalysisKind::ResourceOnly,
        input_class,
        semantic_policy: semantic_policy.as_str().to_owned(),
        dal: dal.as_str().to_owned(),
        llmosafe_status: "resource-only".to_owned(),
        llmosafe_severity: 0,
        llmosafe_blocking: false,
        provenance_label: None,
        provenance_reasons: None,
        provenance_families: None,
        provenance_hard_invariant: None,
        provenance_consistent: None,
        runtimo_explanation: explanation,
        runtimo_disposition: RuntimoDisposition::Allow,
        stages_executed: 0,
        oov_ratio: None,
        detection_flags: None,
        body_pressure,
        no_evidence: None,
        input_hash: "-".to_owned(),
        field_id: field_id.to_owned(),
        input_len: 0,
        analysis_complete: true,
    }
}

/// No decision has the status of an input whose words are not assessed: not assessed is not safe.
pub proof fn law_not_assessed_is_not_safe(d: SafetyDecision)
    ensures
        d.label() != "resource-only"@,
{
    reveal_strlit("resource-only");
    reveal_strlit("safe");
    reveal_strlit("warning");
    reveal_strlit("escalate");
    reveal_strlit("halt");
    reveal_strlit("exit");
    assert(d.label().len() != "resource-only"@.len());
}

/// A record holds nothing of its input but a fingerprint, a length and what the sifter found: it is
/// as well the record of any other input that has these in common with it.
pub proof fn law_records_hold_no_input(
    a: SafetyAssessmentV1,
    policy: EscalationPolicy,
    observation: Seq<char>,
    other: Seq<char>,
    field: Seq<char>,
    class: InputClass,
    pressure: u8,
)
    requires
        a.assesses(policy, observation, field, class, pressure, guard::sifted(observation)),
        digest::fingerprint(other) == digest::fingerprint(observation),
        text::byte_length(other) == text::byte_length(observation),
        guard::sifted(other) == guard::sifted(observation),
    ensures
        a.assesses(policy, other, field, class, pressure, guard::sifted(other)),
{
    let found = guard::sifted(observation);
    let d = choose|d: SafetyDecision|
        {
            &&& #[trigger] a.of_text(policy, observation, field, class, pressure, found, d)
            &&& d.bounded(policy, pressure)
        };
    assert(a.of_text(policy, other, field, class, pressure, found, d));
}

/// A record of a text leaves a request unexecuted exactly where its decision blocks.
pub proof fn law_records_follow_decisions(
    a: SafetyAssessmentV1,
    policy: EscalationPolicy,
    observation: Seq<char>,
    field: Seq<char>,
    class: InputClass,
    pressure: u8,
    found: (u16, u16, bool, u8, u8),
    d: SafetyDecision,
)
    requires
        a.of_text(policy, observation, field, class, pressure, found, d),
    ensures
        a.runtimo_disposition.permits() <==> !a.llmosafe_blocking,
        a.llmosafe_blocking <==> a.llmosafe_severity >= 2,
{
}

// ---------------------------------------------------------------------------
// Arguments of capabilities
// ---------------------------------------------------------------------------

/// An argument of a capability.
#[derive(Debug, Clone, Copy)]
pub struct FieldSemantics {
    /// Its key.
    pub field: &'static str,
    pub class: InputClass,
    /// It steers the capability.
    pub is_control: bool,
    /// Its words are assessed.
    pub sifter_eligible: bool,
}

/// The capabilities that there are.
pub open spec fn registered(name: Seq<char>) -> bool {
    ||| name == "ShellExec"@
    ||| name == "FileWrite"@
    ||| name == "FileRead"@
    ||| name == "Delete"@
    ||| name == "Kill"@
    ||| name == "GitExec"@
    ||| name == "Undo"@
}

/// The arguments of a capability, by their keys and classes.
pub open spec fn field_table(name: Seq<char>) -> Seq<(Seq<char>, InputClass)> {
    if name == "ShellExec"@ {
        seq![
            ("cmd"@, InputClass::CommandControl),
            ("cwd"@, InputClass::FilesystemLocator),
            ("stdin"@, InputClass::PayloadProse),
        ]
    } else if name == "FileWrite"@ {
        seq![("content"@, InputClass::PayloadProse), ("path"@, InputClass::FilesystemLocator)]
    } else if name == "FileRead"@ || name == "Delete"@ {
        seq![("path"@, InputClass::FilesystemLocator)]
    } else if name == "Kill"@ {
        seq![("pid"@, InputClass::StructuredIdentifier)]
    } else if name == "GitExec"@ {
        seq![
            ("message"@, InputClass::PayloadProse),
            ("operation"@, InputClass::CommandControl),
            ("url"@, InputClass::UrlLocator),
            ("path"@, InputClass::FilesystemLocator),
            ("branch"@, InputClass::StructuredIdentifier),
            ("files"@, InputClass::FilesystemLocator),
            ("commit_sha"@, InputClass::StructuredIdentifier),
        ]
    } else if name == "Undo"@ {
        seq![
            ("job_id"@, InputClass::StructuredIdentifier),
            ("file"@, InputClass::FilesystemLocator),
        ]
    } else {
        Seq::empty()
    }
}

/// Arguments by their keys and classes.
pub open spec fn entries(fields: Seq<FieldSemantics>) -> Seq<(Seq<char>, InputClass)> {
    fields.map_values(|f: FieldSemantics| (f.field@, f.class))
}

/// An argument steers where it is a command, and its words are assessed where it is eligible.
pub open spec fn well_classed(f: FieldSemantics) -> bool {
    &&& f.is_control <==> f.class == InputClass::CommandControl
    &&& f.sifter_eligible <==> f.class.eligible()
}

fn classed(field: &'static str, class: InputClass) -> (r: FieldSemantics)
    ensures
        r.field == field,
        r.class == class,
        well_classed(r),
{
    FieldSemantics {
        field,
        class,
        is_control: matches!(class, InputClass::CommandControl),
        sifter_eligible: class.is_semantic_eligible(),
    }
}

/// The arguments of a capability; none of one that is not registered.
pub fn fields_for(cap_name: &str) -> (r: Vec<FieldSemantics>)
    ensures
        entries(r@) == field_table(cap_name@),
        forall|i: int| 0 <= i < r@.len() ==> well_classed(#[trigger] r@[i]),
{
    let mut r: Vec<FieldSemantics> = Vec::new();
    if text::same(cap_name, "ShellExec") {
        r.push(classed("cmd", InputClass::CommandControl));
        r.push(classed("cwd", InputClass::FilesystemLocator));
        r.push(classed("stdin", InputClass::PayloadProse));
    } else if text::same(cap_name, "FileWrite") {
        r.push(classed("content", InputClass::PayloadProse));
        r.push(classed("path", InputClass::FilesystemLocator));
    } else if text::same(cap_name, "FileRead") || text::same(cap_name, "Delete") {
        r.push(classed("path", InputClass::FilesystemLocator));
    } else if text::same(cap_name, "Kill") {
        r.push(classed("pid", InputClass::StructuredIdentifier));
    } else if text::same(cap_name, "GitExec") {
        r.push(classed("message", InputClass::PayloadProse));
        r.push(classed("operation", InputClass::CommandControl));
        r.push(classed("url", InputClass::UrlLocator));
        r.push(classed("path", InputClass::FilesystemLocator));
        r.push(classed("branch", InputClass::StructuredIdentifier));
        r.push(classed("files", InputClass::FilesystemLocator));
        r.push(classed("commit_sha", InputClass::StructuredIdentifier));
    } else if text::same(cap_name, "Undo") {
        r.push(classed("job_id", InputClass::StructuredIdentifier));
        r.push(classed("file", InputClass::FilesystemLocator));
    }
    assert(entries(r@) =~= field_table(cap_name@));
    r
}

/// The names of the capabilities that there are, in the order in which they are listed.
pub open spec fn capability_names() -> Seq<Seq<char>> {
    seq![
        "ShellExec"@,
        "FileWrite"@,
        "FileRead"@,
        "Delete"@,
        "Kill"@,
        "GitExec"@,
        "Undo"@,
    ]
}

/// The names of the capabilities that there are.
pub fn registered_capabilities() -> (r: Vec<&'static str>)
    ensures
        r@.map_values(|name: &'static str| name@) == capability_names(),
{
    let mut r: Vec<&'static str> = Vec::new();
    r.push("ShellExec");
    r.push("FileWrite");
    r.push("FileRead");
    r.push("Delete");
    r.push("Kill");
    r.push("GitExec");
    r.push("Undo");
    assert(r@.map_values(|name: &'static str| name@) =~= capability_names());
    r
}

/// Exactly the names that are listed are registered.
pub proof fn law_listed_are_registered(name: Seq<char>)
    ensures
        registered(name) <==> capability_names().contains(name),
{
    let all = capability_names();
    assert(all[0] == "ShellExec"@ && all[1] == "FileWrite"@ && all[2] == "FileRead"@ && all[3]
        == "Delete"@ && all[4] == "Kill"@ && all[5] == "GitExec"@ && all[6] == "Undo"@);
}

/// Exactly the registered capabilities have classified arguments.
pub proof fn law_registered_are_classified(name: Seq<char>)
    ensures
        registered(name) <==> field_table(name).len() > 0,
{
}


// ---------------------------------------------------------------------------
// What holds of records
// ---------------------------------------------------------------------------

/// What becomes of a request under each decision, and under which a request is executed.
pub proof fn law_dispositions(d: SafetyDecision)
    ensures
        disposition(d) == RuntimoDisposition::Allow <==> d is Proceed,
        disposition(d) == RuntimoDisposition::AllowWithWarning <==> d is Warn,
        disposition(d) == RuntimoDisposition::EscalationRequired <==> d is Escalate,
        disposition(d) == RuntimoDisposition::Reject <==> d is Halt,
        disposition(d) == RuntimoDisposition::Fatal <==> d is Exit,
        disposition(d).permits() <==> d is Proceed || d is Warn,
        RuntimoDisposition::Allow.name() == "allow"@,
        RuntimoDisposition::AllowWithWarning.name() == "allow_with_warning"@,
        RuntimoDisposition::EscalationRequired.name() == "escalation_required"@,
        RuntimoDisposition::Reject.name() == "reject"@,
        RuntimoDisposition::Fatal.name() == "fatal"@,
{
}

/// Words are assessed in instructions, in prose and in source code, and nowhere else: a command, a
/// path, an identifier, an address and opaque data are not prose.
pub proof fn law_classes(c: InputClass)
    ensures
        c.eligible() <==> c != InputClass::CommandControl && c != InputClass::FilesystemLocator && c
            != InputClass::StructuredIdentifier && c != InputClass::UrlLocator && c
            != InputClass::OpaqueData,
        InputClass::ControlInstruction.name() == "control_instruction"@,
        InputClass::CommandControl.name() == "command_control"@,
        InputClass::FilesystemLocator.name() == "filesystem_locator"@,
        InputClass::StructuredIdentifier.name() == "structured_identifier"@,
        InputClass::UrlLocator.name() == "url_locator"@,
        InputClass::SourceCode.name() == "source_code"@,
        InputClass::PayloadProse.name() == "payload_prose"@,
        InputClass::OpaqueData.name() == "opaque_data"@,
        AnalysisKind::SemanticOneShot.name() == "semantic_one_shot"@,
        AnalysisKind::ResourceOnly.name() == "resource_only"@,
{
}

/// The class of an argument goes by its key, whichever capability it belongs to: what a path is
/// for one it is for all.
pub proof fn law_keys_tell_classes(name: Seq<char>, i: int)
    requires
        0 <= i < field_table(name).len(),
    ensures
        ({
            let key = field_table(name)[i].0;
            let class = field_table(name)[i].1;
            &&& class == InputClass::PayloadProse <==> key == "stdin"@ || key == "content"@ || key
                == "message"@
            &&& class == InputClass::CommandControl <==> key == "cmd"@ || key == "operation"@
            &&& class == InputClass::FilesystemLocator <==> key == "cwd"@ || key == "path"@ || key
                == "files"@ || key == "file"@
            &&& class == InputClass::UrlLocator <==> key == "url"@
            &&& class == InputClass::StructuredIdentifier <==> key == "pid"@ || key == "branch"@
                || key == "commit_sha"@ || key == "job_id"@
        }),
{
    reveal_strlit("stdin");
    reveal_strlit("content");
    reveal_strlit("message");
    reveal_strlit("cmd");
    reveal_strlit("operation");
    reveal_strlit("cwd");
    reveal_strlit("path");
    reveal_strlit("files");
    reveal_strlit("file");
    reveal_strlit("url");
    reveal_strlit("pid");
    reveal_strlit("branch");
    reveal_strlit("commit_sha");
    reveal_strlit("job_id");
    assert("stdin"@[0] == 's' && "files"@[0] == 'f' && "content"@[0] == 'c' && "message"@[0] == 'm');
    assert("cmd"@[1] == 'm' && "cwd"@[1] == 'w' && "url"@[0] == 'u' && "pid"@[0] == 'p');
    assert("path"@[0] == 'p' && "file"@[0] == 'f' && "branch"@[0] == 'b' && "job_id"@[0] == 'j');
    assert("operation"@.len() == 9 && "commit_sha"@.len() == 10);
    assert("cmd"@[0] == 'c' && "cwd"@[0] == 'c');
    let key = field_table(name)[i].0;
    let class = field_table(name)[i].1;
    assert(class == InputClass::PayloadProse ==> key == "stdin"@ || key == "content"@ || key
        == "message"@);
    assert(class == InputClass::CommandControl ==> key == "cmd"@ || key == "operation"@);
    assert(class == InputClass::FilesystemLocator ==> key == "cwd"@ || key == "path"@ || key
        == "files"@ || key == "file"@);
    assert(class == InputClass::UrlLocator ==> key == "url"@);
    assert(class == InputClass::StructuredIdentifier ==> key == "pid"@ || key == "branch"@ || key
        == "commit_sha"@ || key == "job_id"@);
    assert(class == InputClass::PayloadProse || class == InputClass::CommandControl || class
        == InputClass::FilesystemLocator || class == InputClass::UrlLocator || class
        == InputClass::StructuredIdentifier);
}

/// The keys of a capability, in order.
pub open spec fn keys(name: Seq<char>) -> Seq<Seq<char>> {
    field_table(name).map_values(|e: (Seq<char>, InputClass)| e.0)
}

/// Which arguments each capability has.
pub proof fn law_keys_of_capabilities(name: Seq<char>)
    ensures
        name == "ShellExec"@ ==> keys(name) == seq!["cmd"@, "cwd"@, "stdin"@],
        name == "FileWrite"@ ==> keys(name) == seq!["content"@, "path"@],
        name == "FileRead"@ ==> keys(name) == seq!["path"@],
        name == "Delete"@ ==> keys(name) == seq!["path"@],
        name == "Kill"@ ==> keys(name) == seq!["pid"@],
        name == "GitExec"@ ==> keys(name) == seq![
            "message"@,
            "operation"@,
            "url"@,
            "path"@,
            "branch"@,
            "files"@,
            "commit_sha"@,
        ],
        name == "Undo"@ ==> keys(name) == seq!["job_id"@, "file"@],
        name != "ShellExec"@ && name != "FileWrite"@ && name != "FileRead"@ && name != "Delete"@
            && name != "Kill"@ && name != "GitExec"@ && name != "Undo"@ ==> keys(name)
            == Seq::<Seq<char>>::empty(),
{
    reveal_strlit("ShellExec");
    reveal_strlit("FileWrite");
    reveal_strlit("FileRead");
    reveal_strlit("Delete");
    reveal_strlit("Kill");
    reveal_strlit("GitExec");
    reveal_strlit("Undo");
    assert("ShellExec"@[0] == 'S' && "FileWrite"@[0] == 'F');
    assert("Kill"@[0] == 'K' && "Undo"@[0] == 'U');
    assert("Delete"@.len() == 6 && "GitExec"@.len() == 7 && "FileRead"@.len() == 8);
}

/// An argument steers exactly where it is a command, and its words are assessed exactly where its
/// class is one of words.
pub proof fn law_listed_fields(name: &str, r: Vec<FieldSemantics>, i: int)
    requires
        call_ensures(fields_for, (name,), r),
        0 <= i < r@.len(),
    ensures
        r@.len() == keys(name@).len(),
        r@[i].field@ == keys(name@)[i],
        r@[i].is_control <==> r@[i].class == InputClass::CommandControl,
        r@[i].sifter_eligible <==> r@[i].class == InputClass::ControlInstruction || r@[i].class
            == InputClass::PayloadProse || r@[i].class == InputClass::SourceCode,
{
    assert(entries(r@).len() == r@.len());
    assert(entries(r@)[i].0 == r@[i].field@);
}

/// A decision and what it rests on fit where they bear one name, whatever the case of its letters,
/// where what no one may waive halts, and where a decision that blocks has evidence.
pub proof fn law_fitting(d: SafetyDecision, p: DecisionProvenance)
    ensures
        fits(d, p) ==> p.decision_label@.len() == d.label().len(),
        p.hard_invariant && (d is Proceed || d is Warn || d is Escalate) ==> !fits(d, p),
        p.evidence_families@.len() == 0 && (d is Escalate || d is Halt || d is Exit) ==> !fits(
            d,
            p,
        ),
        p.decision_label@ == d.label() && p.evidence_families@.len() > 0 && !p.hard_invariant
            ==> fits(d, p),
        p.decision_label@ == d.label() && p.evidence_families@.len() > 0 && (d is Halt || d is Exit)
            ==> fits(d, p),
        p.decision_label@ == d.label() && !p.hard_invariant && (d is Proceed || d is Warn) ==> fits(
            d,
            p,
        ),
{
    text::law_same_but_for_case(p.decision_label@, d.label());
}

/// A record of a text says what was found in it and under what it was assessed, and what becomes of
/// the request follows from its gravity.
pub proof fn law_record_of_a_text(
    policy: EscalationPolicy,
    s: Synapse,
    observation: &str,
    field: &str,
    class: InputClass,
    pressure: u8,
    r: Result<SafetyAssessmentV1, AssessmentError>,
)
    requires
        call_ensures(
            assessment_of,
            (&policy, Ok::<Synapse, String>(s), observation, field, class, pressure),
            r,
        ),
    ensures
        r is Ok,
        ({
            let a = r->Ok_0;
            &&& a.schema_version == 1
            &&& a.analysis_kind == AnalysisKind::SemanticOneShot
            &&& a.input_class == class
            &&& a.field_id@ == field@
            &&& a.input_len == text::byte_length(observation@)
            &&& a.input_hash@ == digest::fingerprint(observation@)
            &&& a.oov_ratio == Some(s.oov_ratio)
            &&& a.detection_flags == Some(s.detection_flags)
            &&& a.body_pressure == Some(pressure)
            &&& a.stages_executed == 1
            &&& a.analysis_complete
            &&& a.no_evidence is None
            &&& a.provenance_label is None
            &&& a.provenance_consistent is None
            &&& a.llmosafe_severity <= 3
            &&& a.llmosafe_blocking <==> a.llmosafe_severity >= 2
            &&& a.runtimo_disposition == RuntimoDisposition::Allow <==> a.llmosafe_severity == 0
            &&& a.runtimo_disposition == RuntimoDisposition::AllowWithWarning
                <==> a.llmosafe_severity == 1
            &&& a.runtimo_disposition == RuntimoDisposition::EscalationRequired
                <==> a.llmosafe_severity == 2
            &&& a.runtimo_disposition == RuntimoDisposition::Reject <==> a.llmosafe_severity == 3
            &&& a.llmosafe_severity == 0 <==> a.llmosafe_status@ == "safe"@
            &&& a.llmosafe_severity == 1 <==> a.llmosafe_status@ == "warning"@
            &&& a.llmosafe_severity == 2 <==> a.llmosafe_status@ == "escalate"@
            &&& a.llmosafe_severity == 3 <==> a.llmosafe_status@ == "halt"@
            &&& a.runtimo_explanation@.len() == 1
            &&& a.runtimo_explanation@[0]@ == "one-shot sifter: "@ + a.llmosafe_status@
            &&& policy.dal == DesignAssuranceLevel::E ==> a.llmosafe_severity == 0
            &&& a.llmosafe_severity == 3 ==> policy.dal == DesignAssuranceLevel::A
            &&& a.dal@ == policy.dal.letter()
            &&& a.semantic_policy@ == policy.semantic_policy.name()
        }),
{
    let a = r->Ok_0;
    let d = choose|d: SafetyDecision|
        {
            &&& #[trigger] a.of_text(
                policy,
                observation@,
                field@,
                class,
                pressure,
                s.values(),
                d,
            )
            &&& d.bounded(policy, pressure)
        };
    guard::law_labels(d);
    assert(text::texts(a.runtimo_explanation@).len() == 1);
    assert(text::texts(a.runtimo_explanation@)[0] == a.runtimo_explanation@[0]@);
}

/// A text that is not sifted has no record. Where it is too long the error says so, else it hands
/// the sifter's words on.
pub proof fn law_no_record(
    policy: EscalationPolicy,
    why: String,
    observation: &str,
    field: &str,
    class: InputClass,
    pressure: u8,
    r: Result<SafetyAssessmentV1, AssessmentError>,
)
    requires
        call_ensures(
            assessment_of,
            (&policy, Err::<Synapse, String>(why), observation, field, class, pressure),
            r,
        ),
    ensures
        r is Err,
        (r->Err_0) is WorkBudgetExhausted <==> why@ == "ResourceExhaustion"@,
        why@ != "ResourceExhaustion"@ ==> (r->Err_0).text() == "sifter analysis failed: "@ + why@,
        why@ == "ResourceExhaustion"@ ==> (r->Err_0).text() == "sifter work budget exhausted"@,
{
}

/// A text is assessed under the pressure that is given, and under the ambient one only where none
/// is.
pub proof fn law_pressure_given(
    policy: EscalationPolicy,
    observation: &str,
    field: &str,
    class: InputClass,
    given: Option<u8>,
    ambient: u8,
    r: Result<SafetyAssessmentV1, AssessmentError>,
)
    requires
        call_ensures(assess_one_shot, (&policy, observation, field, class, given, ambient), r),
        r is Ok,
    ensures
        given is Some ==> (r->Ok_0).body_pressure == given,
        given is None ==> (r->Ok_0).body_pressure == Some(ambient),
{
}

/// The record of an input whose words are not assessed lets the request through and holds nothing
/// of the input.
pub proof fn law_unassessed(
    class: InputClass,
    field: &str,
    mode: SemanticPolicy,
    level: DesignAssuranceLevel,
    pressure: Option<u8>,
    r: SafetyAssessmentV1,
)
    requires
        call_ensures(resource_only_assessment, (class, field, mode, level, pressure), r),
    ensures
        r.schema_version == 1,
        r.analysis_kind == AnalysisKind::ResourceOnly,
        r.input_class == class,
        r.field_id@ == field@,
        r.semantic_policy@ == mode.name(),
        r.dal@ == level.letter(),
        r.body_pressure == pressure,
        r.llmosafe_status@ == "resource-only"@,
        r.llmosafe_severity == 0,
        !r.llmosafe_blocking,
        r.runtimo_disposition == RuntimoDisposition::Allow,
        r.stages_executed == 0,
        r.oov_ratio is None,
        r.detection_flags is None,
        r.input_hash@ == "-"@,
        r.input_len == 0,
        r.analysis_complete,
{
}

} // verus!
