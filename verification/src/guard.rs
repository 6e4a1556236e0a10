//! The resource and content guard: what the `llmosafe` crate measures and decides, and what
//! follows from it.
//!
//! The crate reads the machine, sifts text and decides. This module hands it plain values, takes
//! plain values back and draws the consequences.
use vstd::prelude::*;
use vstd::string::*;

use llmosafe::DesignAssuranceLevel as Level;
use llmosafe::EscalationPolicy as Policy;
use llmosafe::EscalationReason as Cause;
use llmosafe::ResourceGuard;
use llmosafe::SafetyDecision as Given;
use llmosafe::SemanticPolicy as Mode;

use crate::config::Environment;
use crate::config::RuntimoConfig;
use crate::json;
use crate::safety;
use crate::safety::AssessmentError;
use crate::safety::InputClass;
use crate::safety::SafetyAssessmentV1;
use crate::telemetry;
use crate::text;

verus! {

broadcast use vstd::string::group_string_axioms;

// ---------------------------------------------------------------------------
// Levels, policies, decisions
// ---------------------------------------------------------------------------

/// How much is at stake, from `A`, where every decision stands, to `E`, where none blocks.
#[derive(Debug, Clone, Copy, PartialEq, Eq, Structural)]
pub enum DesignAssuranceLevel {
    A,
    B,
    C,
    D,
    E,
}

impl DesignAssuranceLevel {
    /// The place of the level, from 0 for `A` to 4 for `E`.
    pub open spec fn place(self) -> int {
        match self {
            DesignAssuranceLevel::A => 0,
            DesignAssuranceLevel::B => 1,
            DesignAssuranceLevel::C => 2,
            DesignAssuranceLevel::D => 3,
            DesignAssuranceLevel::E => 4,
        }
    }

    /// The letter of the level.
    pub open spec fn letter(self) -> Seq<char> {
        match self {
            DesignAssuranceLevel::A => "A"@,
            DesignAssuranceLevel::B => "B"@,
            DesignAssuranceLevel::C => "C"@,
            DesignAssuranceLevel::D => "D"@,
            DesignAssuranceLevel::E => "E"@,
        }
    }

    /// The place of the level, from 0 for `A` to 4 for `E`.
    pub fn index(self) -> (r: usize)
        ensures
            r == self.place(),
    {
        match self {
            DesignAssuranceLevel::A => 0,
            DesignAssuranceLevel::B => 1,
            DesignAssuranceLevel::C => 2,
            DesignAssuranceLevel::D => 3,
            DesignAssuranceLevel::E => 4,
        }
    }

    /// The letter of the level.
    pub fn as_str(self) -> (r: &'static str)
        ensures
            r@ == self.letter(),
    {
        match self {
            DesignAssuranceLevel::A => "A",
            DesignAssuranceLevel::B => "B",
            DesignAssuranceLevel::C => "C",
            DesignAssuranceLevel::D => "D",
            DesignAssuranceLevel::E => "E",
        }
    }
}

/// How far what a text says may decide on its own.
#[derive(Debug, Clone, Copy, PartialEq, Eq, Structural)]
pub enum SemanticPolicy {
    /// It warns.
    Observe,
    /// It escalates, and halts with corroboration.
    Corroborate,
    /// It halts.
    Enforce,
}

impl SemanticPolicy {
    /// The place of the policy, from the most lenient.
    pub open spec fn place(self) -> int {
        match self {
            SemanticPolicy::Observe => 0,
            SemanticPolicy::Corroborate => 1,
            SemanticPolicy::Enforce => 2,
        }
    }

    /// The name of the policy.
    pub open spec fn name(self) -> Seq<char> {
        match self {
            SemanticPolicy::Observe => "observe"@,
            SemanticPolicy::Corroborate => "corroborate"@,
            SemanticPolicy::Enforce => "enforce"@,
        }
    }

    /// The place of the policy, from the most lenient.
    pub fn index(self) -> (r: usize)
        ensures
            r == self.place(),
    {
        match self {
            SemanticPolicy::Observe => 0,
            SemanticPolicy::Corroborate => 1,
            SemanticPolicy::Enforce => 2,
        }
    }

    /// The name of the policy.
    pub fn as_str(self) -> (r: &'static str)
        ensures
            r@ == self.name(),
    {
        match self {
            SemanticPolicy::Observe => "observe",
            SemanticPolicy::Corroborate => "corroborate",
            SemanticPolicy::Enforce => "enforce",
        }
    }
}

/// What the sifter and the policies work under.
#[derive(Debug, Clone, Copy, PartialEq, Eq, Structural)]
pub struct EscalationPolicy {
    pub dal: DesignAssuranceLevel,
    pub semantic_policy: SemanticPolicy,
}

impl EscalationPolicy {
    /// The policy with another level.
    pub fn with_dal(self, dal: DesignAssuranceLevel) -> (r: EscalationPolicy)
        ensures
            r == (EscalationPolicy { dal, ..self }),
    {
        EscalationPolicy { dal, semantic_policy: self.semantic_policy }
    }

    /// The policy with another authority of what a text says.
    pub fn with_semantic_policy(self, semantic_policy: SemanticPolicy) -> (r: EscalationPolicy)
        ensures
            r == (EscalationPolicy { semantic_policy, ..self }),
    {
        EscalationPolicy { dal: self.dal, semantic_policy }
    }
}

impl Default for EscalationPolicy {
    fn default() -> (r: Self)
        ensures
            r.dal == DesignAssuranceLevel::A,
            r.semantic_policy == SemanticPolicy::Corroborate,
    {
        EscalationPolicy {
            dal: DesignAssuranceLevel::A,
            semantic_policy: SemanticPolicy::Corroborate,
        }
    }
}

/// Why the guard stops something.
#[derive(Debug, Clone, Copy, PartialEq, Eq, Structural)]
pub enum KernelError {
    DepthExceeded,
    CognitiveInstability,
    BiasHaloDetected,
    HallucinationDetected,
    ResourceExhaustion,
    SelfMemoryExceeded,
    DeadlineExceeded,
}

impl KernelError {
    /// The name of the error.
    pub open spec fn name(self) -> Seq<char> {
        match self {
            KernelError::DepthExceeded => "DepthExceeded"@,
            KernelError::CognitiveInstability => "CognitiveInstability"@,
            KernelError::BiasHaloDetected => "BiasHaloDetected"@,
            KernelError::HallucinationDetected => "HallucinationDetected"@,
            KernelError::ResourceExhaustion => "ResourceExhaustion"@,
            KernelError::SelfMemoryExceeded => "SelfMemoryExceeded"@,
            KernelError::DeadlineExceeded => "DeadlineExceeded"@,
        }
    }

    /// The error that a code stands for.
    pub open spec fn coded(code: int) -> KernelError {
        if code == -1 {
            KernelError::DepthExceeded
        } else if code == -2 {
            KernelError::CognitiveInstability
        } else if code == -3 {
            KernelError::BiasHaloDetected
        } else if code == -4 {
            KernelError::HallucinationDetected
        } else if code == -6 {
            KernelError::SelfMemoryExceeded
        } else if code == -7 {
            KernelError::DeadlineExceeded
        } else {
            KernelError::ResourceExhaustion
        }
    }

    fn as_str(self) -> (r: &'static str)
        ensures
            r@ == self.name(),
    {
        match self {
            KernelError::DepthExceeded => "DepthExceeded",
            KernelError::CognitiveInstability => "CognitiveInstability",
            KernelError::BiasHaloDetected => "BiasHaloDetected",
            KernelError::HallucinationDetected => "HallucinationDetected",
            KernelError::ResourceExhaustion => "ResourceExhaustion",
            KernelError::SelfMemoryExceeded => "SelfMemoryExceeded",
            KernelError::DeadlineExceeded => "DeadlineExceeded",
        }
    }

    fn from_code(code: i32) -> (r: KernelError)
        ensures
            r == KernelError::coded(code as int),
    {
        match code {
            -1 => KernelError::DepthExceeded,
            -2 => KernelError::CognitiveInstability,
            -3 => KernelError::BiasHaloDetected,
            -4 => KernelError::HallucinationDetected,
            -6 => KernelError::SelfMemoryExceeded,
            -7 => KernelError::DeadlineExceeded,
            _ => KernelError::ResourceExhaustion,
        }
    }
}

/// Why something needs a decision at a higher level.
#[derive(Debug, PartialEq, Eq)]
pub enum EscalationReason {
    EntropyApproachingLimit,
    SurpriseElevated,
    BiasDetected,
    ResourcePressure,
    AnomalyDetected,
    Custom(String),
    StuckAgent,
    GoalDriftDetected,
    ConfidenceDecaying,
    AdversarialDetected,
}

impl EscalationReason {
    /// The reason as it is shown.
    pub open spec fn shown(self) -> Seq<char> {
        match self {
            EscalationReason::EntropyApproachingLimit => "EntropyApproachingLimit"@,
            EscalationReason::SurpriseElevated => "SurpriseElevated"@,
            EscalationReason::BiasDetected => "BiasDetected"@,
            EscalationReason::ResourcePressure => "ResourcePressure"@,
            EscalationReason::AnomalyDetected => "AnomalyDetected"@,
            EscalationReason::Custom(m) => "Custom("@ + json::debug_quoted(m@) + ")"@,
            EscalationReason::StuckAgent => "StuckAgent"@,
            EscalationReason::GoalDriftDetected => "GoalDriftDetected"@,
            EscalationReason::ConfidenceDecaying => "ConfidenceDecaying"@,
            EscalationReason::AdversarialDetected => "AdversarialDetected"@,
        }
    }

    /// The reason as it is shown.
    pub fn show(&self) -> (r: String)
        ensures
            r@ == self.shown(),
    {
        match self {
            EscalationReason::EntropyApproachingLimit => "EntropyApproachingLimit".to_owned(),
            EscalationReason::SurpriseElevated => "SurpriseElevated".to_owned(),
            EscalationReason::BiasDetected => "BiasDetected".to_owned(),
            EscalationReason::ResourcePressure => "ResourcePressure".to_owned(),
            EscalationReason::AnomalyDetected => "AnomalyDetected".to_owned(),
            EscalationReason::Custom(m) => {
                let mut r = "Custom(".to_owned();
                r.append(json::quote_debug(m.as_str()).as_str());
                r.append(")");
                r
            },
            EscalationReason::StuckAgent => "StuckAgent".to_owned(),
            EscalationReason::GoalDriftDetected => "GoalDriftDetected".to_owned(),
            EscalationReason::ConfidenceDecaying => "ConfidenceDecaying".to_owned(),
            EscalationReason::AdversarialDetected => "AdversarialDetected".to_owned(),
        }
    }

    /// The reason of a name, where there is one of that name.
    fn from_name(name: String) -> (r: EscalationReason)
        ensures
            r is Custom ==> r->Custom_0@ == name@,
            r !is Custom ==> r.shown() == name@,
            name@ == "EntropyApproachingLimit"@ || name@ == "SurpriseElevated"@ || name@
                == "BiasDetected"@ || name@ == "ResourcePressure"@ || name@ == "AnomalyDetected"@
                || name@ == "StuckAgent"@ || name@ == "GoalDriftDetected"@ || name@
                == "ConfidenceDecaying"@ || name@ == "AdversarialDetected"@ <==> r !is Custom,
    {
        if text::same(name.as_str(), "EntropyApproachingLimit") {
            EscalationReason::EntropyApproachingLimit
        } else if text::same(name.as_str(), "SurpriseElevated") {
            EscalationReason::SurpriseElevated
        } else if text::same(name.as_str(), "BiasDetected") {
            EscalationReason::BiasDetected
        } else if text::same(name.as_str(), "ResourcePressure") {
            EscalationReason::ResourcePressure
        } else if text::same(name.as_str(), "AnomalyDetected") {
            EscalationReason::AnomalyDetected
        } else if text::same(name.as_str(), "StuckAgent") {
            EscalationReason::StuckAgent
        } else if text::same(name.as_str(), "GoalDriftDetected") {
            EscalationReason::GoalDriftDetected
        } else if text::same(name.as_str(), "ConfidenceDecaying") {
            EscalationReason::ConfidenceDecaying
        } else if text::same(name.as_str(), "AdversarialDetected") {
            EscalationReason::AdversarialDetected
        } else {
            EscalationReason::Custom(name)
        }
    }
}

/// What is to happen with an input.
#[derive(Debug, PartialEq, Eq)]
pub enum SafetyDecision {
    Proceed,
    /// Proceed, and say why one might not.
    Warn(String),
    /// Leave it to a higher level.
    Escalate { entropy: u16, reason: EscalationReason, cooldown_ms: u32 },
    /// Refuse it, and wait so many milliseconds.
    Halt(KernelError, u32),
    /// Refuse it for good.
    Exit(KernelError),
}

impl SafetyDecision {
    /// From 0, to proceed, to 4, to exit.
    pub open spec fn rank(self) -> int {
        match self {
            SafetyDecision::Proceed => 0,
            SafetyDecision::Warn(_) => 1,
            SafetyDecision::Escalate { .. } => 2,
            SafetyDecision::Halt(..) => 3,
            SafetyDecision::Exit(_) => 4,
        }
    }

    /// The label of the decision.
    pub open spec fn label(self) -> Seq<char> {
        match self {
            SafetyDecision::Proceed => "safe"@,
            SafetyDecision::Warn(_) => "warning"@,
            SafetyDecision::Escalate { .. } => "escalate"@,
            SafetyDecision::Halt(..) => "halt"@,
            SafetyDecision::Exit(_) => "exit"@,
        }
    }

    /// The decision as it is shown.
    pub open spec fn shown(self) -> Seq<char> {
        match self {
            SafetyDecision::Proceed => "Proceed"@,
            SafetyDecision::Warn(m) => "Warn("@ + json::debug_quoted(m@) + ")"@,
            SafetyDecision::Escalate { entropy, reason, cooldown_ms } => "Escalate { entropy: "@
                + text::decimal(entropy as nat) + ", reason: "@ + reason.shown()
                + ", cooldown_ms: "@ + text::decimal(cooldown_ms as nat) + " }"@,
            SafetyDecision::Halt(e, ms) => "Halt("@ + e.name() + ", "@ + text::decimal(ms as nat)
                + ")"@,
            SafetyDecision::Exit(e) => "Exit("@ + e.name() + ")"@,
        }
    }

    /// From 0, to proceed, to 4, to exit.
    pub fn severity(&self) -> (r: u8)
        ensures
            r == self.rank(),
    {
        match self {
            SafetyDecision::Proceed => 0,
            SafetyDecision::Warn(_) => 1,
            SafetyDecision::Escalate { .. } => 2,
            SafetyDecision::Halt(..) => 3,
            SafetyDecision::Exit(_) => 4,
        }
    }

    /// Whether the input may be processed.
    pub fn can_proceed(&self) -> (r: bool)
        ensures
            r == (self.rank() <= 1),
    {
        matches!(self, SafetyDecision::Proceed | SafetyDecision::Warn(_))
    }

    /// Whether the input may not be processed.
    pub fn is_blocking(&self) -> (r: bool)
        ensures
            r == (self.rank() >= 2),
    {
        !self.can_proceed()
    }

    /// The label of the decision.
    pub fn status_label(&self) -> (r: &'static str)
        ensures
            r@ == self.label(),
    {
        match self {
            SafetyDecision::Proceed => "safe",
            SafetyDecision::Warn(_) => "warning",
            SafetyDecision::Escalate { .. } => "escalate",
            SafetyDecision::Halt(..) => "halt",
            SafetyDecision::Exit(_) => "exit",
        }
    }

    /// The decision as it is shown.
    pub fn show(&self) -> (r: String)
        ensures
            r@ == self.shown(),
    {
        match self {
            SafetyDecision::Proceed => "Proceed".to_owned(),
            SafetyDecision::Warn(m) => {
                let mut r = "Warn(".to_owned();
                r.append(json::quote_debug(m.as_str()).as_str());
                r.append(")");
                r
            },
            SafetyDecision::Escalate { entropy, reason, cooldown_ms } => {
                let mut r = "Escalate { entropy: ".to_owned();
                r.append(text::decimal_text(*entropy as u64).as_str());
                r.append(", reason: ");
                r.append(reason.show().as_str());
                r.append(", cooldown_ms: ");
                r.append(text::decimal_text(*cooldown_ms as u64).as_str());
                r.append(" }");
                r
            },
            SafetyDecision::Halt(e, ms) => {
                let mut r = "Halt(".to_owned();
                r.append(e.as_str());
                r.append(", ");
                r.append(text::decimal_text(*ms as u64).as_str());
                r.append(")");
                r
            },
            SafetyDecision::Exit(e) => {
                let mut r = "Exit(".to_owned();
                r.append(e.as_str());
                r.append(")");
                r
            },
        }
    }
}

/// Where a decision came from.
#[derive(Debug)]
pub struct DecisionProvenance {
    pub decision_label: String,
    pub reasons: Vec<String>,
    pub evidence_families: Vec<String>,
    /// The decision rests on something mechanical.
    pub hard_invariant: bool,
}

// ---------------------------------------------------------------------------
// What the crate decides
// ---------------------------------------------------------------------------

/// A decision of the crate in plain values.
enum Ruling {
    Proceed,
    Warn(String),
    /// Entropy, the name of the reason, milliseconds to wait.
    Escalate(u16, String, u32),
    /// Entropy, the words of the reason, milliseconds to wait.
    Custom(u16, String, u32),
    /// The code of the error, milliseconds to wait.
    Halt(i32, u32),
    Exit(i32),
}

impl Ruling {
    spec fn facts(self) -> (int, Seq<char>, int, int, int) {
        match self {
            Ruling::Proceed => (0, Seq::empty(), 0, 0, 0),
            Ruling::Warn(m) => (1, m@, 0, 0, 0),
            Ruling::Escalate(entropy, name, ms) => (2, name@, entropy as int, 0, ms as int),
            Ruling::Custom(entropy, words, ms) => (3, words@, entropy as int, 0, ms as int),
            Ruling::Halt(code, ms) => (4, Seq::empty(), 0, code as int, ms as int),
            Ruling::Exit(code) => (5, Seq::empty(), 0, code as int, 0),
        }
    }
}

/// What the crate decides under a level and a policy, by their places, on an entropy, a surprise,
/// a bias and a pressure: which kind of decision, its words, its entropy, the code of its error
/// and the milliseconds to wait.
pub uninterp spec fn ruled(
    level: int,
    mode: int,
    entropy: u16,
    surprise: u16,
    has_bias: bool,
    pressure: u8,
) -> (int, Seq<char>, int, int, int);

/// Decides, by `EscalationPolicy::decide_with_pressure` of the crate, with its default thresholds
/// and the pressure as `PressureLevel::from_percentage` classes it. The result is a function of
/// the arguments alone and is named [`ruled`].
///
/// Of it this is claimed: it is never to exit; at the level `B` and below it is not to halt, at
/// `C` and below it does not block, at `E` it is to proceed; and a pressure over 75 blocks at `A`
/// and `B` unless the policy only observes. By which thresholds it goes is left unsaid.
#[verifier::external_body]
fn rule(level: usize, mode: usize, entropy: u16, surprise: u16, has_bias: bool, pressure: u8) -> (r:
    Ruling)
    requires
        level < 5,
        mode < 3,
    ensures
        r.facts() == ruled(level as int, mode as int, entropy, surprise, has_bias, pressure),
        r !is Exit,
        level >= 1 ==> r !is Halt,
        level >= 2 ==> r is Proceed || r is Warn,
        level == 4 ==> r is Proceed,
        pressure > 75 && level <= 1 && mode >= 1 ==> r !is Proceed && r !is Warn,
{
    let policy = Policy::default()
        .with_dal([Level::A, Level::B, Level::C, Level::D, Level::E][level])
        .with_semantic_policy([Mode::Observe, Mode::Corroborate, Mode::Enforce][mode]);
    match policy.decide_with_pressure(entropy, surprise, has_bias, pressure.into()) {
        Given::Proceed => Ruling::Proceed,
        Given::Warn(m) => Ruling::Warn(m.to_owned()),
        Given::Escalate { entropy, reason: Cause::Custom(m), cooldown_ms } =>
            Ruling::Custom(entropy, m.to_owned(), cooldown_ms),
        Given::Escalate { entropy, reason, cooldown_ms } =>
            Ruling::Escalate(entropy, format!("{reason:?}"), cooldown_ms),
        Given::Halt(e, ms) => Ruling::Halt(e.into(), ms),
        Given::Exit(e) => Ruling::Exit(e.into()),
    }
}

impl SafetyDecision {
    /// The decision keeps to a level and a pressure: it is not to exit; at `B` and below not to
    /// halt, at `C` and below not to block, at `E` to proceed; and a pressure over 75 blocks at `A`
    /// and `B` unless what a text says only warns.
    pub open spec fn bounded(self, policy: EscalationPolicy, pressure: u8) -> bool {
        &&& self !is Exit
        &&& policy.dal != DesignAssuranceLevel::A ==> self !is Halt
        &&& policy.dal.place() >= 2 ==> self.rank() <= 1
        &&& policy.dal == DesignAssuranceLevel::E ==> self is Proceed
        &&& pressure > 75 && policy.dal.place() <= 1 && policy.semantic_policy
            != SemanticPolicy::Observe ==> self.rank() >= 2
    }

    /// The decision says what the crate decided.
    pub open spec fn says(self, ruling: (int, Seq<char>, int, int, int)) -> bool {
        match self {
            SafetyDecision::Proceed => ruling.0 == 0,
            SafetyDecision::Warn(m) => ruling.0 == 1 && m@ == ruling.1,
            SafetyDecision::Escalate { entropy, reason, cooldown_ms } => {
                &&& ruling.0 == 2 || ruling.0 == 3
                &&& entropy == ruling.2
                &&& cooldown_ms == ruling.4
                &&& ruling.0 == 3 ==> reason is Custom
                &&& match reason {
                    EscalationReason::Custom(words) => words@ == ruling.1,
                    _ => reason.shown() == ruling.1,
                }
            },
            SafetyDecision::Halt(e, ms) => {
                &&& ruling.0 == 4
                &&& e == KernelError::coded(ruling.3)
                &&& ms == ruling.4
            },
            SafetyDecision::Exit(e) => ruling.0 == 5 && e == KernelError::coded(ruling.3),
        }
    }
}

impl EscalationPolicy {
    /// What the crate decides under the policy.
    pub open spec fn ruling(self, entropy: u16, surprise: u16, has_bias: bool, pressure: u8) -> (
        int,
        Seq<char>,
        int,
        int,
        int,
    ) {
        ruled(self.dal.place(), self.semantic_policy.place(), entropy, surprise, has_bias, pressure)
    }

    /// Decides on an entropy, a surprise, a bias and a pressure in percent.
    pub fn decide_with_pressure(
        &self,
        entropy: u16,
        surprise: u16,
        has_bias: bool,
        pressure: u8,
    ) -> (r: SafetyDecision)
        ensures
            r.says(self.ruling(entropy, surprise, has_bias, pressure)),
            r.bounded(*self, pressure),
    {
        match rule(
            self.dal.index(),
            self.semantic_policy.index(),
            entropy,
            surprise,
            has_bias,
            pressure,
        ) {
            Ruling::Proceed => SafetyDecision::Proceed,
            Ruling::Warn(m) => SafetyDecision::Warn(m),
            Ruling::Escalate(entropy, name, cooldown_ms) => SafetyDecision::Escalate {
                entropy,
                reason: EscalationReason::from_name(name),
                cooldown_ms,
            },
            Ruling::Custom(entropy, words, cooldown_ms) => SafetyDecision::Escalate {
                entropy,
                reason: EscalationReason::Custom(words),
                cooldown_ms,
            },
            Ruling::Halt(code, ms) => SafetyDecision::Halt(KernelError::from_code(code), ms),
            Ruling::Exit(code) => SafetyDecision::Exit(KernelError::from_code(code)),
        }
    }
}

// ---------------------------------------------------------------------------
// What the crate finds in a text
// ---------------------------------------------------------------------------

/// What the sifter finds in a text.
#[derive(Debug, Clone, Copy, PartialEq, Eq, Structural)]
pub struct Synapse {
    pub raw_entropy: u16,
    pub raw_surprise: u16,
    pub has_bias: bool,
    /// Share of unknown words, from 0 to 255.
    pub oov_ratio: u8,
    /// Six flags.
    pub detection_flags: u8,
}

impl Synapse {
    /// The values, one by one.
    pub open spec fn values(self) -> (u16, u16, bool, u8, u8) {
        (
            self.raw_entropy,
            self.raw_surprise,
            self.has_bias,
            self.oov_ratio,
            self.detection_flags,
        )
    }
}

/// The most words that the sifter takes.
pub const MAX_WORK_TOKENS: usize = 100_000;

/// Space, tab, line feed, form feed or carriage return.
pub open spec fn is_ascii_space(c: char) -> bool {
    c == ' ' || c as u32 == 9 || c as u32 == 10 || c as u32 == 12 || c as u32 == 13
}

/// The number of words of a text that ASCII white space sets apart.
pub open spec fn token_count(s: Seq<char>) -> nat
    decreases s.len(),
{
    if s.len() == 0 {
        0
    } else if !is_ascii_space(s.last()) && (s.len() == 1 || is_ascii_space(s[s.len() - 2])) {
        token_count(s.drop_last()) + 1
    } else {
        token_count(s.drop_last())
    }
}

/// What the sifter finds in a text: entropy, surprise, bias, share of unknown words, flags.
pub uninterp spec fn sifted(text: Seq<char>) -> (u16, u16, bool, u8, u8);

/// Sifts a text, by `sift_text` of the crate. It fails on a text of more than
/// [`MAX_WORK_TOKENS`] words, with `ResourceExhaustion`, and on no other. What it finds is a
/// function of the text alone and is named [`sifted`]; the flags are six bits. How it weighs words
/// is left unsaid.
#[verifier::external_body]
pub(crate) fn sift(observation: &str) -> (r: Result<Synapse, String>)
    ensures
        r is Err <==> token_count(observation@) > MAX_WORK_TOKENS,
        r matches Err(e) ==> e@ == "ResourceExhaustion"@,
        r matches Ok(s) ==> s.values() == sifted(observation@) && s.detection_flags < 64,
{
    match llmosafe::sift_text(observation) {
        Ok((s, _)) => Ok(Synapse {
            raw_entropy: s.raw_entropy(),
            raw_surprise: s.raw_surprise(),
            has_bias: s.has_bias(),
            oov_ratio: s.oov_ratio(),
            detection_flags: s.detection_flags(),
        }),
        Err(e) => Err(format!("{:?}", e)),
    }
}

// ---------------------------------------------------------------------------
// What the crate measures
// ---------------------------------------------------------------------------

/// The crate's measure of the machine.
#[verifier::external_type_specification]
#[verifier::external_body]
pub struct ExResourceGuard(llmosafe::ResourceGuard);

/// The bytes of memory that a measure goes by.
pub uninterp spec fn ceiling(guard: ResourceGuard) -> nat;

/// Makes a measure that goes by so many bytes of memory, by `ResourceGuard::new`.
#[verifier::external_body]
fn measure_by(bytes: usize) -> (r: ResourceGuard)
    ensures
        ceiling(r) == bytes,
{
    ResourceGuard::new(bytes)
}

/// Reads the pressure in percent, by `ResourceGuard::pressure`. It depends on the machine; it is
/// never over 100, and 100 where there is no memory to go by.
#[verifier::external_body]
fn read_pressure(guard: &ResourceGuard) -> (r: u8)
    ensures
        r <= 100,
        ceiling(*guard) == 0 ==> r == 100,
{
    guard.pressure()
}

/// Lets the crate refuse, by `ResourceGuard::check`, and gives the text of its error. It depends
/// on the machine; the only error is that memory is exhausted, and it comes where there is no
/// memory to go by.
#[verifier::external_body]
fn read_refusal(guard: &ResourceGuard) -> (r: Option<String>)
    ensures
        r matches Some(m) ==> m@ == "RSS memory exceeds configured safety ceiling"@,
        ceiling(*guard) == 0 ==> r is Some,
{
    guard.check().err().map(|e| e.to_string())
}

/// Reads the share of memory in use in thousandths, by `ResourceGuard::raw_entropy`. It depends on
/// the machine; it is never over 1000, and 1000 where there is no memory to go by.
#[verifier::external_body]
fn read_entropy(guard: &ResourceGuard) -> (r: u16)
    ensures
        r <= 1000,
        ceiling(*guard) == 0 ==> r == 1000,
{
    guard.raw_entropy()
}

/// Reads the highest memory use of the process so far in bytes, by
/// `ResourceGuard::current_rss_bytes`. It depends on the machine.
#[verifier::external_body]
fn read_peak() -> (r: usize) {
    ResourceGuard::current_rss_bytes()
}

/// Reads the memory of the machine in bytes, by `ResourceGuard::host_memory_bytes`. It depends on
/// the machine.
#[verifier::external_body]
fn read_memory() -> (r: usize) {
    ResourceGuard::host_memory_bytes()
}

/// Reads the load of the processors in percent, by `ResourceGuard::system_cpu_load`. It depends on
/// the machine.
#[verifier::external_body]
fn read_load() -> (r: u8) {
    ResourceGuard::system_cpu_load()
}

/// A reading as a share of a hundred: what goes beyond counts as all of it.
pub fn as_percent(reading: u8) -> (r: u8)
    ensures
        r == (if reading > 100 {
            100
        } else {
            reading
        }),
{
    if reading > 100 {
        100
    } else {
        reading
    }
}

// ---------------------------------------------------------------------------
// The guard
// ---------------------------------------------------------------------------

/// The level of a letter; `A` of anything else.
pub open spec fn level_named(s: Seq<char>) -> DesignAssuranceLevel {
    if s == "B"@ {
        DesignAssuranceLevel::B
    } else if s == "C"@ {
        DesignAssuranceLevel::C
    } else if s == "D"@ {
        DesignAssuranceLevel::D
    } else if s == "E"@ {
        DesignAssuranceLevel::E
    } else {
        DesignAssuranceLevel::A
    }
}

/// The policy of a name in any case; the strictest of anything else.
pub open spec fn policy_named(s: Seq<char>) -> SemanticPolicy {
    if text::lowered(s) == "observe"@ {
        SemanticPolicy::Observe
    } else if text::lowered(s) == "corroborate"@ {
        SemanticPolicy::Corroborate
    } else {
        SemanticPolicy::Enforce
    }
}

/// The level of a letter. What is no level is taken for the strictest.
pub fn dal_from_str(s: &str) -> (r: DesignAssuranceLevel)
    ensures
        r == level_named(s@),
{
    if text::same(s, "B") {
        DesignAssuranceLevel::B
    } else if text::same(s, "C") {
        DesignAssuranceLevel::C
    } else if text::same(s, "D") {
        DesignAssuranceLevel::D
    } else if text::same(s, "E") {
        DesignAssuranceLevel::E
    } else {
        DesignAssuranceLevel::A
    }
}

/// The policy of a name. What is no policy is taken for the strictest.
pub fn semantic_policy_from_str(s: &str) -> (r: SemanticPolicy)
    ensures
        r == policy_named(s@),
{
    let low = text::to_lower(s);
    if text::same(low.as_str(), "observe") {
        SemanticPolicy::Observe
    } else if text::same(low.as_str(), "corroborate") {
        SemanticPolicy::Corroborate
    } else {
        SemanticPolicy::Enforce
    }
}

/// The pressure that a setting pins: a number up to 100.
pub open spec fn pinned_pressure(setting: Option<String>) -> Option<int> {
    match setting {
        Some(s) => match text::parsed(s@, 10, u8::MAX as int) {
            Some(p) => if p <= 100 {
                Some(p)
            } else {
                None
            },
            None => None,
        },
        None => None,
    }
}

/// The ceiling that a setting pins: a number above 0.
pub open spec fn pinned_ceiling(setting: Option<String>) -> Option<int> {
    match setting {
        Some(s) => match text::parsed(s@, 10, usize::MAX as int) {
            Some(b) => if b > 0 {
                Some(b)
            } else {
                None
            },
            None => None,
        },
        None => None,
    }
}

/// The pressure that a setting pins.
pub fn test_pressure_override(setting: &Option<String>) -> (r: Option<u8>)
    ensures
        match r {
            Some(p) => pinned_pressure(*setting) == Some(p as int),
            None => pinned_pressure(*setting) is None,
        },
{
    match setting {
        Some(s) => match text::parse_number(s.as_str(), 10, u8::MAX as u64) {
            Some(p) => if p <= 100 {
                Some(p as u8)
            } else {
                None
            },
            None => None,
        },
        None => None,
    }
}

fn ceiling_override(setting: &Option<String>) -> (r: Option<usize>)
    ensures
        match r {
            Some(b) => pinned_ceiling(*setting) == Some(b as int),
            None => pinned_ceiling(*setting) is None,
        },
{
    match setting {
        Some(s) => match text::parse_number(s.as_str(), 10, usize::MAX as u64) {
            Some(b) => if b > 0 {
                Some(b as usize)
            } else {
                None
            },
            None => None,
        },
        None => None,
    }
}

/// The refusal of a request under a measured pressure.
pub open spec fn pressure_text(pressure: int) -> Seq<char> {
    "Resource pressure at "@ + text::decimal(pressure as nat) + "% (ceiling: 80%)"@
}

/// The refusal of a request under a pinned pressure.
pub open spec fn pinned_text(pressure: int) -> Seq<char> {
    "Resource pressure at "@ + text::decimal(pressure as nat)
        + "% (ceiling: 80%, test override)"@
}

/// The refusal of a request by what was measured: by the pressure, or by the crate.
pub open spec fn measured_refusal(m: Seq<char>) -> bool {
    ||| exists|p: int| 80 < p <= 100 && m == #[trigger] pressure_text(p)
    ||| m == "Resource guard check failed: RSS memory exceeds configured safety ceiling"@
}

/// Why a request is refused, if it is: the pinned pressure decides where there is one, then the
/// measured one, then the crate.
pub open spec fn refusal(pinned: Option<u8>, pressure: u8, crate_says: Option<Seq<char>>) -> Option<
    Seq<char>,
> {
    match pinned {
        Some(p) => if p > 80 {
            Some(pinned_text(p as int))
        } else {
            None
        },
        None => if pressure > 80 {
            Some(pressure_text(pressure as int))
        } else {
            match crate_says {
                Some(m) => Some("Resource guard check failed: "@ + m),
                None => None,
            }
        },
    }
}

/// Whether a request is admitted: by the pinned pressure where there is one, else by the measured
/// one and by what the crate says.
pub fn admission(pinned: Option<u8>, pressure: u8, crate_says: Option<String>) -> (r: Result<
    (),
    String,
>)
    ensures
        match r {
            Ok(()) => refusal(pinned, pressure, telemetry::text_view(crate_says)) is None,
            Err(m) => refusal(pinned, pressure, telemetry::text_view(crate_says)) == Some(m@),
        },
{
    if let Some(p) = pinned {
        if p > 80 {
            let mut m = "Resource pressure at ".to_owned();
            m.append(text::decimal_text(p as u64).as_str());
            m.append("% (ceiling: 80%, test override)");
            return Err(m);
        }
        return Ok(());
    }
    if pressure > 80 {
        let mut m = "Resource pressure at ".to_owned();
        m.append(text::decimal_text(pressure as u64).as_str());
        m.append("% (ceiling: 80%)");
        return Err(m);
    }
    match crate_says {
        Some(e) => {
            let mut m = "Resource guard check failed: ".to_owned();
            m.append(e.as_str());
            Err(m)
        },
        None => Ok(()),
    }
}

/// How steady the crate found things.
#[derive(Debug, Clone, Copy, PartialEq, Eq, Structural)]
pub enum StabilityResult {
    Stable,
}

/// What a sifted text comes to.
#[derive(Debug)]
pub struct PipelineResult {
    pub decision: SafetyDecision,
    pub synapse: Synapse,
    pub stages_executed: u8,
    pub detection_flags: u8,
    pub oov_ratio: u8,
    pub entropy: u16,
    pub surprise: u16,
    pub monitor_state: StabilityResult,
    pub body_pressure: Option<u8>,
    pub step_count: usize,
    pub provenance: DecisionProvenance,
}

impl PipelineResult {
    /// What a text comes to in which the sifter found `found`, but for the decision.
    pub open spec fn of_text(
        self,
        policy: EscalationPolicy,
        found: (u16, u16, bool, u8, u8),
        pressure: u8,
    ) -> bool {
        &&& self.decision.says(policy.ruling(found.0, found.1, found.2, pressure))
        &&& self.synapse.values() == found
        &&& self.stages_executed == safety::STAGE_SIFT
        &&& self.detection_flags == found.4
        &&& self.oov_ratio == found.3
        &&& self.entropy == found.0
        &&& self.surprise == found.1
        &&& self.monitor_state == StabilityResult::Stable
        &&& self.body_pressure == Some(pressure)
        &&& self.step_count == 0
        &&& self.provenance.decision_label@ == "Escalate"@
        &&& text::texts(self.provenance.reasons@) == seq!["legacy shim"@]
        &&& self.provenance.evidence_families@.len() == 0
        &&& !self.provenance.hard_invariant
    }

}

/// What a text comes to, or why it comes to nothing, once the sifter is done with it.
pub fn pipeline_result(
    policy: &EscalationPolicy,
    sifted: Result<Synapse, String>,
    pressure: u8,
) -> (r: Result<PipelineResult, String>)
    ensures
        match (r, sifted) {
            (Ok(p), Ok(s)) => p.of_text(*policy, s.values(), pressure) && p.decision.bounded(
                *policy,
                pressure,
            ),
            (Err(m), Err(e)) => m@ == "sifter analysis failed: "@ + e@,
            _ => false,
        },
{
    match sifted {
        Ok(synapse) => {
            let decision = policy.decide_with_pressure(
                synapse.raw_entropy,
                synapse.raw_surprise,
                synapse.has_bias,
                pressure,
            );
            let mut reasons: Vec<String> = Vec::new();
            reasons.push("legacy shim".to_owned());
            assert(text::texts(reasons@) =~= seq!["legacy shim"@]);
            Ok(
                PipelineResult {
                    decision,
                    synapse,
                    stages_executed: safety::STAGE_SIFT,
                    detection_flags: synapse.detection_flags,
                    oov_ratio: synapse.oov_ratio,
                    entropy: synapse.raw_entropy,
                    surprise: synapse.raw_surprise,
                    monitor_state: StabilityResult::Stable,
                    body_pressure: Some(pressure),
                    step_count: 0,
                    provenance: DecisionProvenance {
                        decision_label: "Escalate".to_owned(),
                        reasons,
                        evidence_families: Vec::new(),
                        hard_invariant: false,
                    },
                },
            )
        },
        Err(e) => {
            let mut m = "sifter analysis failed: ".to_owned();
            m.append(e.as_str());
            Err(m)
        },
    }
}

/// A decision at a level: `A` keeps it, `B` has nothing halt, `C` has nothing halt or escalate, `D`
/// has nothing go beyond a warning, and `E` has everything proceed.
pub open spec fn softened(dal: DesignAssuranceLevel, d: SafetyDecision, r: SafetyDecision) -> bool {
    match dal {
        DesignAssuranceLevel::A => r == d,
        DesignAssuranceLevel::B => match d {
            SafetyDecision::Halt(_, ms) => match r {
                SafetyDecision::Escalate {
                    entropy,
                    reason: EscalationReason::Custom(m),
                    cooldown_ms,
                } => entropy == 0 && m@ == "DAL B: Halt downgraded"@ && cooldown_ms == ms,
                _ => false,
            },
            _ => r == d,
        },
        DesignAssuranceLevel::C => match d {
            SafetyDecision::Halt(..) | SafetyDecision::Escalate { .. } => match r {
                SafetyDecision::Warn(m) => m@ == "DAL C: Escalation downgraded"@,
                _ => false,
            },
            _ => r == d,
        },
        DesignAssuranceLevel::D => match d {
            SafetyDecision::Proceed | SafetyDecision::Warn(_) => r == d,
            _ => match r {
                SafetyDecision::Warn(m) => m@ == "DAL D: Capped at Warn"@,
                _ => false,
            },
        },
        DesignAssuranceLevel::E => r is Proceed,
    }
}

/// The decision that a level makes of a decision.
pub fn apply_dal_to_decision(dal: DesignAssuranceLevel, decision: SafetyDecision) -> (r:
    SafetyDecision)
    ensures
        softened(dal, decision, r),
{
    match dal {
        DesignAssuranceLevel::A => decision,
        DesignAssuranceLevel::B => match decision {
            SafetyDecision::Halt(_, cooldown_ms) => SafetyDecision::Escalate {
                entropy: 0,
                reason: EscalationReason::Custom("DAL B: Halt downgraded".to_owned()),
                cooldown_ms,
            },
            other => other,
        },
        DesignAssuranceLevel::C => match decision {
            SafetyDecision::Halt(..) | SafetyDecision::Escalate { .. } => SafetyDecision::Warn(
                "DAL C: Escalation downgraded".to_owned(),
            ),
            other => other,
        },
        DesignAssuranceLevel::D => match decision {
            SafetyDecision::Proceed => SafetyDecision::Proceed,
            SafetyDecision::Warn(m) => SafetyDecision::Warn(m),
            _ => SafetyDecision::Warn("DAL D: Capped at Warn".to_owned()),
        },
        DesignAssuranceLevel::E => SafetyDecision::Proceed,
    }
}

/// No level is stricter than one before it in the alphabet, and to apply one twice is to apply it
/// once.
pub proof fn law_levels_soften(
    strict: DesignAssuranceLevel,
    lenient: DesignAssuranceLevel,
    d: SafetyDecision,
    a: SafetyDecision,
    b: SafetyDecision,
)
    requires
        strict.place() <= lenient.place(),
        softened(strict, d, a),
        softened(lenient, d, b),
    ensures
        b.rank() <= a.rank() <= d.rank(),
        softened(strict, a, a),
{
}

/// The circuit breaker before an execution: a measure of the machine and a policy.
#[derive(Debug)]
pub struct LlmoSafeGuard {
    guard: ResourceGuard,
    policy: EscalationPolicy,
    pinned: Option<u8>,
}

impl LlmoSafeGuard {
    /// The policy in force.
    pub closed spec fn rules(self) -> EscalationPolicy {
        self.policy
    }

    /// The pressure that is taken for the measured one.
    pub closed spec fn pin(self) -> Option<u8> {
        self.pinned
    }

    /// The measure of the machine.
    pub closed spec fn measure(self) -> ResourceGuard {
        self.guard
    }

    /// A pressure that may be in force: the pinned one, or one that may be measured. Without a
    /// memory ceiling nothing but full pressure is measured.
    pub open spec fn allows(self, p: u8) -> bool {
        match self.pin() {
            Some(q) => p == q,
            None => p <= 100 && (ceiling(self.measure()) == 0 ==> p == 100),
        }
    }

    /// The guard follows the configuration and the environment.
    pub open spec fn configured(self, config: RuntimoConfig, env: Environment) -> bool {
        &&& self.rules().dal == level_named(config.dal_in_force(env))
        &&& self.rules().semantic_policy == policy_named(config.policy_in_force(env))
        &&& match self.pin() {
            Some(p) => pinned_pressure(env.test_pressure) == Some(p as int),
            None => pinned_pressure(env.test_pressure) is None,
        }
    }

    /// A guard with the level and the policy of the configuration. It goes by the memory ceiling
    /// of the environment where there is one, and by `domain` where there is none.
    pub fn new(domain: ResourceGuard, config: &RuntimoConfig, env: &Environment) -> (r:
        LlmoSafeGuard)
        ensures
            r.configured(*config, *env),
            match pinned_ceiling(env.memory_ceiling_bytes) {
                Some(b) => ceiling(r.measure()) == b,
                None => r.measure() == domain,
            },
    {
        let guard = match ceiling_override(&env.memory_ceiling_bytes) {
            Some(bytes) => measure_by(bytes),
            None => domain,
        };
        LlmoSafeGuard::with(guard, config, env)
    }

    /// A guard that goes by a memory ceiling.
    pub fn with_memory_ceiling_bytes(
        memory_ceiling_bytes: usize,
        config: &RuntimoConfig,
        env: &Environment,
    ) -> (r: LlmoSafeGuard)
        ensures
            r.configured(*config, *env),
            ceiling(r.measure()) == memory_ceiling_bytes,
    {
        LlmoSafeGuard::with(measure_by(memory_ceiling_bytes), config, env)
    }

    fn with(guard: ResourceGuard, config: &RuntimoConfig, env: &Environment) -> (r: LlmoSafeGuard)
        ensures
            r.configured(*config, *env),
            r.measure() == guard,
    {
        let policy = EscalationPolicy::default().with_dal(
            dal_from_str(config.get_dal(env).as_str()),
        ).with_semantic_policy(
            semantic_policy_from_str(config.get_semantic_policy(env).as_str()),
        );
        LlmoSafeGuard { guard, policy, pinned: test_pressure_override(&env.test_pressure) }
    }

    /// Whether the machine admits a request. Nothing is measured where the pressure is pinned, and
    /// the crate is not asked where the pressure is over 80 already.
    pub fn check(&self) -> (r: Result<(), String>)
        ensures
            match self.pin() {
                Some(p) => match r {
                    Ok(()) => p <= 80,
                    Err(m) => p > 80 && m@ == pinned_text(p as int),
                },
                None => match r {
                    Ok(()) => ceiling(self.measure()) > 0,
                    Err(m) => measured_refusal(m@),
                },
            },
    {
        if self.pinned.is_some() {
            return admission(self.pinned, 0, None);
        }
        let pressure = read_pressure(&self.guard);
        if pressure > 80 {
            let r = admission(None, pressure, None);
            proof {
                assert(r->Err_0@ == pressure_text(pressure as int));
            }
            return r;
        }
        let refused = read_refusal(&self.guard);
        proof {
            reveal_strlit("Resource guard check failed: ");
            reveal_strlit("RSS memory exceeds configured safety ceiling");
            reveal_strlit(
                "Resource guard check failed: RSS memory exceeds configured safety ceiling",
            );
            assert("Resource guard check failed: "@
                + "RSS memory exceeds configured safety ceiling"@
                =~= "Resource guard check failed: RSS memory exceeds configured safety ceiling"@);
        }
        admission(None, pressure, refused)
    }

    /// Calls a function if the machine admits it.
    pub fn execute<T, F: FnOnce() -> Result<T, String>>(&self, f: F) -> (r: Result<T, String>)
        requires
            f.requires(()),
        ensures
            match self.pin() {
                Some(p) => if p > 80 {
                    r matches Err(m) && m@ == pinned_text(p as int)
                } else {
                    f.ensures((), r)
                },
                None => {
                    ||| ceiling(self.measure()) > 0 && f.ensures((), r)
                    ||| r matches Err(m) && measured_refusal(m@)
                },
            },
    {
        match self.check() {
            Ok(()) => f(),
            Err(m) => Err(m),
        }
    }

    /// The highest memory use of the process so far, in bytes.
    pub fn current_rss_bytes(&self) -> usize {
        read_peak()
    }

    /// The highest memory use of the process so far, in bytes.
    pub fn peak_rss_bytes(&self) -> usize {
        read_peak()
    }

    /// The memory of the machine, in bytes.
    pub fn system_memory_bytes(&self) -> usize {
        read_memory()
    }

    /// The load of the processors, in percent: 100 at most.
    pub fn system_cpu_load(&self) -> (r: u8)
        ensures
            r <= 100,
    {
        as_percent(read_load())
    }

    /// The share of memory in use, in thousandths.
    pub fn raw_entropy(&self) -> (r: u16)
        ensures
            r <= 1000,
            ceiling(self.measure()) == 0 ==> r == 1000,
    {
        read_entropy(&self.guard)
    }

    /// The pressure on memory, in percent.
    pub fn pressure(&self) -> (r: u8)
        ensures
            r <= 100,
            ceiling(self.measure()) == 0 ==> r == 100,
    {
        read_pressure(&self.guard)
    }

    /// The pinned pressure, or the measured one.
    pub fn effective_pressure(&self) -> (r: u8)
        ensures
            self.allows(r),
    {
        match self.pinned {
            Some(p) => p,
            None => read_pressure(&self.guard),
        }
    }

    /// Goes by the setting for the pinned pressure as it now stands.
    pub fn repin(&mut self, setting: &Option<String>)
        ensures
            match final(self).pin() {
                Some(p) => pinned_pressure(*setting) == Some(p as int),
                None => pinned_pressure(*setting) is None,
            },
            final(self).rules() == old(self).rules(),
            final(self).measure() == old(self).measure(),
    {
        self.pinned = test_pressure_override(setting);
    }

    /// The guard with another level.
    pub fn with_dal(self, dal: DesignAssuranceLevel) -> (r: LlmoSafeGuard)
        ensures
            r.rules() == (EscalationPolicy { dal, ..self.rules() }),
            r.pin() == self.pin(),
            r.measure() == self.measure(),
    {
        LlmoSafeGuard { policy: self.policy.with_dal(dal), guard: self.guard, pinned: self.pinned }
    }

    /// The level in force.
    pub fn dal(&self) -> (r: DesignAssuranceLevel)
        ensures
            r == self.rules().dal,
    {
        self.policy.dal
    }

    /// The guard with another authority of what a text says.
    pub fn with_semantic_policy(self, sp: SemanticPolicy) -> (r: LlmoSafeGuard)
        ensures
            r.rules() == (EscalationPolicy { semantic_policy: sp, ..self.rules() }),
            r.pin() == self.pin(),
            r.measure() == self.measure(),
    {
        LlmoSafeGuard {
            policy: self.policy.with_semantic_policy(sp),
            guard: self.guard,
            pinned: self.pinned,
        }
    }

    /// The authority in force of what a text says.
    pub fn semantic_policy(&self) -> (r: SemanticPolicy)
        ensures
            r == self.rules().semantic_policy,
    {
        self.policy.semantic_policy
    }

    /// Assesses the whole of a text under the pressure in force. A text of more words than the
    /// sifter takes is not assessed.
    pub fn assess(&self, observation: &str, field_id: &str, input_class: InputClass) -> (r: Result<
        SafetyAssessmentV1,
        AssessmentError,
    >)
        ensures
            r is Ok <==> token_count(observation@) <= MAX_WORK_TOKENS,
            r matches Err(e) ==> e is WorkBudgetExhausted,
            r matches Ok(a) ==> {
                &&& a.body_pressure matches Some(p) && self.allows(p)
                &&& a.assesses(
                    self.rules(),
                    observation@,
                    field_id@,
                    input_class,
                    a.body_pressure->0,
                    sifted(observation@),
                )
            },
    {
        let pressure = self.effective_pressure();
        safety::assess_one_shot(
            &self.policy,
            observation,
            field_id,
            input_class,
            Some(pressure),
            pressure,
        )
    }

    /// Sifts a text and decides on it under the pressure in force. A text of more words than the
    /// sifter takes is refused.
    pub fn check_cognitive_pipeline(&self, _objective: &str, observation: &str) -> (r: Result<
        PipelineResult,
        String,
    >)
        ensures
            r is Ok <==> token_count(observation@) <= MAX_WORK_TOKENS,
            match r {
                Ok(p) => {
                    &&& p.body_pressure matches Some(q) && self.allows(q)
                    &&& p.of_text(self.rules(), sifted(observation@), p.body_pressure->0)
                    &&& p.decision.bounded(self.rules(), p.body_pressure->0)
                },
                Err(m) => m@ == "sifter analysis failed: "@ + "ResourceExhaustion"@,
            },
    {
        pipeline_result(&self.policy, sift(observation), self.effective_pressure())
    }

    /// The share of unknown words and the flags of a text in one number.
    pub fn combined_risk_bits(&self, synapse: &Synapse) -> (r: u16)
        requires
            synapse.detection_flags < 64,
        ensures
            r == synapse.oov_ratio * 64 + synapse.detection_flags,
    {
        synapse.oov_ratio as u16 * 64 + synapse.detection_flags as u16
    }

    /// The share of unknown words of a text.
    pub fn oov_ratio(&self, synapse: &Synapse) -> (r: u8)
        ensures
            r == synapse.oov_ratio,
    {
        synapse.oov_ratio
    }

    /// The flags of a text.
    pub fn detection_flags(&self, synapse: &Synapse) -> (r: u8)
        ensures
            r == synapse.detection_flags,
    {
        synapse.detection_flags
    }
}


// ---------------------------------------------------------------------------
// What holds of decisions
// ---------------------------------------------------------------------------

/// A decision is the graver the further it goes: to proceed and to warn let a request through, to
/// escalate, to halt and to exit block it, and of two decisions that are not of one kind one is
/// graver.
pub proof fn law_gravity(d: SafetyDecision, severity: u8, proceeds: bool, blocks: bool)
    requires
        call_ensures(SafetyDecision::severity, (&d,), severity),
        call_ensures(SafetyDecision::can_proceed, (&d,), proceeds),
        call_ensures(SafetyDecision::is_blocking, (&d,), blocks),
    ensures
        severity == 0 <==> d is Proceed,
        severity == 1 <==> d is Warn,
        severity == 2 <==> d is Escalate,
        severity == 3 <==> d is Halt,
        severity == 4 <==> d is Exit,
        proceeds <==> d is Proceed || d is Warn,
        blocks <==> d is Escalate || d is Halt || d is Exit,
{
}

/// Each kind of decision goes by a name of its own.
pub proof fn law_labels(d: SafetyDecision)
    ensures
        d is Proceed <==> d.label() == "safe"@,
        d is Warn <==> d.label() == "warning"@,
        d is Escalate <==> d.label() == "escalate"@,
        d is Halt <==> d.label() == "halt"@,
        d is Exit <==> d.label() == "exit"@,
{
    reveal_strlit("safe");
    reveal_strlit("warning");
    reveal_strlit("escalate");
    reveal_strlit("halt");
    reveal_strlit("exit");
    assert("safe"@[0] == 's' && "halt"@[0] == 'h' && "exit"@[0] == 'e');
    assert("safe"@ != "halt"@ && "safe"@ != "exit"@ && "halt"@ != "exit"@);
    assert("warning"@.len() == 7 && "escalate"@.len() == 8 && "exit"@.len() == 4);
}

/// A decision is shown by its kind and, in brackets, by all that it holds.
pub proof fn law_shown_decisions(
    m: String,
    entropy: u16,
    reason: EscalationReason,
    ms: u32,
    e: KernelError,
)
    ensures
        SafetyDecision::Proceed.shown() == "Proceed"@,
        SafetyDecision::Warn(m).shown() == "Warn("@ + json::debug_quoted(m@) + ")"@,
        (SafetyDecision::Escalate { entropy, reason, cooldown_ms: ms }).shown()
            == "Escalate { entropy: "@ + text::decimal(entropy as nat) + ", reason: "@
            + reason.shown() + ", cooldown_ms: "@ + text::decimal(ms as nat) + " }"@,
        SafetyDecision::Halt(e, ms).shown() == "Halt("@ + e.name() + ", "@ + text::decimal(
            ms as nat,
        ) + ")"@,
        SafetyDecision::Exit(e).shown() == "Exit("@ + e.name() + ")"@,
        EscalationReason::Custom(m).shown() == "Custom("@ + json::debug_quoted(m@) + ")"@,
        EscalationReason::StuckAgent.shown() == "StuckAgent"@,
        EscalationReason::BiasDetected.shown() == "BiasDetected"@,
        EscalationReason::AnomalyDetected.shown() == "AnomalyDetected"@,
        EscalationReason::ResourcePressure.shown() == "ResourcePressure"@,
        EscalationReason::SurpriseElevated.shown() == "SurpriseElevated"@,
        EscalationReason::GoalDriftDetected.shown() == "GoalDriftDetected"@,
        EscalationReason::ConfidenceDecaying.shown() == "ConfidenceDecaying"@,
        EscalationReason::AdversarialDetected.shown() == "AdversarialDetected"@,
        EscalationReason::EntropyApproachingLimit.shown() == "EntropyApproachingLimit"@,
{
}

/// An error of the kernel is known by its code, from -1 down to -7, and what has no such code is a
/// want of resources.
pub proof fn law_kernel_codes(code: int)
    ensures
        KernelError::coded(code) == KernelError::DepthExceeded <==> code == -1,
        KernelError::coded(code) == KernelError::CognitiveInstability <==> code == -2,
        KernelError::coded(code) == KernelError::BiasHaloDetected <==> code == -3,
        KernelError::coded(code) == KernelError::HallucinationDetected <==> code == -4,
        KernelError::coded(code) == KernelError::SelfMemoryExceeded <==> code == -6,
        KernelError::coded(code) == KernelError::DeadlineExceeded <==> code == -7,
        KernelError::DepthExceeded.name() == "DepthExceeded"@,
        KernelError::CognitiveInstability.name() == "CognitiveInstability"@,
        KernelError::BiasHaloDetected.name() == "BiasHaloDetected"@,
        KernelError::HallucinationDetected.name() == "HallucinationDetected"@,
        KernelError::ResourceExhaustion.name() == "ResourceExhaustion"@,
        KernelError::SelfMemoryExceeded.name() == "SelfMemoryExceeded"@,
        KernelError::DeadlineExceeded.name() == "DeadlineExceeded"@,
{
}

/// A level is read back from its letter, the level of any other text is the strictest, and the
/// levels stand in the order of the alphabet.
pub proof fn law_level_letters(d: DesignAssuranceLevel, s: Seq<char>)
    ensures
        level_named(d.letter()) == d,
        level_named(s) != DesignAssuranceLevel::A ==> s == level_named(s).letter(),
        d.letter().len() == 1,
        d.letter()[0] as int == 65 + d.place(),
        d.place() == 0 <==> d == DesignAssuranceLevel::A,
        d.place() == 4 <==> d == DesignAssuranceLevel::E,
        s.len() != 1 ==> level_named(s) == DesignAssuranceLevel::A,
{
    reveal_strlit("A");
    reveal_strlit("B");
    reveal_strlit("C");
    reveal_strlit("D");
    reveal_strlit("E");
    assert("A"@[0] == 'A' && "B"@[0] == 'B' && "C"@[0] == 'C' && "D"@[0] == 'D' && "E"@[0] == 'E');
}

/// A policy is read back from its name, in capitals or not, and the policy of any other text is to
/// enforce.
pub proof fn law_policy_names(p: SemanticPolicy, s: Seq<char>)
    ensures
        text::lowered(s) == "observe"@ <==> policy_named(s) == SemanticPolicy::Observe,
        text::lowered(s) == "corroborate"@ <==> policy_named(s) == SemanticPolicy::Corroborate,
        SemanticPolicy::Observe.name() == "observe"@,
        SemanticPolicy::Corroborate.name() == "corroborate"@,
        SemanticPolicy::Enforce.name() == "enforce"@,
        SemanticPolicy::Observe.place() == 0,
        SemanticPolicy::Corroborate.place() == 1,
        SemanticPolicy::Enforce.place() == 2,
{
    reveal_strlit("observe");
    reveal_strlit("corroborate");
    assert("observe"@.len() != "corroborate"@.len());
}

/// A pressure of up to 100 is pinned by its digits, and nothing else is: no greater number, and
/// nothing that is no number. A ceiling is any number but zero.
pub proof fn law_pins(s: String, n: nat, other: String, k: int)
    requires
        s@ == text::decimal(n),
        0 <= k < other@.len(),
        !('0' <= other@[k] <= '9'),
        k > 0 || other@[0] != '+',
    ensures
        n <= 100 ==> pinned_pressure(Some(s)) == Some(n as int),
        n > 100 ==> pinned_pressure(Some(s)) is None,
        pinned_pressure(Some(other)) is None,
        pinned_pressure(None) is None,
        n == 0 ==> pinned_ceiling(Some(s)) is None,
        0 < n <= usize::MAX ==> pinned_ceiling(Some(s)) == Some(n as int),
        n > usize::MAX ==> pinned_ceiling(Some(s)) is None,
        pinned_ceiling(Some(other)) is None,
        pinned_ceiling(None) is None,
{
    text::law_decimal(n, u8::MAX as int);
    text::law_decimal(n, usize::MAX as int);
    text::law_no_number(other@, k, 10, u8::MAX as int);
    text::law_no_number(other@, k, 10, usize::MAX as int);
}

/// A request is refused exactly over 80 percent, or where the crate itself refuses it; a pinned
/// pressure alone counts where there is one. A refusal names the pressure, or what the crate says.
pub proof fn law_admission_by_pressure(
    pinned: Option<u8>,
    pressure: u8,
    says: Option<String>,
    r: Result<(), String>,
)
    requires
        call_ensures(admission, (pinned, pressure, says), r),
    ensures
        pinned is Some ==> (r is Ok <==> pinned->0 <= 80),
        pinned is None ==> (r is Ok <==> pressure <= 80 && says is None),
        pinned is Some && pinned->0 > 80 ==> (r->Err_0)@ == "Resource pressure at "@
            + text::decimal(pinned->0 as nat) + "% (ceiling: 80%, test override)"@,
        pinned is None && pressure > 80 ==> (r->Err_0)@ == "Resource pressure at "@
            + text::decimal(pressure as nat) + "% (ceiling: 80%)"@,
        pinned is None && pressure <= 80 && says is Some ==> (r->Err_0)@
            == "Resource guard check failed: "@ + (says->0)@,
{
}

/// Who may do more is refused no more: a pressure that is admitted admits every lower one.
pub proof fn law_admission_is_monotone(p: u8, q: u8, says: Option<Seq<char>>)
    requires
        p <= q,
    ensures
        refusal(Some(q), q, says) is None ==> refusal(Some(p), p, says) is None,
        refusal(None, q, says) is None ==> refusal(None, p, says) is None,
{
}

/// What a level makes of a decision: `A` changes nothing, `B` turns a halt into an escalation that
/// lasts as long, `C` and `D` leave nothing that blocks, and under `E` everything proceeds. What a
/// level has nothing against it leaves as it is.
pub proof fn law_levels(d: SafetyDecision, level: DesignAssuranceLevel, r: SafetyDecision)
    requires
        call_ensures(apply_dal_to_decision, (level, d), r),
    ensures
        level == DesignAssuranceLevel::A ==> r == d,
        level == DesignAssuranceLevel::B && d !is Halt ==> r == d,
        level == DesignAssuranceLevel::B && d is Halt ==> r is Escalate && r->cooldown_ms == d->Halt_1
            && r->entropy == 0 && r->reason is Custom && (r->reason->Custom_0)@
            == "DAL B: Halt downgraded"@,
        level == DesignAssuranceLevel::C && (d is Halt || d is Escalate) ==> r is Warn
            && (r->Warn_0)@ == "DAL C: Escalation downgraded"@,
        level == DesignAssuranceLevel::C && !(d is Halt || d is Escalate) ==> r == d,
        level == DesignAssuranceLevel::D && (d is Halt || d is Escalate || d is Exit) ==> r is Warn
            && (r->Warn_0)@ == "DAL D: Capped at Warn"@,
        level == DesignAssuranceLevel::D && (d is Proceed || d is Warn) ==> r == d,
        level == DesignAssuranceLevel::E ==> r is Proceed,
{
}

/// The share of unknown words and the flags can both be told from the one number.
pub proof fn law_risk_bits(guard: LlmoSafeGuard, s: Synapse, r: u16)
    requires
        s.detection_flags < 64,
        call_ensures(LlmoSafeGuard::combined_risk_bits, (&guard, &s), r),
    ensures
        r / 64 == s.oov_ratio,
        r % 64 == s.detection_flags,
{
}

/// What a text comes to says of the text what the sifter found, and nothing else.
pub proof fn law_pipeline(
    policy: EscalationPolicy,
    s: Synapse,
    pressure: u8,
    r: Result<PipelineResult, String>,
)
    requires
        call_ensures(pipeline_result, (&policy, Ok::<Synapse, String>(s), pressure), r),
    ensures
        r is Ok,
        (r->Ok_0).entropy == s.raw_entropy,
        (r->Ok_0).surprise == s.raw_surprise,
        (r->Ok_0).oov_ratio == s.oov_ratio,
        (r->Ok_0).detection_flags == s.detection_flags,
        (r->Ok_0).synapse == s,
        (r->Ok_0).body_pressure == Some(pressure),
        (r->Ok_0).step_count == 0,
        (r->Ok_0).stages_executed == 1,
        (r->Ok_0).provenance.evidence_families@.len() == 0,
        policy.dal == DesignAssuranceLevel::E ==> (r->Ok_0).decision is Proceed,
        (r->Ok_0).decision is Halt ==> policy.dal == DesignAssuranceLevel::A,
        (r->Ok_0).decision is Escalate ==> policy.dal == DesignAssuranceLevel::A || policy.dal
            == DesignAssuranceLevel::B,
        (r->Ok_0).decision !is Exit,
        pressure > 75 && (policy.dal == DesignAssuranceLevel::A || policy.dal
            == DesignAssuranceLevel::B) && policy.semantic_policy != SemanticPolicy::Observe ==> (
        r->Ok_0).decision is Escalate || (r->Ok_0).decision is Halt,
{
}

/// A text that is not sifted comes to an error that says why.
pub proof fn law_unsifted(
    policy: EscalationPolicy,
    why: String,
    pressure: u8,
    r: Result<PipelineResult, String>,
)
    requires
        call_ensures(pipeline_result, (&policy, Err::<Synapse, String>(why), pressure), r),
    ensures
        r is Err,
        (r->Err_0)@ == "sifter analysis failed: "@ + why@,
{
}


/// To change one thing of a policy leaves the other.
pub proof fn law_policies(
    p: EscalationPolicy,
    dal: DesignAssuranceLevel,
    mode: SemanticPolicy,
    a: EscalationPolicy,
    b: EscalationPolicy,
)
    requires
        call_ensures(EscalationPolicy::with_dal, (p, dal), a),
        call_ensures(EscalationPolicy::with_semantic_policy, (p, mode), b),
    ensures
        a.dal == dal && a.semantic_policy == p.semantic_policy,
        b.semantic_policy == mode && b.dal == p.dal,
{
}

/// A guard that gets another level or policy keeps everything else.
pub proof fn law_changed_guards(
    g: LlmoSafeGuard,
    dal: DesignAssuranceLevel,
    mode: SemanticPolicy,
    a: LlmoSafeGuard,
    b: LlmoSafeGuard,
    level: DesignAssuranceLevel,
    policy: SemanticPolicy,
)
    requires
        call_ensures(LlmoSafeGuard::with_dal, (g, dal), a),
        call_ensures(LlmoSafeGuard::with_semantic_policy, (g, mode), b),
        call_ensures(LlmoSafeGuard::dal, (&a,), level),
        call_ensures(LlmoSafeGuard::semantic_policy, (&b,), policy),
    ensures
        level == dal,
        policy == mode,
        a.rules().semantic_policy == g.rules().semantic_policy,
        b.rules().dal == g.rules().dal,
        a.pin() == g.pin() && b.pin() == g.pin(),
        a.measure() == g.measure() && b.measure() == g.measure(),
{
}

/// A pinned pressure is the one in force, and alone decides whether a request is admitted.
pub proof fn law_pinned_guards(g: LlmoSafeGuard, p: u8, r: Result<(), String>)
    requires
        call_ensures(LlmoSafeGuard::effective_pressure, (&g,), p),
        call_ensures(LlmoSafeGuard::check, (&g,), r),
    ensures
        g.pin() is Some ==> p == g.pin()->0,
        g.pin() is None ==> p <= 100,
        g.pin() is Some ==> (r is Ok <==> g.pin()->0 <= 80),
        g.pin() is Some && r is Err ==> (r->Err_0)@ == "Resource pressure at "@ + text::decimal(
            g.pin()->0 as nat,
        ) + "% (ceiling: 80%, test override)"@,
        g.pin() is None && ceiling(g.measure()) == 0 ==> r is Err,
{
}

/// A pressure is pinned anew, and let go where the setting pins none.
pub proof fn law_repinned(
    before: LlmoSafeGuard,
    after: LlmoSafeGuard,
    s: Option<String>,
    n: nat,
)
    requires
        exists|g: &mut LlmoSafeGuard|
            *g == before && *final(g) == after && #[trigger] call_ensures(
                LlmoSafeGuard::repin,
                (g, &s),
                (),
            ),
    ensures
        s is None ==> after.pin() is None,
        s is Some && (s->0)@ == text::decimal(n) && n <= 100 ==> after.pin() is Some
            && after.pin()->0 == n,
        s is Some && (s->0)@ == text::decimal(n) && n > 100 ==> after.pin() is None,
        after.rules() == before.rules(),
        after.measure() == before.measure(),
{
    text::law_decimal(n, u8::MAX as int);
}

/// A new guard takes its level and its policy from the configuration in force, and a pinned
/// pressure and a memory ceiling from the environment.
pub proof fn law_new_guards(
    domain: ResourceGuard,
    config: RuntimoConfig,
    env: Environment,
    bytes: usize,
    a: LlmoSafeGuard,
    b: LlmoSafeGuard,
)
    requires
        call_ensures(LlmoSafeGuard::new, (domain, &config, &env), a),
        call_ensures(LlmoSafeGuard::with_memory_ceiling_bytes, (bytes, &config, &env), b),
    ensures
        a.rules().dal == level_named(config.dal_in_force(env)),
        b.rules().dal == level_named(config.dal_in_force(env)),
        a.rules().semantic_policy == policy_named(config.policy_in_force(env)),
        b.rules().semantic_policy == policy_named(config.policy_in_force(env)),
        ceiling(b.measure()) == bytes,
        env.memory_ceiling_bytes is None ==> a.measure() == domain,
        env.test_pressure is None ==> a.pin() is None && b.pin() is None,
{
}

/// A function is called exactly where the machine admits it; with a pinned pressure over 80 it is
/// not, and the refusal is answered.
pub proof fn law_guarded_calls<T, F: FnOnce() -> Result<T, String>>(
    g: LlmoSafeGuard,
    f: F,
    r: Result<T, String>,
)
    requires
        call_ensures(LlmoSafeGuard::execute::<T, F>, (&g, f), r),
    ensures
        g.pin() is Some && g.pin()->0 <= 80 ==> f.ensures((), r),
        g.pin() is Some && g.pin()->0 > 80 ==> r is Err && (r->Err_0)@ == "Resource pressure at "@
            + text::decimal(g.pin()->0 as nat) + "% (ceiling: 80%, test override)"@,
        g.pin() is None && r is Ok ==> f.ensures((), r),
{
}

/// A text is assessed under the pressure in force, by the level and the policy of the guard, as long
/// as it has no more than a hundred thousand words.
pub proof fn law_guarded_assessment(
    g: LlmoSafeGuard,
    observation: &str,
    field: &str,
    class: InputClass,
    r: Result<SafetyAssessmentV1, AssessmentError>,
    objective: &str,
    p: Result<PipelineResult, String>,
)
    requires
        call_ensures(LlmoSafeGuard::assess, (&g, observation, field, class), r),
        call_ensures(LlmoSafeGuard::check_cognitive_pipeline, (&g, objective, observation), p),
    ensures
        r is Ok <==> token_count(observation@) <= 100_000,
        p is Ok <==> token_count(observation@) <= 100_000,
        r is Ok && g.pin() is Some ==> (r->Ok_0).body_pressure == g.pin(),
        p is Ok && g.pin() is Some ==> (p->Ok_0).body_pressure == g.pin(),
        r is Ok ==> (r->Ok_0).field_id@ == field@ && (r->Ok_0).input_class == class && (
        r->Ok_0).dal@ == g.rules().dal.letter() && (r->Ok_0).semantic_policy@
            == g.rules().semantic_policy.name(),
        r is Ok && p is Ok ==> (r->Ok_0).oov_ratio == Some((p->Ok_0).oov_ratio) && (
        r->Ok_0).detection_flags == Some((p->Ok_0).detection_flags),
        p is Err ==> (p->Err_0)@ == "sifter analysis failed: "@ + "ResourceExhaustion"@,
{
}

/// Words are counted as white space sets them apart.
pub proof fn law_words_counted(a: Seq<char>, space: char, b: Seq<char>)
    requires
        space == ' ' || space == '\t' || space == '\n' || space == '\r',
    ensures
        token_count(a.push(space) + b) == token_count(a) + token_count(b),
        token_count(Seq::empty()) == 0,
        b.len() > 0 && (forall|i: int|
            0 <= i < b.len() ==> (#[trigger] b[i]) != ' ' && b[i] as u32 > 13) ==> token_count(b)
            == 1,
    decreases b.len(),
{
    let all = a.push(space) + b;
    if b.len() == 0 {
        assert(all =~= a.push(space));
        assert(all.drop_last() =~= a);
    } else {
        law_words_counted(a, space, b.drop_last());
        assert(all.drop_last() =~= a.push(space) + b.drop_last());
        assert(all.last() == b.last());
        assert(all[all.len() - 2] == (if b.len() == 1 {
            space
        } else {
            b[b.len() - 2]
        }));
    }
}

} // verus!
