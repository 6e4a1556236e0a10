//! What can go wrong in the runtime.
use vstd::prelude::*;
use vstd::string::*;

use crate::job::JobState;

verus! {

broadcast use vstd::string::group_string_axioms;

/// What can go wrong in the runtime.
#[derive(Debug)]
pub enum Error {
    /// A job was to take a step that it may not take.
    InvalidTransition { from: JobState, to: JobState },
    /// Arguments do not fit their schema.
    SchemaValidationFailed(String),
    CapabilityNotFound(String),
    ExecutionFailed(String),
    /// A capability failed with an error of its own: its kind, its code and a message.
    CapabilityExecutionFailed { msg: String, variant: &'static str, code: i32 },
    WalError(String),
    BackupError(String),
    SessionError(String),
    /// The machine is short of something, or the request is too large.
    ResourceLimitExceeded(String),
    TelemetryError(String),
    CognitiveSafetyViolation(String),
    /// The request needs a decision at a higher level and is not executed now.
    SafetyEscalationRequired(String),
    /// The request is refused.
    SafetyRejected(String),
    /// The request is refused, with a fatal finding.
    SafetyFatal(String),
    /// The request could not be analysed, and is therefore refused.
    SafetyAnalysisFailed(String),
}

impl Error {
    /// The text of the error.
    pub open spec fn text(self) -> Seq<char> {
        match self {
            Error::InvalidTransition { from, to } => "Invalid job state transition: "@ + from.name()
                + " -> "@ + to.name(),
            Error::SchemaValidationFailed(m) => "Schema validation failed: "@ + m@,
            Error::CapabilityNotFound(m) => "Capability not found: "@ + m@,
            Error::ExecutionFailed(m) => "Execution failed: "@ + m@,
            Error::CapabilityExecutionFailed { msg, variant, code } =>
                "Capability execution failed: "@ + variant@ + " - "@ + msg@,
            Error::WalError(m) => "WAL error: "@ + m@,
            Error::BackupError(m) => "Backup error: "@ + m@,
            Error::SessionError(m) => "Session error: "@ + m@,
            Error::ResourceLimitExceeded(m) => "Resource limit exceeded: "@ + m@,
            Error::TelemetryError(m) => "Telemetry error: "@ + m@,
            Error::CognitiveSafetyViolation(m) => "Cognitive safety violation: "@ + m@,
            Error::SafetyEscalationRequired(m) => "Safety escalation required: "@ + m@,
            Error::SafetyRejected(m) => "Safety rejected: "@ + m@,
            Error::SafetyFatal(m) => "Safety fatal: "@ + m@,
            Error::SafetyAnalysisFailed(m) => "Safety analysis failed: "@ + m@,
        }
    }

    /// The text of the error.
    pub fn message(&self) -> (r: String)
        ensures
            r@ == self.text(),
    {
        match self {
            Error::InvalidTransition { from, to } => {
                let mut r = "Invalid job state transition: ".to_owned();
                r.append(from.as_str());
                r.append(" -> ");
                r.append(to.as_str());
                r
            },
            Error::CapabilityExecutionFailed { msg, variant, .. } => {
                let mut r = "Capability execution failed: ".to_owned();
                r.append(*variant);
                r.append(" - ");
                r.append(msg.as_str());
                r
            },
            Error::SchemaValidationFailed(m) => prefixed("Schema validation failed: ", m),
            Error::CapabilityNotFound(m) => prefixed("Capability not found: ", m),
            Error::ExecutionFailed(m) => prefixed("Execution failed: ", m),
            Error::WalError(m) => prefixed("WAL error: ", m),
            Error::BackupError(m) => prefixed("Backup error: ", m),
            Error::SessionError(m) => prefixed("Session error: ", m),
            Error::ResourceLimitExceeded(m) => prefixed("Resource limit exceeded: ", m),
            Error::TelemetryError(m) => prefixed("Telemetry error: ", m),
            Error::CognitiveSafetyViolation(m) => prefixed("Cognitive safety violation: ", m),
            Error::SafetyEscalationRequired(m) => prefixed("Safety escalation required: ", m),
            Error::SafetyRejected(m) => prefixed("Safety rejected: ", m),
            Error::SafetyFatal(m) => prefixed("Safety fatal: ", m),
            Error::SafetyAnalysisFailed(m) => prefixed("Safety analysis failed: ", m),
        }
    }
}

/// A message behind what it opens with.
pub(crate) fn prefixed(head: &str, m: &String) -> (r: String)
    ensures
        r@ == head@ + m@,
{
    let mut r = head.to_owned();
    r.append(m.as_str());
    r
}


/// An error says what kind it is of and hands on what it was told.
pub proof fn law_error_words(m: String, variant: &'static str, code: i32, from: JobState, to: JobState)
    ensures
        (Error::InvalidTransition { from, to }).text() == "Invalid job state transition: "@
            + from.name() + " -> "@ + to.name(),
        (Error::CapabilityExecutionFailed { msg: m, variant, code }).text()
            == "Capability execution failed: "@ + variant@ + " - "@ + m@,
        Error::SchemaValidationFailed(m).text() == "Schema validation failed: "@ + m@,
        Error::CapabilityNotFound(m).text() == "Capability not found: "@ + m@,
        Error::ExecutionFailed(m).text() == "Execution failed: "@ + m@,
        Error::WalError(m).text() == "WAL error: "@ + m@,
        Error::BackupError(m).text() == "Backup error: "@ + m@,
        Error::SessionError(m).text() == "Session error: "@ + m@,
        Error::ResourceLimitExceeded(m).text() == "Resource limit exceeded: "@ + m@,
        Error::TelemetryError(m).text() == "Telemetry error: "@ + m@,
        Error::CognitiveSafetyViolation(m).text() == "Cognitive safety violation: "@ + m@,
        Error::SafetyEscalationRequired(m).text() == "Safety escalation required: "@ + m@,
        Error::SafetyRejected(m).text() == "Safety rejected: "@ + m@,
        Error::SafetyFatal(m).text() == "Safety fatal: "@ + m@,
        Error::SafetyAnalysisFailed(m).text() == "Safety analysis failed: "@ + m@,
{
}

} // verus!
