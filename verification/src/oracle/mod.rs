//! Properties of the event log: how they are written down, and whether a log has them.
use vstd::prelude::*;
use vstd::string::*;

pub mod benchmark;
pub mod eval;
pub mod generic_eval;
pub mod laws;
pub mod property;

pub use eval::{evaluate, evaluate_v2, PropertyVerdict, Verdict};
pub use generic_eval::{evaluate_items, GenericVerdict};
pub use property::{parse_spec, Op, Predicate, PropertySpec, Quantifier};

verus! {

broadcast use vstd::string::group_string_axioms;

/// What can go wrong around properties.
#[derive(Debug)]
pub enum OracleError {
    /// A property could not be read.
    ParseError { field: String, message: String },
    /// A property could not be evaluated at all.
    EvalError { property: String, message: String },
    /// A bundle could not be used.
    BundleError { path: String, message: String },
}

impl OracleError {
    /// The text of the error.
    pub open spec fn text(self) -> Seq<char> {
        match self {
            OracleError::ParseError { field, message } => "Parse error on field '"@ + field@ + "': "@
                + message@,
            OracleError::EvalError { property, message } => "Evaluation error on property '"@
                + property@ + "': "@ + message@,
            OracleError::BundleError { path, message } => "Bundle error at path '"@ + path@ + "': "@
                + message@,
        }
    }

    /// The text of the error.
    pub fn message(&self) -> (r: String)
        ensures
            r@ == self.text(),
    {
        match self {
            OracleError::ParseError { field, message } => quoted_message(
                "Parse error on field '",
                field,
                message,
            ),
            OracleError::EvalError { property, message } => quoted_message(
                "Evaluation error on property '",
                property,
                message,
            ),
            OracleError::BundleError { path, message } => quoted_message(
                "Bundle error at path '",
                path,
                message,
            ),
        }
    }
}

/// A message that opens with what it is about.
pub(crate) fn quoted_message(head: &str, subject: &String, message: &String) -> (r: String)
    ensures
        r@ == head@ + subject@ + "': "@ + message@,
{
    let mut r = head.to_owned();
    r.append(subject.as_str());
    r.append("': ");
    r.append(message.as_str());
    r
}

} // verus!
