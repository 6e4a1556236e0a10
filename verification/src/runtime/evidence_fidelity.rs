//! How good the evidence for a fact is.
use vstd::prelude::*;

verus! {

/// The quality of evidence. Evidence that is missing says nothing of the fact itself.
#[derive(Debug, Clone, Copy, PartialEq, Eq, Structural)]
pub enum EvidenceFidelity {
    /// Exact instrumentation of the runtime.
    ExactRuntime,
    /// Seen by the kernel.
    KernelObserved,
    /// Seen in samples.
    Sampled,
    /// Inferred, not seen.
    Derived,
}

impl EvidenceFidelity {
    /// Whether the evidence was observed.
    pub fn is_observed(&self) -> (r: bool)
        ensures
            r == (*self != EvidenceFidelity::Derived),
    {
        matches!(
            self,
            EvidenceFidelity::ExactRuntime | EvidenceFidelity::KernelObserved | EvidenceFidelity::Sampled
        )
    }

    /// Whether the evidence was inferred.
    pub fn is_derived(&self) -> (r: bool)
        ensures
            r == (*self == EvidenceFidelity::Derived),
    {
        matches!(self, EvidenceFidelity::Derived)
    }
}


/// Evidence is either observed or derived.
pub proof fn law_observed_or_derived(e: EvidenceFidelity, observed: bool, derived: bool)
    requires
        call_ensures(EvidenceFidelity::is_observed, (&e,), observed),
        call_ensures(EvidenceFidelity::is_derived, (&e,), derived),
    ensures
        observed != derived,
        derived <==> e is Derived,
{
}

} // verus!
