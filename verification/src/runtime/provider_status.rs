//! The health of a provider of evidence. A failure always shows, with its reason.
use vstd::prelude::*;
use vstd::string::*;

verus! {

broadcast use vstd::string::group_string_axioms;

/// The health of a provider.
#[derive(Debug, PartialEq, Eq)]
pub enum ProviderStatus {
    /// The provider cannot be used.
    Unavailable { provider: String, version: String, reason: String },
    /// The provider works, but not as it should.
    Degraded { provider: String, version: String, mode: String, reason: String },
    /// The provider works.
    Active { provider: String, version: String, mode: String },
    /// The provider has failed and needs attention.
    Failed { provider: String, version: String, mode: String, reason: String },
}

impl Clone for ProviderStatus {
    fn clone(&self) -> (r: Self)
        ensures
            r == *self,
    {
        match self {
            ProviderStatus::Unavailable { provider, version, reason } => {
                ProviderStatus::Unavailable {
                    provider: provider.clone(),
                    version: version.clone(),
                    reason: reason.clone(),
                }
            },
            ProviderStatus::Degraded { provider, version, mode, reason } => {
                ProviderStatus::Degraded {
                    provider: provider.clone(),
                    version: version.clone(),
                    mode: mode.clone(),
                    reason: reason.clone(),
                }
            },
            ProviderStatus::Active { provider, version, mode } => ProviderStatus::Active {
                provider: provider.clone(),
                version: version.clone(),
                mode: mode.clone(),
            },
            ProviderStatus::Failed { provider, version, mode, reason } => ProviderStatus::Failed {
                provider: provider.clone(),
                version: version.clone(),
                mode: mode.clone(),
                reason: reason.clone(),
            },
        }
    }
}

impl ProviderStatus {
    /// The name and the version of the provider.
    pub open spec fn identity(self) -> (Seq<char>, Seq<char>) {
        match self {
            ProviderStatus::Unavailable { provider, version, .. } => (provider@, version@),
            ProviderStatus::Degraded { provider, version, .. } => (provider@, version@),
            ProviderStatus::Active { provider, version, .. } => (provider@, version@),
            ProviderStatus::Failed { provider, version, .. } => (provider@, version@),
        }
    }

    /// The name of the provider.
    pub fn provider_name(&self) -> (r: &str)
        ensures
            r@ == self.identity().0,
    {
        match self {
            ProviderStatus::Unavailable { provider, .. } => provider.as_str(),
            ProviderStatus::Degraded { provider, .. } => provider.as_str(),
            ProviderStatus::Active { provider, .. } => provider.as_str(),
            ProviderStatus::Failed { provider, .. } => provider.as_str(),
        }
    }

    /// The version of the provider.
    pub fn version(&self) -> (r: &str)
        ensures
            r@ == self.identity().1,
    {
        match self {
            ProviderStatus::Unavailable { version, .. } => version.as_str(),
            ProviderStatus::Degraded { version, .. } => version.as_str(),
            ProviderStatus::Active { version, .. } => version.as_str(),
            ProviderStatus::Failed { version, .. } => version.as_str(),
        }
    }

    /// Whether the provider works.
    pub fn is_active(&self) -> (r: bool)
        ensures
            r == (self is Active),
    {
        matches!(self, ProviderStatus::Active { .. })
    }

    /// Whether the provider cannot be used or has failed.
    pub fn is_unavailable(&self) -> (r: bool)
        ensures
            r == (self is Unavailable || self is Failed),
    {
        matches!(self, ProviderStatus::Unavailable { .. } | ProviderStatus::Failed { .. })
    }
}


/// A provider is told by its name and version in every state; it serves only where it is active, and
/// is of no use where it is unavailable or has failed.
pub proof fn law_provider_states(
    s: ProviderStatus,
    name: &str,
    version: &str,
    active: bool,
    unavailable: bool,
)
    requires
        call_ensures(ProviderStatus::provider_name, (&s,), name),
        call_ensures(ProviderStatus::version, (&s,), version),
        call_ensures(ProviderStatus::is_active, (&s,), active),
        call_ensures(ProviderStatus::is_unavailable, (&s,), unavailable),
    ensures
        active <==> s is Active,
        unavailable <==> s is Unavailable || s is Failed,
        s is Degraded ==> !active && !unavailable,
        s is Unavailable ==> name@ == s->Unavailable_provider@ && version@
            == s->Unavailable_version@,
        s is Degraded ==> name@ == s->Degraded_provider@ && version@ == s->Degraded_version@,
        s is Active ==> name@ == s->Active_provider@ && version@ == s->Active_version@,
        s is Failed ==> name@ == s->Failed_provider@ && version@ == s->Failed_version@,
{
}

} // verus!
