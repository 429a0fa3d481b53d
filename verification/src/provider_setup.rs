//! Application-owned provider configuration behind the v1 setup route.
use vstd::prelude::*;

verus! {

/// Non-secret provider declaration to persist on the backend host.
#[derive(Clone, Debug, PartialEq, Eq)]
pub struct ProviderSetupSpec {
    /// Provider id, also used to resolve a saved auth credential.
    pub provider_id: String,
    /// Hya provider kind.
    pub kind: String,
    /// Upstream API root.
    pub base_url: String,
    /// Explicit provider-local model ids.
    pub model_ids: Vec<String>,
    /// Select the first model for new sessions after restart.
    pub make_default: bool,
}

} // verus!
