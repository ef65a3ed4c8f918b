//! Types for the proxy's `identify` call: map a VM's source IP to its current
//! egress policy.

use vstd::prelude::*;

verus! {

#[derive(Debug)]
pub struct IdentifyRequest {
    /// The connection's source IP (the VM's `vp` address).
    pub ip: String,
}

#[derive(Debug)]
pub struct IdentifyResponse {
    /// Whether `ip` mapped to a known VM.
    pub found: bool,
    /// `"allow" | "proxy" | "deny"`.
    pub egress: String,
    /// Opaque principal the VM acts as.
    pub principal: Option<String>,
    /// Domains routed through the proxy (kept for callers that predate `rules`).
    pub allow: Vec<String>,
    /// The VM's id, so a caller can key state by VM rather than by address.
    pub vm: Option<String>,
    /// The effective rule set, expanded: `allow` sugar plus explicit rules. A
    /// caller with rules ignores `allow`.
    pub rules: Vec<String>,
    /// Policy generation: bumped on every policy change.
    pub policy_gen: u64,
}

impl Default for IdentifyResponse {
    fn default() -> (r: Self)
        ensures
            !r.found,
            r.egress@ == Seq::<char>::empty(),
            r.principal is None,
            r.allow@ == Seq::<String>::empty(),
            r.vm is None,
            r.rules@ == Seq::<String>::empty(),
            r.policy_gen == 0,
    {
        IdentifyResponse {
            found: false,
            egress: String::new(),
            principal: None,
            allow: Vec::new(),
            vm: None,
            rules: Vec::new(),
            policy_gen: 0,
        }
    }
}

/// A policy as the fleet signed it: the signer's claims and the signature over
/// them, in the form in which they travel. A host files it and relays it; it
/// holds no key to check it with.
#[derive(Debug)]
pub struct SignedPolicy {
    pub token: String,
}

/// What a signed policy claims.
#[derive(Debug)]
pub struct PolicyClaims {
    /// The host that the VM is on.
    pub host: String,
    pub vm: String,
    pub policy_gen: u64,
    pub egress: String,
    pub principal: Option<String>,
    pub rules: Vec<String>,
    pub expires: u64,
}

} // verus!
