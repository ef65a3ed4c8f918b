//! The fleet signs every policy it places or changes: what a signature claims,
//! and when it is renewed.

use crate::common::identify::PolicyClaims;
use crate::common::ids::VmId;
use crate::control_plane::edit::{merged, policy_at, Outcome, PolicyChange};
use crate::control_plane::lifecycle::created_policy;
use crate::control_plane::policy::{describes, Described};
use crate::control_plane::types::{egress_name, egress_str, CreateVm, VmRecord};
use crate::controld::api::{asks, egress_from, egress_of, CreateReq};
use vstd::prelude::*;
use vstd::string::*;

verus! {

/// Whether `c` claims a policy for a VM on a host, until a time.
pub open spec fn claims_policy(c: PolicyClaims, host: Seq<char>, d: Described, expires: int) -> bool {
    &&& c.host@ == host
    &&& c.vm@ == d.vm.text()
    &&& c.egress@ == egress_name(d.egress)
    &&& c.principal == d.principal
    &&& c.rules == d.effective
    &&& c.policy_gen == d.policy_gen
    &&& c.expires == expires
}

/// The policy that a VM starts out with: its first generation. An egress mode
/// that is not known is none at all.
pub open spec fn first_policy(
    vm: VmId,
    egress: Seq<char>,
    principal: Option<String>,
    effective: Vec<String>,
) -> Described {
    Described { vm, policy_gen: 1, egress: egress_of(egress), principal, effective }
}

/// The policy that a VM starts out with.
pub fn at_creation(
    vm: VmId,
    egress: &str,
    principal: Option<String>,
    effective: Vec<String>,
) -> (d: Described)
    ensures
        d == first_policy(vm, egress@, principal, effective),
{
    Described { vm, policy_gen: 1, egress: egress_from(egress), principal, effective }
}

/// The policy that a change comes to: the next generation, where one is left.
pub fn after_change(o: Outcome, effective: Vec<String>) -> (r: Option<Described>)
    ensures
        match r {
            Some(d) => o.policy_gen < u64::MAX && d == policy_at(
                o,
                effective,
                (o.policy_gen + 1) as u64,
            ),
            None => o.policy_gen == u64::MAX,
        },
{
    if o.policy_gen == u64::MAX {
        return None;
    }
    Some(
        Described {
            vm: o.id,
            policy_gen: o.policy_gen + 1,
            egress: o.egress,
            principal: o.principal,
            effective,
        },
    )
}

/// What is signed of the policy that a VM on `host` runs under. The rules are
/// the effective set, expanded the way the host serves it, so the tier and the
/// host agree.
pub fn sign_policy(host: &str, d: Described, now: u64, ttl: u64) -> (c: PolicyClaims)
    requires
        now + ttl <= u64::MAX,
    ensures
        claims_policy(c, host@, d, now + ttl),
{
    PolicyClaims {
        host: host.to_string(),
        vm: d.vm.to_string(),
        egress: egress_str(d.egress).to_string(),
        principal: d.principal,
        rules: d.effective,
        policy_gen: d.policy_gen,
        expires: now + ttl,
    }
}

/// Whether `r` is `c` with another expiry.
pub open spec fn renews(c: PolicyClaims, r: PolicyClaims, expires: int) -> bool {
    &&& r.expires == expires
    &&& r.host == c.host
    &&& r.vm == c.vm
    &&& r.egress == c.egress
    &&& r.principal == c.principal
    &&& r.rules == c.rules
    &&& r.policy_gen == c.policy_gen
}

/// Claims to be signed afresh with a new expiry: a renewal, nothing else changed.
pub fn resign(c: PolicyClaims, now: u64, ttl: u64) -> (r: PolicyClaims)
    requires
        now + ttl <= u64::MAX,
    ensures
        renews(c, r, now + ttl),
{
    PolicyClaims {
        host: c.host,
        vm: c.vm,
        egress: c.egress,
        principal: c.principal,
        rules: c.rules,
        policy_gen: c.policy_gen,
        expires: now + ttl,
    }
}

/// Whether a signature has no more than a third of its life left.
pub open spec fn due(expires: int, now: int, ttl: int) -> bool {
    expires - now <= ttl / 3
}

/// Whether a signature has no more than a third of its life left.
pub fn renewal_due(expires: u64, now: u64, ttl: u64) -> (r: bool)
    ensures
        r == due(expires as int, now as int, ttl as int),
{
    if expires < now {
        true
    } else {
        expires - now <= ttl / 3
    }
}

/// **Law.** What the fleet signs is what the host will hold it to: the claims
/// describe the policy.
pub proof fn law_a_fleet_signature_describes_the_policy(
    c: PolicyClaims,
    host: Seq<char>,
    d: Described,
    expires: int,
)
    requires
        claims_policy(c, host, d, expires),
    ensures
        describes(c, d),
{
}

/// **Law.** A creation that goes through the fleet is accepted by the host: the
/// claims signed over its body describe the policy that the host comes to.
pub proof fn law_a_creation_through_the_fleet_is_accepted(
    q: CreateReq,
    req: CreateVm,
    vm: VmId,
    effective: Vec<String>,
    c: PolicyClaims,
    host: Seq<char>,
    expires: int,
)
    requires
        asks(q, req),
        claims_policy(c, host, first_policy(vm, q.egress@, q.principal, effective), expires),
    ensures
        describes(c, created_policy(req, vm, effective)),
{
}

/// **Law.** A change that goes through the fleet is accepted by the host: signed
/// over the current policy with the change laid on it, at the next generation,
/// the claims describe the policy that the host comes to.
pub proof fn law_a_change_through_the_fleet_is_accepted(
    rec: VmRecord,
    change: PolicyChange,
    o: Outcome,
    effective: Vec<String>,
    c: PolicyClaims,
    host: Seq<char>,
    expires: int,
)
    requires
        merged(rec, change, o),
        rec.policy_gen < u64::MAX,
        claims_policy(c, host, policy_at(o, effective, (rec.policy_gen + 1) as u64), expires),
    ensures
        describes(c, policy_at(o, effective, (o.policy_gen + 1) as u64)),
        c.vm@ == rec.id.text(),
{
}

/// **Law.** A renewal changes no policy: it describes exactly what the signature
/// before it described, for the same host.
pub proof fn law_a_renewal_changes_no_policy(
    c: PolicyClaims,
    r: PolicyClaims,
    expires: int,
    d: Described,
)
    requires
        renews(c, r, expires),
    ensures
        describes(r, d) == describes(c, d),
        r.host == c.host,
        r.policy_gen == c.policy_gen,
{
}

/// **Law.** A renewed signature is not due again at once, unless signatures live
/// no time at all.
pub proof fn law_a_renewed_signature_is_not_due(c: PolicyClaims, r: PolicyClaims, now: int, ttl: int)
    requires
        renews(c, r, now + ttl),
        ttl > 0,
    ensures
        !due(r.expires as int, now, ttl),
{
}

/// **Law.** A signature falls due in the last third of its life and stays due
/// from then on, also after it has expired.
pub proof fn law_a_signature_is_renewed_in_its_last_third(signed: int, ttl: int, now: int)
    requires
        ttl >= 0,
    ensures
        due(signed + ttl, now, ttl) <==> 3 * (now - signed) >= 2 * ttl,
        now >= signed + ttl ==> due(signed + ttl, now, ttl),
{
}

/// **Law.** Every claim is about the policy that was signed, on the host that it
/// was signed for: no two policies or hosts have the same claims.
pub proof fn law_claims_tell_policies_apart(
    c: PolicyClaims,
    host: Seq<char>,
    other: Seq<char>,
    d: Described,
    e: Described,
    until: int,
    till: int,
)
    requires
        claims_policy(c, host, d, until),
        claims_policy(c, other, e, till),
    ensures
        host == other,
        until == till,
        d.vm.text() == e.vm.text(),
        d.principal == e.principal,
        d.effective == e.effective,
        d.policy_gen == e.policy_gen,
        egress_name(d.egress) == egress_name(e.egress),
{
}

} // verus!
