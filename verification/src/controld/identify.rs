//! What the egress proxy is told of a connection's source address: the policy of
//! the VM behind it.

use crate::common::identify::{IdentifyResponse, PolicyClaims};
use crate::common::network::EgressMode;
use crate::control_plane::policy::{describes, Described};
use crate::control_plane::types::{egress_name, egress_str, VmRecord};
use crate::text::{list_has, text_of, texts_of};
use vstd::prelude::*;
use vstd::string::*;

verus! {

/// Whether `r` says that no VM is behind the address.
pub open spec fn unknown(r: IdentifyResponse) -> bool {
    &&& !r.found
    &&& r.egress@.len() == 0
    &&& r.principal is None
    &&& r.allow@.len() == 0
    &&& r.vm is None
    &&& r.rules@.len() == 0
    &&& r.policy_gen == 0
}

/// Whether `r` is the answer to a question about an address.
pub open spec fn identifies(rec: Option<(VmRecord, Vec<String>)>, r: IdentifyResponse) -> bool {
    match rec {
        None => unknown(r),
        Some((v, rules)) => {
            &&& r.found
            &&& r.egress@ == egress_name(v.egress)
            &&& r.principal == v.principal
            &&& r.allow == v.allow
            &&& r.vm matches Some(id)
            &&& id@ == v.id.text()
            &&& r.rules == rules
            &&& r.policy_gen == v.policy_gen
        },
    }
}

/// The answer to a question about an address: `rec` is the VM behind it with the
/// effective rules of its policy, where the question could be read and the
/// address belongs to one.
pub fn identify(rec: Option<(VmRecord, Vec<String>)>) -> (r: IdentifyResponse)
    ensures
        identifies(rec, r),
{
    match rec {
        None => IdentifyResponse::default(),
        Some((v, rules)) => IdentifyResponse {
            found: true,
            egress: egress_str(v.egress).to_string(),
            principal: v.principal,
            allow: v.allow,
            vm: Some(v.id.to_string()),
            rules,
            policy_gen: v.policy_gen,
        },
    }
}

/// Where a name is steered for a VM: the domains that an `allow` VM has routed
/// through the proxy resolve to it, every other name as it does.
pub open spec fn steered(
    rec: Option<VmRecord>,
    name: Seq<char>,
    proxy_ip: [u8; 4],
) -> Option<[u8; 4]> {
    match rec {
        Some(v) => if v.egress == EgressMode::Allow && texts_of(v.allow@).contains(name) {
            Some(proxy_ip)
        } else {
            None
        },
        None => None,
    }
}

/// Where a name is steered for a VM.
pub fn redirect(rec: &Option<VmRecord>, name: &str, proxy_ip: [u8; 4]) -> (r: Option<[u8; 4]>)
    ensures
        r == steered(*rec, name@, proxy_ip),
{
    match rec {
        Some(v) => if v.egress == EgressMode::Allow && list_has(&v.allow, name) {
            Some(proxy_ip)
        } else {
            None
        },
        None => None,
    }
}

/// **Law.** The proxy is told the policy that a signature over it describes: the
/// VM, the generation, the mode, the principal and the effective rules are those
/// that the claims have.
pub proof fn law_the_proxy_is_told_what_was_signed(
    c: PolicyClaims,
    d: Described,
    v: VmRecord,
    rules: Vec<String>,
    r: IdentifyResponse,
)
    requires
        describes(c, d),
        d.vm == v.id,
        d.policy_gen == v.policy_gen,
        d.egress == v.egress,
        d.principal == v.principal,
        d.effective == rules,
        identifies(Some((v, rules)), r),
    ensures
        r.found,
        r.vm is Some && r.vm->0@ == c.vm@,
        r.policy_gen == c.policy_gen,
        r.egress@ == c.egress@,
        text_of(r.principal) == text_of(c.principal),
        texts_of(r.rules@) == texts_of(c.rules@),
        r.allow == v.allow,
{
}

/// **Law.** An address without a VM has no policy at all, and none is made up:
/// nothing is found, allowed or named.
pub proof fn law_an_unknown_address_has_no_policy(
    rec: Option<(VmRecord, Vec<String>)>,
    r: IdentifyResponse,
)
    requires
        identifies(rec, r),
    ensures
        r.found <==> rec is Some,
        rec is None ==> r.vm is None && r.principal is None && r.allow@.len() == 0 && r.rules@.len()
            == 0 && r.egress@.len() == 0 && r.policy_gen == 0,
{
}

/// **Law.** Only names that a VM has routed through the proxy are steered to it,
/// and only where its egress is direct otherwise: with none, or with all of it
/// going through the proxy, names resolve as they do.
pub proof fn law_only_routed_names_are_steered(rec: Option<VmRecord>, name: Seq<char>, ip: [u8; 4])
    ensures
        steered(rec, name, ip) is Some <==> rec is Some && rec->0.egress == EgressMode::Allow
            && exists|i: int| 0 <= i < rec->0.allow@.len() && (#[trigger] rec->0.allow@[i])@ == name,
        steered(rec, name, ip) matches Some(a) ==> a == ip,
{
    if let Some(v) = rec {
        let t = texts_of(v.allow@);
        if t.contains(name) {
            let i = choose|i: int| 0 <= i < t.len() && t[i] == name;
            assert(v.allow@[i]@ == name);
        }
        if exists|i: int| 0 <= i < v.allow@.len() && (#[trigger] v.allow@[i])@ == name {
            let i = choose|i: int| 0 <= i < v.allow@.len() && (#[trigger] v.allow@[i])@ == name;
            assert(t[i] == name);
        }
    }
}

} // verus!
