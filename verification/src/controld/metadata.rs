//! What a VM is told about itself, and about nothing else: its identity, where
//! its forwarded ports are reached, how its egress behaves, and the names of the
//! headers that the proxy would put in.

use crate::common::network::{EgressMode, PortForward};
use crate::control_plane::error::Error;
use crate::control_plane::types::{egress_name, egress_str, Labels, VmRecord};
use crate::text::{concat2, decimal, push_decimal};
use vstd::prelude::*;
use vstd::string::*;

verus! {

/// A forwarded port and where it is reached from outside. The endpoint is absent
/// where the host's address is not known.
#[derive(Debug)]
pub struct Endpoint {
    pub vm_port: u16,
    pub host_port: u16,
    pub proto: String,
    pub endpoint: Option<String>,
}

/// The names of the headers that the proxy puts into requests to a host. With
/// none, the host is reachable but carries no credential.
#[derive(Debug)]
pub struct Injected {
    pub host: String,
    pub headers: Vec<String>,
}

/// A VM's own description.
#[derive(Debug)]
pub struct WhoAmI {
    pub id: String,
    pub name: Option<String>,
    pub slot: Option<u16>,
    pub template: String,
    pub labels: Labels,
    /// The VM's own reachable address.
    pub host: Option<String>,
    pub endpoints: Vec<Endpoint>,
    pub egress: &'static str,
    pub egress_note: &'static str,
    /// Selects which credentials the proxy puts in.
    pub principal: Option<String>,
    pub allow: Vec<String>,
    pub credentials: Option<Vec<Injected>>,
}

/// The answer to a caller.
#[derive(Debug)]
pub enum Who {
    You(WhoAmI),
    /// There is no answer for this caller; where that is because it is unknown,
    /// its address.
    Unknown { error: String, src: Option<String> },
}

/// How egress behaves, in the guest's terms.
pub open spec fn note(e: EgressMode) -> Seq<char> {
    match e {
        EgressMode::Deny => "No external egress. Host services (DNS, metadata) are reachable."@,
        EgressMode::Allow =>
            "Direct egress. Hosts in `allow` are routed through the proxy for credential injection."@,
        EgressMode::Proxy =>
            "All egress is intercepted. Only TLS to hosts in `allow` passes; anything else is reset, and plain HTTP is dropped."@,
    }
}

/// How egress behaves, in the guest's terms.
pub fn egress_note(e: EgressMode) -> (r: &'static str)
    ensures
        r@ == note(e),
{
    match e {
        EgressMode::Deny => "No external egress. Host services (DNS, metadata) are reachable.",
        EgressMode::Allow =>
            "Direct egress. Hosts in `allow` are routed through the proxy for credential injection.",
        EgressMode::Proxy =>
            "All egress is intercepted. Only TLS to hosts in `allow` passes; anything else is reset, and plain HTTP is dropped.",
    }
}

/// Whether the names of what is put in are asked for: a VM without egress gets
/// nothing put in, and without anyone to ask nothing is guessed.
pub open spec fn asks_names(egress: EgressMode, secrets: bool) -> bool {
    secrets && egress != EgressMode::Deny
}

/// Whether the names of what is put in are asked for, once for each host that
/// the VM may reach.
pub fn ask_names(rec: &VmRecord, secrets: bool) -> (r: bool)
    ensures
        r == asks_names(rec.egress, secrets),
{
    secrets && rec.egress != EgressMode::Deny
}

/// Whether `e` describes a forward, with the address it is reached at.
pub open spec fn describes_forward(e: Endpoint, f: PortForward, host: Option<String>) -> bool {
    &&& e.vm_port == f.vm_port
    &&& e.host_port == f.host_port
    &&& e.proto@ == f.proto.name()
    &&& match host {
        Some(h) => e.endpoint matches Some(a) && a@ == h@ + ":"@ + decimal(f.host_port as nat),
        None => e.endpoint is None,
    }
}

/// Whether `name` is the label `name` among some labels, absent where there is
/// none.
pub open spec fn names_it(labels: Labels, name: Option<String>) -> bool {
    match name {
        Some(n) => exists|k: String|
            k@ == "name"@ && #[trigger] labels@.contains_key(k) && labels@[k]@ == n@,
        None => forall|k: String| #[trigger] labels@.contains_key(k) ==> k@ != "name"@,
    }
}

/// Whether `w` describes a VM: itself, and nothing else.
pub open spec fn describes_vm(
    w: WhoAmI,
    rec: VmRecord,
    name: Option<String>,
    host: Option<String>,
    names: Option<Vec<Vec<String>>>,
) -> bool {
    &&& w.id@ == rec.id.text()
    &&& w.name == name
    &&& names_it(rec.labels, w.name)
    &&& w.slot == match rec.slot {
        Some(s) => Some(s.value()),
        None => None,
    }
    &&& w.template == rec.template
    &&& w.labels == rec.labels
    &&& w.host == host
    &&& w.endpoints@.len() == rec.ingress@.len()
    &&& forall|i: int|
        0 <= i < rec.ingress@.len() ==> describes_forward(
            #[trigger] w.endpoints@[i],
            rec.ingress@[i],
            host,
        )
    &&& w.egress@ == egress_name(rec.egress)
    &&& w.egress_note@ == note(rec.egress)
    &&& w.principal == rec.principal
    &&& w.allow == rec.allow
    &&& match names {
        None => w.credentials is None,
        Some(n) => {
            &&& w.credentials is Some
            &&& w.credentials->0@.len() == n@.len()
            &&& forall|i: int|
                0 <= i < n@.len() ==> (#[trigger] w.credentials->0@[i]).host == rec.allow@[i]
                    && w.credentials->0@[i].headers == n@[i]
        },
    }
}

fn endpoints(ingress: &Vec<PortForward>, host: &Option<String>) -> (r: Vec<Endpoint>)
    ensures
        r@.len() == ingress@.len(),
        forall|i: int|
            0 <= i < ingress@.len() ==> describes_forward(
                #[trigger] r@[i],
                ingress@[i],
                *host,
            ),
{
    let mut out: Vec<Endpoint> = Vec::new();
    let mut i: usize = 0;
    while i < ingress.len()
        invariant
            i <= ingress.len(),
            out.len() == i,
            forall|k: int| 0 <= k < i ==> describes_forward(#[trigger] out@[k], ingress@[k], *host),
        decreases ingress.len() - i,
    {
        let f = ingress[i];
        let endpoint = match host {
            Some(h) => {
                let mut a = concat2(h.as_str(), ":");
                push_decimal(&mut a, f.host_port as u64);
                Some(a)
            },
            None => None,
        };
        out.push(
            Endpoint {
                vm_port: f.vm_port,
                host_port: f.host_port,
                proto: f.proto.to_string(),
                endpoint,
            },
        );
        i += 1;
    }
    out
}

fn injected(allow: &Vec<String>, names: Vec<Vec<String>>) -> (r: Vec<Injected>)
    requires
        names@.len() == allow@.len(),
    ensures
        r@.len() == names@.len(),
        forall|i: int|
            0 <= i < names@.len() ==> (#[trigger] r@[i]).host == allow@[i] && r@[i].headers
                == names@[i],
{
    let ghost all = names@;
    let mut rest = names;
    let mut out: Vec<Injected> = Vec::new();
    let mut i: usize = 0;
    assert(all.skip(0) =~= all);
    while i < allow.len()
        invariant
            i <= allow.len(),
            all.len() == allow@.len(),
            rest@ == all.skip(i as int),
            out.len() == i,
            forall|k: int|
                0 <= k < i ==> (#[trigger] out@[k]).host == allow@[k] && out@[k].headers == all[k],
        decreases allow.len() - i,
    {
        let headers = rest.remove(0);
        assert(headers == all[i as int]);
        assert(rest@ =~= all.skip(i + 1));
        out.push(Injected { host: allow[i].clone(), headers });
        i += 1;
    }
    out
}

/// Whether `r` is the answer to a caller.
pub open spec fn answers(
    src: Option<String>,
    found: Result<Option<VmRecord>, Error>,
    name: Option<String>,
    host: Option<String>,
    names: Option<Vec<Vec<String>>>,
    r: Who,
) -> bool {
    match src {
        None => r matches Who::Unknown { error, src: None } && error@ == "unsupported source"@,
        Some(ip) => match found {
            Ok(Some(rec)) => r matches Who::You(w) && describes_vm(w, rec, name, host, names),
            Ok(None) => r matches Who::Unknown { error, src: Some(s) } && error@
                == "unknown caller"@ && s == ip,
            Err(e) => r matches Who::Unknown { error, src: None } && error@ == e.said(),
        },
    }
}

/// The answer to a caller. `src` is its address where it is IPv4, `found` the VM
/// behind it, `name` that VM's label of that name, `host` the address that
/// forwarded ports are reached at, and `names` the header names for each host
/// that the VM may reach, where they were asked for.
pub fn whoami(
    src: Option<String>,
    found: Result<Option<VmRecord>, Error>,
    name: Option<String>,
    host: Option<String>,
    names: Option<Vec<Vec<String>>>,
) -> (r: Who)
    requires
        found matches Ok(Some(rec)) ==> names_it(rec.labels, name) && (names matches Some(n)
            ==> n@.len() == rec.allow@.len() && rec.egress != EgressMode::Deny),
    ensures
        answers(src, found, name, host, names, r),
{
    let ip = match src {
        Some(ip) => ip,
        None => return Who::Unknown { error: "unsupported source".to_string(), src: None },
    };
    match found {
        Ok(Some(rec)) => {
            let endpoints = endpoints(&rec.ingress, &host);
            let credentials = match names {
                None => None,
                Some(n) => Some(injected(&rec.allow, n)),
            };
            Who::You(
                WhoAmI {
                    id: rec.id.to_string(),
                    name,
                    slot: match rec.slot {
                        Some(s) => Some(s.get()),
                        None => None,
                    },
                    template: rec.template,
                    labels: rec.labels,
                    host,
                    endpoints,
                    egress: egress_str(rec.egress),
                    egress_note: egress_note(rec.egress),
                    principal: rec.principal,
                    allow: rec.allow,
                    credentials,
                },
            )
        },
        Ok(None) => Who::Unknown { error: "unknown caller".to_string(), src: Some(ip) },
        Err(e) => Who::Unknown { error: e.to_string(), src: None },
    }
}

/// **Law.** A VM without egress is told of no credentials: none are asked for,
/// so its description has none.
pub proof fn law_no_egress_no_credentials(
    w: WhoAmI,
    rec: VmRecord,
    name: Option<String>,
    host: Option<String>,
    names: Option<Vec<Vec<String>>>,
    secrets: bool,
)
    requires
        rec.egress == EgressMode::Deny,
        names is Some ==> asks_names(rec.egress, secrets),
        describes_vm(w, rec, name, host, names),
    ensures
        w.credentials is None,
        w.egress@ == "deny"@,
{
}

/// **Law.** A caller is told of the VM behind its own address and of no other:
/// one whose address says nothing, or is no VM's, is told nothing of any VM.
pub proof fn law_a_caller_is_told_of_itself_alone(
    src: Option<String>,
    found: Result<Option<VmRecord>, Error>,
    name: Option<String>,
    host: Option<String>,
    names: Option<Vec<Vec<String>>>,
    r: Who,
)
    requires
        answers(src, found, name, host, names, r),
    ensures
        r is You <==> src is Some && found is Ok && found->Ok_0 is Some,
        r is You ==> r->You_0.id@ == found->Ok_0->0.id.text() && r->You_0.template
            == found->Ok_0->0.template && r->You_0.principal == found->Ok_0->0.principal
            && r->You_0.allow == found->Ok_0->0.allow && r->You_0.labels == found->Ok_0->0.labels,
        r matches Who::Unknown { src: s, .. } ==> (s is Some ==> s == src),
{
}

/// **Law.** Every forward of a VM is told of, in order, each with the port that it
/// opens and the one that it leads to; where the host's address is known, with
/// the address that reaches it. Each host that the VM may reach stands with the
/// headers that are put in for it.
pub proof fn law_every_forward_is_told_of(
    w: WhoAmI,
    rec: VmRecord,
    name: Option<String>,
    host: Option<String>,
    names: Option<Vec<Vec<String>>>,
)
    requires
        describes_vm(w, rec, name, host, names),
    ensures
        w.endpoints@.len() == rec.ingress@.len(),
        forall|i: int|
            0 <= i < rec.ingress@.len() ==> (#[trigger] w.endpoints@[i]).vm_port
                == rec.ingress@[i].vm_port && w.endpoints@[i].host_port == rec.ingress@[i].host_port
                && (w.endpoints@[i].endpoint is Some <==> host is Some) && (host is Some
                ==> w.endpoints@[i].endpoint->0@ == host->0@ + ":"@ + decimal(
                rec.ingress@[i].host_port as nat,
            )),
        names is None ==> w.credentials is None,
        names matches Some(n) ==> w.credentials is Some && forall|i: int|
            0 <= i < n@.len() ==> (#[trigger] w.credentials->0@[i]).host == rec.allow@[i]
                && w.credentials->0@[i].headers == n@[i],
        w.slot is Some <==> rec.slot is Some,
        w.slot is Some ==> w.slot->0 == rec.slot->0.value(),
{
}

/// **Law.** Names are asked for wherever something could be put in: with someone
/// to ask, and for a VM that has egress of either kind.
pub proof fn law_names_are_asked_for_where_there_is_egress(egress: EgressMode, secrets: bool)
    ensures
        egress == EgressMode::Allow || egress == EgressMode::Proxy ==> (asks_names(egress, secrets)
            <==> secrets),
        egress == EgressMode::Deny ==> !asks_names(egress, secrets),
{
}

} // verus!
