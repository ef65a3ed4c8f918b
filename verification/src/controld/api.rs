//! The admin API's decisions: what a request body asks of the control plane, how
//! a record is shown, and with which status each failure is answered.

use crate::common::api::ApiError;
use crate::common::identify::SignedPolicy;
use crate::common::ids::{
    from_be, is_uuid, law_parse_reads_what_was_rendered, uuid_bytes, VmId,
};
use crate::common::network::{EgressMode, PortForward, Protocol};
use crate::common::runtime::SnapshotRef;
use crate::codec::{b64_encode, base64_text};
use crate::control_plane::edit::{merged, Outcome, PolicyChange};
use crate::control_plane::error::Error;
use crate::control_plane::types::{
    egress_name, egress_named, egress_parse, egress_str, law_stored_names_read_back, proto_parse,
    proto_str, snapshot_of,
    spells_udp, CreateVm, Labels, Lifecycle, RestartPolicy, TemplateDef, VmRecord,
};
use crate::guest_proto::{ClientError, ExecRequest, DEFAULT_EXEC_TIMEOUT_MS};
use crate::text::{concat2, same};
use vstd::prelude::*;
use vstd::string::*;

verus! {

/// The status of a control-plane error. A rule that cannot be read is the caller's
/// mistake, and is passed on as such through a fleet.
pub open spec fn status_of(e: Error) -> u16 {
    match e {
        Error::UnknownVm(_) => 404,
        Error::UnknownTemplate(_) => 404,
        Error::UnknownForward { .. } => 404,
        Error::SlotsExhausted => 409,
        Error::PortsExhausted => 409,
        Error::PoolFull { .. } => 409,
        Error::InvalidState { .. } => 409,
        Error::VmExists(_) => 409,
        Error::InvalidRule(_) => 400,
        Error::SignedMismatch(_) => 500,
        Error::Store(_) => 500,
        Error::Component(_) => 500,
    }
}

/// The answer to a call that the control plane refused.
pub fn refused(e: &Error) -> (r: ApiError)
    ensures
        r.says(status_of(*e), e.said()),
{
    let status: u16 = match e {
        Error::UnknownVm(_) => 404,
        Error::UnknownTemplate(_) => 404,
        Error::UnknownForward { .. } => 404,
        Error::SlotsExhausted => 409,
        Error::PortsExhausted => 409,
        Error::PoolFull { .. } => 409,
        Error::InvalidState { .. } => 409,
        Error::VmExists(_) => 409,
        Error::InvalidRule(_) => 400,
        Error::SignedMismatch(_) => 500,
        Error::Store(_) => 500,
        Error::Component(_) => 500,
    };
    ApiError { status, message: e.to_string() }
}

/// The status of a failure to be served by the guest agent.
pub open spec fn guest_status(e: ClientError) -> u16 {
    if e is Agent {
        400
    } else {
        502
    }
}

/// **Law.** What the agent refuses is the caller's problem; not reaching it, or
/// not understanding it, is the host's.
pub proof fn law_only_the_agents_refusal_is_the_callers(e: ClientError)
    ensures
        guest_status(e) == 400 <==> e is Agent,
        guest_status(e) == 502 <==> e is Io || e is UnexpectedResult || e is Closed,
{
}

/// The answer to a call that the guest agent did not serve. The agent refusing
/// an operation is the caller's problem; not reaching it at all is the host's.
pub fn guest_refused(e: &ClientError) -> (r: ApiError)
    ensures
        r.says(guest_status(*e), e.said()),
{
    let status: u16 = match e {
        ClientError::Agent(_) => 400,
        _ => 502,
    };
    ApiError { status, message: e.to_string() }
}

/// The answer to a call whose channel to the guest could not be opened.
pub fn channel_failed(why: &str) -> (r: ApiError)
    ensures
        r.says(502, "guest channel: "@ + why@),
{
    ApiError { status: 502, message: concat2("guest channel: ", why) }
}

/// The answer to a call that the agent did not serve in time.
pub fn guest_timed_out() -> (r: ApiError)
    ensures
        r.says(504, "guest agent did not answer in time"@),
{
    ApiError { status: 504, message: "guest agent did not answer in time".to_string() }
}

/// Whether a text is the canonical form of an id.
pub open spec fn reads(s: Seq<char>, id: VmId) -> bool {
    is_uuid(s) && id.value() == from_be(uuid_bytes(s))
}

/// The id in a path.
pub fn parse_id(s: &str) -> (r: Result<VmId, ApiError>)
    ensures
        match r {
            Ok(id) => reads(s@, id),
            Err(e) => !is_uuid(s@) && e.says(400, "invalid vm id"@),
        },
{
    match VmId::parse(s) {
        Some(id) => Ok(id),
        None => Err(ApiError { status: 400, message: "invalid vm id".to_string() }),
    }
}

/// A forward that a create asks for. Its host port is the control plane's to
/// allocate.
#[derive(Debug)]
pub struct ForwardReq {
    pub vm_port: u16,
    pub proto: String,
}

/// A create as a client sends it.
#[derive(Debug)]
pub struct CreateReq {
    pub id: Option<String>,
    pub template: String,
    pub egress: String,
    pub ingress: Vec<ForwardReq>,
    pub labels: Labels,
    pub lifecycle: String,
    pub restart: String,
    pub vcpus: Option<u32>,
    pub mem_mib: Option<u32>,
    pub principal: Option<String>,
    pub allow: Vec<String>,
    pub rules: Vec<String>,
    pub signed: Option<SignedPolicy>,
}

/// The egress mode of a name: none at all, for any that is not known.
pub open spec fn egress_of(s: Seq<char>) -> EgressMode {
    match egress_named(s) {
        Some(e) => e,
        None => EgressMode::Deny,
    }
}

pub fn egress_from(s: &str) -> (r: EgressMode)
    ensures
        r == egress_of(s@),
{
    match egress_parse(s) {
        Some(e) => e,
        None => EgressMode::Deny,
    }
}

/// The lifecycle of a name: ephemeral, for any that is not known.
pub fn lifecycle_from(s: &str) -> (r: Lifecycle)
    ensures
        r == (if s@ == "durable"@ {
            Lifecycle::Durable
        } else {
            Lifecycle::Ephemeral
        }),
{
    if same(s, "durable") {
        Lifecycle::Durable
    } else {
        Lifecycle::Ephemeral
    }
}

/// The restart policy of a name: never, for any that is not known.
pub open spec fn restart_of(s: Seq<char>) -> RestartPolicy {
    if s == "always"@ {
        RestartPolicy::Always
    } else if s == "on_failure"@ {
        RestartPolicy::OnFailure
    } else {
        RestartPolicy::Never
    }
}

pub fn restart_from(s: &str) -> (r: RestartPolicy)
    ensures
        r == restart_of(s@),
{
    if same(s, "always") {
        RestartPolicy::Always
    } else if same(s, "on_failure") {
        RestartPolicy::OnFailure
    } else {
        RestartPolicy::Never
    }
}

/// The protocol of a name: TCP, for any that is not UDP's.
pub open spec fn proto_of(s: Seq<char>) -> Protocol {
    if spells_udp(s) {
        Protocol::Udp
    } else {
        Protocol::Tcp
    }
}

/// Whether `c` is what a create body asks of the control plane.
pub open spec fn asks(q: CreateReq, c: CreateVm) -> bool {
    &&& match q.id {
        Some(s) => c.id matches Some(id) && reads(s@, id),
        None => c.id is None,
    }
    &&& c.template == q.template
    &&& c.egress == egress_of(q.egress@)
    &&& c.ingress@.len() == q.ingress@.len()
    &&& forall|i: int|
        0 <= i < q.ingress@.len() ==> (#[trigger] c.ingress@[i]) == (PortForward {
            host_port: 0,
            vm_port: q.ingress@[i].vm_port,
            proto: proto_of(q.ingress@[i].proto@),
        })
    &&& c.labels == q.labels
    &&& c.lifecycle == (if q.lifecycle@ == "durable"@ {
        Lifecycle::Durable
    } else {
        Lifecycle::Ephemeral
    })
    &&& c.restart == restart_of(q.restart@)
    &&& c.vcpus == q.vcpus
    &&& c.mem_mib == q.mem_mib
    &&& c.principal == q.principal
    &&& c.allow == q.allow
    &&& c.rules == q.rules
    &&& c.signed == q.signed
}

/// **Law.** A VM has no network access unless it is asked for: any body that does
/// not name `allow` or `proxy`, such as one that says nothing, asks for none.
pub proof fn law_no_network_unless_asked_for(q: CreateReq, c: CreateVm)
    requires
        asks(q, c),
        q.egress@ != "allow"@,
        q.egress@ != "proxy"@,
    ensures
        c.egress == EgressMode::Deny,
{
}

/// What a create body asks of the control plane.
pub fn to_req(q: CreateReq) -> (r: Result<CreateVm, ApiError>)
    ensures
        match r {
            Ok(c) => asks(q, c),
            Err(e) => {
                &&& q.id matches Some(s)
                &&& !is_uuid(s@)
                &&& e.says(400, "invalid vm id"@)
            },
        },
{
    let id = match &q.id {
        Some(s) => match parse_id(s.as_str()) {
            Ok(id) => Some(id),
            Err(e) => return Err(e),
        },
        None => None,
    };
    let mut ingress: Vec<PortForward> = Vec::new();
    let mut i: usize = 0;
    while i < q.ingress.len()
        invariant
            i <= q.ingress.len(),
            ingress.len() == i,
            forall|k: int|
                0 <= k < i ==> (#[trigger] ingress@[k]) == (PortForward {
                    host_port: 0,
                    vm_port: q.ingress@[k].vm_port,
                    proto: proto_of(q.ingress@[k].proto@),
                }),
        decreases q.ingress.len() - i,
    {
        ingress.push(
            PortForward {
                host_port: 0,
                vm_port: q.ingress[i].vm_port,
                proto: proto_parse(q.ingress[i].proto.as_str()),
            },
        );
        i += 1;
    }
    Ok(
        CreateVm {
            id,
            template: q.template,
            egress: egress_from(q.egress.as_str()),
            ingress,
            labels: q.labels,
            lifecycle: lifecycle_from(q.lifecycle.as_str()),
            restart: restart_from(q.restart.as_str()),
            vcpus: q.vcpus,
            mem_mib: q.mem_mib,
            principal: q.principal,
            allow: q.allow,
            rules: q.rules,
            signed: q.signed,
        },
    )
}

/// A forward as it is shown.
#[derive(Debug)]
pub struct ForwardResp {
    pub host_port: u16,
    pub vm_port: u16,
    pub proto: &'static str,
}

pub open spec fn shows_forward(r: ForwardResp, f: PortForward) -> bool {
    r.host_port == f.host_port && r.vm_port == f.vm_port && r.proto@ == f.proto.name()
}

pub fn forward_resp(f: &PortForward) -> (r: ForwardResp)
    ensures
        shows_forward(r, *f),
{
    ForwardResp { host_port: f.host_port, vm_port: f.vm_port, proto: proto_str(f.proto) }
}

/// A VM as the host shows it.
#[derive(Debug)]
pub struct VmResp<'a> {
    pub id: String,
    pub slot: Option<u16>,
    pub state: &'static str,
    pub egress: &'static str,
    pub lifecycle: &'static str,
    pub restart: &'static str,
    pub ingress: Vec<ForwardResp>,
    /// What is shown as it is stored.
    pub rec: &'a VmRecord,
}

/// Whether `r` is a record as the host shows it.
pub open spec fn shows_vm(r: VmResp<'_>, rec: VmRecord) -> bool {
    &&& r.id@ == rec.id.text()
    &&& r.slot == (match rec.slot {
        Some(s) => Some(s.value()),
        None => None,
    })
    &&& r.state@ == rec.state.name()
    &&& r.egress@ == egress_name(rec.egress)
    &&& r.lifecycle@ == rec.lifecycle.name()
    &&& r.restart@ == rec.restart.name()
    &&& r.ingress@.len() == rec.ingress@.len()
    &&& forall|i: int|
        0 <= i < rec.ingress@.len() ==> shows_forward(#[trigger] r.ingress@[i], rec.ingress@[i])
    &&& *r.rec == rec
}

/// A record as the host shows it.
pub fn vm_resp(rec: &VmRecord) -> (r: VmResp<'_>)
    ensures
        shows_vm(r, *rec),
{
    let mut ingress: Vec<ForwardResp> = Vec::new();
    let mut i: usize = 0;
    while i < rec.ingress.len()
        invariant
            i <= rec.ingress.len(),
            ingress.len() == i,
            forall|k: int| 0 <= k < i ==> shows_forward(#[trigger] ingress@[k], rec.ingress@[k]),
        decreases rec.ingress.len() - i,
    {
        ingress.push(forward_resp(&rec.ingress[i]));
        i += 1;
    }
    VmResp {
        id: rec.id.to_string(),
        slot: match rec.slot {
            Some(s) => Some(s.get()),
            None => None,
        },
        state: rec.state.as_str(),
        egress: egress_str(rec.egress),
        lifecycle: rec.lifecycle.as_str(),
        restart: rec.restart.as_str(),
        ingress,
        rec,
    }
}

/// A policy change as a client sends it.
#[derive(Debug)]
pub struct PolicyReq {
    pub principal: Option<String>,
    pub allow: Option<Vec<String>>,
    pub rules: Option<Vec<String>>,
    /// `allow`, `proxy` or `deny`; anything else leaves it unchanged.
    pub egress: Option<String>,
    pub signed: Option<SignedPolicy>,
}

/// Whether `r` is what a policy body asks of the control plane.
pub open spec fn asks_change(q: PolicyReq, r: PolicyChange) -> bool {
    &&& r.principal == q.principal
    &&& r.allow == q.allow
    &&& r.rules == q.rules
    &&& r.signed == q.signed
    &&& r.egress == (match q.egress {
        Some(s) => egress_named(s@),
        None => None,
    })
}

/// What a policy body asks of the control plane.
pub fn to_change(q: PolicyReq) -> (r: PolicyChange)
    ensures
        asks_change(q, r),
{
    let egress = match &q.egress {
        Some(s) => egress_parse(s.as_str()),
        None => None,
    };
    PolicyChange {
        principal: q.principal,
        allow: q.allow,
        rules: q.rules,
        egress,
        signed: q.signed,
    }
}

/// The protocol that a removal names: TCP where it names none.
pub open spec fn named_proto(q: Option<String>) -> Protocol {
    match q {
        Some(s) => proto_of(s@),
        None => Protocol::Tcp,
    }
}

/// The protocol that a removal names.
pub fn removed_proto(q: &Option<String>) -> (r: Protocol)
    ensures
        r == named_proto(*q),
{
    match q {
        Some(s) => proto_parse(s.as_str()),
        None => Protocol::Tcp,
    }
}

/// A template as a client registers it.
#[derive(Debug)]
pub struct TemplateReq {
    pub name: String,
    pub rootfs_template: String,
    pub snapshot_mem: Option<String>,
    pub snapshot_vmstate: Option<String>,
    pub vcpus: u32,
    pub mem_mib: u32,
    pub kernel: String,
    pub boot_args: String,
}

/// Whether `t` is the template that a body registers.
pub open spec fn registers(q: TemplateReq, t: TemplateDef) -> bool {
    &&& t.name == q.name
    &&& t.rootfs_template == q.rootfs_template
    &&& t.snapshot == snapshot_of(q.snapshot_mem, q.snapshot_vmstate)
    &&& t.vcpus == q.vcpus
    &&& t.mem_mib == q.mem_mib
    &&& t.kernel == q.kernel
    &&& t.boot_args == q.boot_args
}

/// The template that a body registers. A snapshot is both of its files.
pub fn to_template(q: TemplateReq) -> (t: TemplateDef)
    ensures
        registers(q, t),
{
    let snapshot = match (q.snapshot_mem, q.snapshot_vmstate) {
        (Some(m), Some(v)) => Some(SnapshotRef { mem_file: m, vmstate: v }),
        _ => None,
    };
    TemplateDef {
        name: q.name,
        rootfs_template: q.rootfs_template,
        snapshot,
        vcpus: q.vcpus,
        mem_mib: q.mem_mib,
        kernel: q.kernel,
        boot_args: q.boot_args,
    }
}

/// Bound on one guest file operation, in milliseconds.
pub const GUEST_IO_TIMEOUT_MS: u64 = 60_000;

/// The slack added to an exec's own timeout so a wedged agent can't hold the
/// request forever, in milliseconds.
pub const EXEC_SLACK_MS: u64 = 15_000;

/// Whether `r` is how long an exec may take, in milliseconds, or why it is not
/// run.
pub open spec fn limits_exec(q: ExecRequest, r: Result<u128, ApiError>) -> bool {
    if q.cmd@.len() == 0 {
        r matches Err(e) && e.says(400, "cmd is required"@)
    } else {
        r == Ok::<u128, ApiError>(
            ((match q.timeout_ms {
                Some(t) => t,
                None => DEFAULT_EXEC_TIMEOUT_MS,
            }) + EXEC_SLACK_MS) as u128,
        )
    }
}

/// How long an exec may take, in milliseconds, or why it is not run.
pub fn exec_limit(q: &ExecRequest) -> (r: Result<u128, ApiError>)
    ensures
        limits_exec(*q, r),
{
    if q.cmd.as_str().is_empty() {
        return Err(ApiError { status: 400, message: "cmd is required".to_string() });
    }
    let own: u64 = match q.timeout_ms {
        Some(t) => t,
        None => DEFAULT_EXEC_TIMEOUT_MS,
    };
    Ok(own as u128 + EXEC_SLACK_MS as u128)
}

/// Whether `r` is what is written to a file: text is encoded, bytes come encoded,
/// and exactly one of them is given.
pub open spec fn writes(
    content: Option<String>,
    content_b64: Option<String>,
    r: Result<String, ApiError>,
) -> bool {
    match (content, content_b64) {
        (Some(t), None) => r matches Ok(s) && s@ == base64_text(vstd::utf8::encode_utf8(t@)),
        (None, Some(b)) => r == Ok::<String, ApiError>(b),
        (None, None) => r matches Err(e) && e.says(
            400,
            "one of content or content_b64 is required"@,
        ),
        (Some(_), Some(_)) => r matches Err(e) && e.says(
            400,
            "give content or content_b64, not both"@,
        ),
    }
}

/// What is written to a file.
pub fn to_write(content: Option<String>, content_b64: Option<String>) -> (r: Result<String, ApiError>)
    ensures
        writes(content, content_b64, r),
{
    match (content, content_b64) {
        (Some(t), None) => Ok(b64_encode(t.as_str().as_bytes())),
        (None, Some(b)) => Ok(b),
        (None, None) => Err(
            ApiError {
                status: 400,
                message: "one of content or content_b64 is required".to_string(),
            },
        ),
        (Some(_), Some(_)) => Err(
            ApiError { status: 400, message: "give content or content_b64, not both".to_string() },
        ),
    }
}

// ---- laws ----

/// **Law.** What the host shows of a VM can be asked for again: a create with the
/// names that a record is shown with asks for the values of the record, and the
/// forwards that are shown ask for the same ports inside.
pub proof fn law_what_is_shown_can_be_asked_for(
    rec: VmRecord,
    shown: VmResp<'_>,
    q: CreateReq,
    c: CreateVm,
)
    requires
        shows_vm(shown, rec),
        asks(q, c),
        q.id is Some && q.id->0@ == shown.id@,
        q.egress@ == shown.egress@,
        q.lifecycle@ == shown.lifecycle@,
        q.restart@ == shown.restart@,
        q.ingress@.len() == shown.ingress@.len(),
        forall|i: int|
            0 <= i < q.ingress@.len() ==> (#[trigger] q.ingress@[i]).vm_port
                == shown.ingress@[i].vm_port && q.ingress@[i].proto@ == shown.ingress@[i].proto@,
    ensures
        c.id is Some && c.id->0.value() == rec.id.value(),
        c.egress == rec.egress,
        c.lifecycle == rec.lifecycle,
        c.restart == rec.restart,
        c.ingress@.len() == rec.ingress@.len(),
        forall|i: int|
            0 <= i < rec.ingress@.len() ==> (#[trigger] c.ingress@[i]).vm_port
                == rec.ingress@[i].vm_port && c.ingress@[i].proto == rec.ingress@[i].proto,
{
    law_parse_reads_what_was_rendered(rec.id);
    law_stored_names_read_back(
        rec.lifecycle,
        rec.restart,
        rec.state,
        rec.egress,
        Protocol::Tcp,
    );
    reveal_strlit("ephemeral");
    reveal_strlit("durable");
    reveal_strlit("never");
    reveal_strlit("on_failure");
    reveal_strlit("always");
    assert("ephemeral"@.len() == 9);
    assert("durable"@.len() == 7);
    assert("never"@.len() == 5);
    assert("on_failure"@.len() == 10);
    assert("always"@.len() == 6);

    assert forall|i: int| 0 <= i < rec.ingress@.len() implies (#[trigger] c.ingress@[i]).vm_port
        == rec.ingress@[i].vm_port && c.ingress@[i].proto == rec.ingress@[i].proto by {
        assert(shows_forward(shown.ingress@[i], rec.ingress@[i]));
        assert(q.ingress@[i].vm_port == shown.ingress@[i].vm_port);
        law_stored_names_read_back(
            rec.lifecycle,
            rec.restart,
            rec.state,
            rec.egress,
            rec.ingress@[i].proto,
        );
    }
}

/// **Law.** A create is passed on whole: the template, the shape, the principal,
/// the rules of either kind, the labels and the signature are those of the body,
/// and no host port is taken from it.
pub proof fn law_a_create_is_passed_on_whole(q: CreateReq, c: CreateVm)
    requires
        asks(q, c),
    ensures
        c.template == q.template,
        c.vcpus == q.vcpus,
        c.mem_mib == q.mem_mib,
        c.principal == q.principal,
        c.allow == q.allow,
        c.rules == q.rules,
        c.labels == q.labels,
        c.signed == q.signed,
        c.id is Some <==> q.id is Some,
        forall|i: int| 0 <= i < c.ingress@.len() ==> (#[trigger] c.ingress@[i]).host_port == 0,
{
}

/// **Law.** A policy body that says nothing changes nothing: the policy that it
/// comes to is the one that the VM has. An egress mode that is not known counts
/// as not said, and a mode that is named is the one asked for.
pub proof fn law_an_empty_change_changes_nothing(
    q: PolicyReq,
    c: PolicyChange,
    rec: VmRecord,
    o: Outcome,
)
    requires
        asks_change(q, c),
        merged(rec, c, o),
    ensures
        q.egress is None ==> o.egress == rec.egress,
        q.egress matches Some(s) ==> (s@ != "allow"@ && s@ != "proxy"@ && s@ != "deny"@ ==> o.egress
            == rec.egress),
        q.egress matches Some(s) ==> forall|e: EgressMode|
            s@ == #[trigger] egress_name(e) ==> o.egress == e,
        q.principal is None ==> o.principal == rec.principal,
        q.principal is Some ==> o.principal == q.principal,
        q.allow is None ==> o.allow == rec.allow,
        q.allow is Some ==> o.allow == q.allow->0,
        q.rules is None ==> o.rules == rec.rules,
        q.rules is Some ==> o.rules == q.rules->0,
{
    assert forall|e: EgressMode| q.egress is Some && q.egress->0@ == #[trigger] egress_name(
        e,
    ) implies o.egress == e by {
        law_stored_names_read_back(rec.lifecycle, rec.restart, rec.state, e, Protocol::Tcp);
    }
}

/// **Law.** Whose fault a failure is shows in its status: what is not there is not
/// found; what cannot be now, for want of room or of the right state, is in
/// conflict; a rule that cannot be read is the caller's mistake; and everything
/// else is the host's.
pub proof fn law_the_status_says_whose_fault_it_is(e: Error)
    ensures
        status_of(e) == 404 <==> e is UnknownVm || e is UnknownTemplate || e is UnknownForward,
        status_of(e) == 409 <==> e is SlotsExhausted || e is PortsExhausted || e is PoolFull || e
            is InvalidState || e is VmExists,
        status_of(e) == 400 <==> e is InvalidRule,
        status_of(e) == 500 <==> e is SignedMismatch || e is Store || e is Component,
{
}

/// **Law.** A template is registered with a snapshot exactly where both of its
/// files are named, each as what it is.
pub proof fn law_a_snapshot_is_both_of_its_files(q: TemplateReq, t: TemplateDef)
    requires
        registers(q, t),
    ensures
        t.snapshot is Some <==> q.snapshot_mem is Some && q.snapshot_vmstate is Some,
        t.snapshot matches Some(s) ==> s.mem_file == q.snapshot_mem->0 && s.vmstate
            == q.snapshot_vmstate->0,
        t.vcpus == q.vcpus,
        t.mem_mib == q.mem_mib,
        t.kernel == q.kernel,
        t.boot_args == q.boot_args,
        t.name == q.name,
        t.rootfs_template == q.rootfs_template,
{
}

/// **Law.** A command is always given longer than it asked to run for, so that
/// the agent's own timeout is what ends it; one that is empty is not run.
pub proof fn law_an_exec_outlasts_its_own_timeout(q: ExecRequest, r: Result<u128, ApiError>)
    requires
        limits_exec(q, r),
    ensures
        r is Err <==> q.cmd@.len() == 0,
        r is Ok && q.timeout_ms is Some ==> r->Ok_0 == q.timeout_ms->0 + EXEC_SLACK_MS && r->Ok_0
            > q.timeout_ms->0,
        r is Ok && q.timeout_ms is None ==> r->Ok_0 == DEFAULT_EXEC_TIMEOUT_MS + EXEC_SLACK_MS,
{
}

/// **Law.** A file is written with exactly one content: none is refused, and two
/// are.
pub proof fn law_a_write_has_one_content(
    content: Option<String>,
    content_b64: Option<String>,
    r: Result<String, ApiError>,
)
    requires
        writes(content, content_b64, r),
    ensures
        r is Ok <==> (content is Some) != (content_b64 is Some),
        r is Ok && content_b64 is Some ==> r->Ok_0 == content_b64->0,
        r is Ok && content is Some ==> r->Ok_0@ == base64_text(
            vstd::utf8::encode_utf8(content->0@),
        ),
        r matches Err(e) ==> e.status == 400,
{
}

/// **Law.** A removal that names no protocol means TCP, and one that names a
/// forward's own protocol means that one.
pub proof fn law_a_removal_names_its_forward(q: Option<String>, p: Protocol)
    ensures
        q is None ==> named_proto(q) == Protocol::Tcp,
        q is Some && q->0@ == p.name() ==> named_proto(q) == p,
{
    law_stored_names_read_back(
        Lifecycle::Durable,
        RestartPolicy::Never,
        crate::control_plane::types::VmState::Running,
        EgressMode::Deny,
        p,
    );
}

} // verus!
