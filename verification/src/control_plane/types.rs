//! Control-plane domain types (also the durable record shapes).

use crate::common::identify::SignedPolicy;
use crate::common::ids::{
    from_be, is_uuid, law_parse_reads_what_was_rendered, uuid_bytes, SlotId, VmId, SLOT_MAX,
};
use crate::common::network::{EgressMode, PortForward, Protocol};
use crate::common::runtime::SnapshotRef;
use crate::common::storage::PoolStats;
use crate::control_plane::error::Error;
use crate::text::{chars_of, same};
use std::collections::HashMap;
use vstd::prelude::*;
use vstd::string::*;

verus! {

/// Free-form key/value labels attached to a VM.
pub type Labels = HashMap<String, String>;

/// Whether a stopped VM's resources are reclaimed.
#[derive(Clone, Copy, Debug, PartialEq, Eq, Structural)]
pub enum Lifecycle {
    /// On stop/exit, everything (storage + placement) is torn down.
    Ephemeral,
    /// On stop/exit, storage persists; only placement (slot/network) is freed.
    Durable,
}

/// What to do when a VM exits unexpectedly.
#[derive(Clone, Copy, Debug, PartialEq, Eq, Structural)]
pub enum RestartPolicy {
    Never,
    OnFailure,
    Always,
}

/// Lifecycle state of a VM record.
#[derive(Clone, Copy, Debug, PartialEq, Eq, Structural)]
pub enum VmState {
    Creating,
    Running,
    Suspended,
    Stopped,
    Failed,
}

impl Lifecycle {
    /// The stored name.
    pub open spec fn name(self) -> Seq<char> {
        match self {
            Lifecycle::Ephemeral => "ephemeral"@,
            Lifecycle::Durable => "durable"@,
        }
    }

    /// The lifecycle stored under a name.
    pub open spec fn named(s: Seq<char>) -> Option<Self> {
        if s == "ephemeral"@ {
            Some(Lifecycle::Ephemeral)
        } else if s == "durable"@ {
            Some(Lifecycle::Durable)
        } else {
            None
        }
    }

    pub fn as_str(self) -> (s: &'static str)
        ensures
            s@ == self.name(),
    {
        match self {
            Lifecycle::Ephemeral => "ephemeral",
            Lifecycle::Durable => "durable",
        }
    }

    pub fn parse(s: &str) -> (r: Option<Self>)
        ensures
            r == Lifecycle::named(s@),
    {
        if same(s, "ephemeral") {
            Some(Lifecycle::Ephemeral)
        } else if same(s, "durable") {
            Some(Lifecycle::Durable)
        } else {
            None
        }
    }
}

impl RestartPolicy {
    /// The stored name.
    pub open spec fn name(self) -> Seq<char> {
        match self {
            RestartPolicy::Never => "never"@,
            RestartPolicy::OnFailure => "on_failure"@,
            RestartPolicy::Always => "always"@,
        }
    }

    /// The policy stored under a name.
    pub open spec fn named(s: Seq<char>) -> Option<Self> {
        if s == "never"@ {
            Some(RestartPolicy::Never)
        } else if s == "on_failure"@ {
            Some(RestartPolicy::OnFailure)
        } else if s == "always"@ {
            Some(RestartPolicy::Always)
        } else {
            None
        }
    }

    pub fn as_str(self) -> (s: &'static str)
        ensures
            s@ == self.name(),
    {
        match self {
            RestartPolicy::Never => "never",
            RestartPolicy::OnFailure => "on_failure",
            RestartPolicy::Always => "always",
        }
    }

    pub fn parse(s: &str) -> (r: Option<Self>)
        ensures
            r == RestartPolicy::named(s@),
    {
        if same(s, "never") {
            Some(RestartPolicy::Never)
        } else if same(s, "on_failure") {
            Some(RestartPolicy::OnFailure)
        } else if same(s, "always") {
            Some(RestartPolicy::Always)
        } else {
            None
        }
    }
}

impl VmState {
    /// The stored name.
    pub open spec fn name(self) -> Seq<char> {
        match self {
            VmState::Creating => "creating"@,
            VmState::Running => "running"@,
            VmState::Suspended => "suspended"@,
            VmState::Stopped => "stopped"@,
            VmState::Failed => "failed"@,
        }
    }

    /// The state stored under a name.
    pub open spec fn named(s: Seq<char>) -> Option<Self> {
        if s == "creating"@ {
            Some(VmState::Creating)
        } else if s == "running"@ {
            Some(VmState::Running)
        } else if s == "suspended"@ {
            Some(VmState::Suspended)
        } else if s == "stopped"@ {
            Some(VmState::Stopped)
        } else if s == "failed"@ {
            Some(VmState::Failed)
        } else {
            None
        }
    }

    pub fn as_str(self) -> (s: &'static str)
        ensures
            s@ == self.name(),
    {
        match self {
            VmState::Creating => "creating",
            VmState::Running => "running",
            VmState::Suspended => "suspended",
            VmState::Stopped => "stopped",
            VmState::Failed => "failed",
        }
    }

    pub fn parse(s: &str) -> (r: Option<Self>)
        ensures
            r == VmState::named(s@),
    {
        if same(s, "creating") {
            Some(VmState::Creating)
        } else if same(s, "running") {
            Some(VmState::Running)
        } else if same(s, "suspended") {
            Some(VmState::Suspended)
        } else if same(s, "stopped") {
            Some(VmState::Stopped)
        } else if same(s, "failed") {
            Some(VmState::Failed)
        } else {
            None
        }
    }
}

/// The stored name of an egress mode.
pub open spec fn egress_name(e: EgressMode) -> Seq<char> {
    match e {
        EgressMode::Allow => "allow"@,
        EgressMode::Proxy => "proxy"@,
        EgressMode::Deny => "deny"@,
    }
}

/// The egress mode stored under a name.
pub open spec fn egress_named(s: Seq<char>) -> Option<EgressMode> {
    if s == "allow"@ {
        Some(EgressMode::Allow)
    } else if s == "proxy"@ {
        Some(EgressMode::Proxy)
    } else if s == "deny"@ {
        Some(EgressMode::Deny)
    } else {
        None
    }
}

/// Map an [`EgressMode`] to its stored string.
pub fn egress_str(e: EgressMode) -> (s: &'static str)
    ensures
        s@ == egress_name(e),
{
    match e {
        EgressMode::Allow => "allow",
        EgressMode::Proxy => "proxy",
        EgressMode::Deny => "deny",
    }
}

/// Map a stored string to its [`EgressMode`].
pub fn egress_parse(s: &str) -> (r: Option<EgressMode>)
    ensures
        r == egress_named(s@),
{
    if same(s, "allow") {
        Some(EgressMode::Allow)
    } else if same(s, "proxy") {
        Some(EgressMode::Proxy)
    } else if same(s, "deny") {
        Some(EgressMode::Deny)
    } else {
        None
    }
}

/// The stored name of a protocol.
pub fn proto_str(p: Protocol) -> (s: &'static str)
    ensures
        s@ == p.name(),
{
    match p {
        Protocol::Tcp => "tcp",
        Protocol::Udp => "udp",
    }
}

/// Whether `s` is `udp` in any mix of cases.
pub open spec fn spells_udp(s: Seq<char>) -> bool {
    s.len() == 3 && (s[0] == 'u' || s[0] == 'U') && (s[1] == 'd' || s[1] == 'D') && (s[2] == 'p'
        || s[2] == 'P')
}

/// The protocol a name stands for: `udp` in any case, and TCP for anything else.
pub fn proto_parse(s: &str) -> (p: Protocol)
    ensures
        p == (if spells_udp(s@) {
            Protocol::Udp
        } else {
            Protocol::Tcp
        }),
{
    let v = chars_of(s);
    if v.len() == 3 && (v[0] == 'u' || v[0] == 'U') && (v[1] == 'd' || v[1] == 'D') && (v[2] == 'p'
        || v[2] == 'P') {
        Protocol::Udp
    } else {
        Protocol::Tcp
    }
}

/// **Law.** What is stored of a lifecycle, a restart policy, a state, an egress
/// mode or a protocol reads back as the same value.
pub proof fn law_stored_names_read_back(
    l: Lifecycle,
    r: RestartPolicy,
    v: VmState,
    e: EgressMode,
    p: Protocol,
)
    ensures
        Lifecycle::named(l.name()) == Some(l),
        RestartPolicy::named(r.name()) == Some(r),
        VmState::named(v.name()) == Some(v),
        egress_named(egress_name(e)) == Some(e),
        spells_udp(p.name()) == (p == Protocol::Udp),
{
    reveal_strlit("ephemeral");
    reveal_strlit("durable");
    reveal_strlit("never");
    reveal_strlit("on_failure");
    reveal_strlit("always");
    reveal_strlit("creating");
    reveal_strlit("running");
    reveal_strlit("suspended");
    reveal_strlit("stopped");
    reveal_strlit("failed");
    reveal_strlit("allow");
    reveal_strlit("proxy");
    reveal_strlit("deny");
    reveal_strlit("tcp");
    reveal_strlit("udp");
    assert("ephemeral"@.len() == 9 && "durable"@.len() == 7);
    assert("never"@.len() == 5 && "on_failure"@.len() == 10 && "always"@.len() == 6);
    assert("creating"@.len() == 8 && "running"@[0] == 'r' && "stopped"@[0] == 's'
        && "suspended"@.len() == 9 && "failed"@.len() == 6 && "running"@.len() == 7
        && "stopped"@.len() == 7);
    assert("allow"@[0] == 'a' && "proxy"@[0] == 'p' && "deny"@.len() == 4);
    assert("tcp"@[0] == 't' && "udp"@[0] == 'u' && "udp"@[1] == 'd' && "udp"@[2] == 'p');
}

/// A registered template: the resume point (disk + optional snapshot) plus the
/// machine config it was baked with.
#[derive(Debug)]
pub struct TemplateDef {
    pub name: String,
    /// Storage template (LV) name to snapshot for each VM's rootfs.
    pub rootfs_template: String,
    /// Memory+vmstate snapshot; `None` means fresh-boot only.
    pub snapshot: Option<SnapshotRef>,
    pub vcpus: u32,
    pub mem_mib: u32,
    pub kernel: String,
    pub boot_args: String,
}

/// Durable per-VM record.
#[derive(Debug)]
pub struct VmRecord {
    pub id: VmId,
    /// Placement slot; `None` when a durable VM is stopped.
    pub slot: Option<SlotId>,
    pub template: String,
    pub egress: EgressMode,
    pub ingress: Vec<PortForward>,
    pub labels: Labels,
    pub lifecycle: Lifecycle,
    pub restart: RestartPolicy,
    /// Per-VM machine-config overrides (forces a fresh boot when set).
    pub vcpus: Option<u32>,
    pub mem_mib: Option<u32>,
    pub state: VmState,
    pub rootfs_device: Option<String>,
    pub tap: Option<String>,
    /// Security principal the VM acts as. Deliberately mutable at runtime.
    pub principal: Option<String>,
    /// Domains routed through the egress proxy.
    pub allow: Vec<String>,
    /// Explicit egress rules.
    pub rules: Vec<String>,
    /// Bumped on every policy change.
    pub policy_gen: u64,
    /// The fleet's signature over the current policy, if it gave one.
    pub signed: Option<SignedPolicy>,
    /// This VM's own snapshot, from the last successful suspend. Preferred over
    /// the template's on resume.
    pub snapshot: Option<SnapshotRef>,
}

/// Request to create a VM.
#[derive(Debug)]
pub struct CreateVm {
    /// The identity to give the VM; a fresh one when absent.
    pub id: Option<VmId>,
    pub template: String,
    pub egress: EgressMode,
    pub ingress: Vec<PortForward>,
    pub labels: Labels,
    pub lifecycle: Lifecycle,
    pub restart: RestartPolicy,
    pub vcpus: Option<u32>,
    pub mem_mib: Option<u32>,
    pub principal: Option<String>,
    pub allow: Vec<String>,
    pub rules: Vec<String>,
    pub signed: Option<SignedPolicy>,
}

impl CreateVm {
    /// Whether this asks for no more than a template.
    pub open spec fn is_minimal(self, template: Seq<char>) -> bool {
        &&& self.template@ == template
        &&& self.id is None
        &&& self.egress == EgressMode::Deny
        &&& self.ingress@ == Seq::<PortForward>::empty()
        &&& self.labels@ == Map::<String, String>::empty()
        &&& self.lifecycle == Lifecycle::Ephemeral
        &&& self.restart == RestartPolicy::Never
        &&& self.vcpus is None
        &&& self.mem_mib is None
        &&& self.principal is None
        &&& self.allow@ == Seq::<String>::empty()
        &&& self.rules@ == Seq::<String>::empty()
        &&& self.signed is None
    }

    /// Minimal request for `template` with safe defaults (ephemeral, deny, no
    /// restart, template machine-config).
    pub fn new(template: &str) -> (r: Self)
        ensures
            r.is_minimal(template@),
    {
        CreateVm {
            id: None,
            template: template.to_string(),
            egress: EgressMode::Deny,
            ingress: Vec::new(),
            labels: HashMap::new(),
            lifecycle: Lifecycle::Ephemeral,
            restart: RestartPolicy::Never,
            vcpus: None,
            mem_mib: None,
            principal: None,
            allow: Vec::new(),
            rules: Vec::new(),
            signed: None,
        }
    }
}

/// Aggregate host statistics (admin-only; never exposed to guests).
#[derive(Debug)]
pub struct Stats {
    pub pool: PoolStats,
    /// Disk taken by suspension snapshots, where it could be measured.
    pub snapshot_bytes: Option<u64>,
    pub slots_used: usize,
    pub slots_total: usize,
    pub vms: usize,
}

/// A forward as it was once stored, in one text with the others of its VM.
#[derive(Debug)]
pub struct BlobForward {
    pub host_port: u16,
    pub vm_port: u16,
    pub proto: String,
}

/// Whether `r` is the forward that such an entry was.
pub open spec fn was_forward(f: BlobForward, r: PortForward) -> bool {
    &&& r.host_port == f.host_port
    &&& r.vm_port == f.vm_port
    &&& r.proto == (if f.proto@ == "udp"@ {
        Protocol::Udp
    } else {
        Protocol::Tcp
    })
}

/// **Law.** A forward that was stored the old way is the same one still: its two
/// ports are not mixed up, and its protocol is the one that was stored.
pub proof fn law_an_old_forward_is_kept(old: PortForward, f: BlobForward, r: PortForward)
    requires
        f.host_port == old.host_port,
        f.vm_port == old.vm_port,
        f.proto@ == old.proto.name(),
        was_forward(f, r),
    ensures
        r == old,
{
    reveal_strlit("tcp");
    reveal_strlit("udp");
    assert("tcp"@.len() == 3);
    assert("udp"@.len() == 3);
    assert("tcp"@[0] != "udp"@[0]);
}

/// The forward that such an entry was: UDP under that very name, else TCP.
pub fn forward_from_blob(f: &BlobForward) -> (r: PortForward)
    ensures
        was_forward(*f, r),
{
    PortForward {
        host_port: f.host_port,
        vm_port: f.vm_port,
        proto: if same(f.proto.as_str(), "udp") {
            Protocol::Udp
        } else {
            Protocol::Tcp
        },
    }
}

// ---- rows of the store ----

/// A row of the templates table.
#[derive(Debug)]
pub struct TemplateRow {
    pub name: String,
    pub rootfs_template: String,
    pub snapshot_mem: Option<String>,
    pub snapshot_vmstate: Option<String>,
    pub vcpus: u32,
    pub mem_mib: u32,
    pub kernel: String,
    pub boot_args: String,
}

/// The snapshot that two stored paths make: one only when both are there.
pub open spec fn snapshot_of(mem: Option<String>, vmstate: Option<String>) -> Option<SnapshotRef> {
    match (mem, vmstate) {
        (Some(m), Some(v)) => Some(SnapshotRef { mem_file: m, vmstate: v }),
        _ => None,
    }
}

/// The template that a row describes.
pub open spec fn template_in(r: TemplateRow) -> TemplateDef {
    TemplateDef {
        name: r.name,
        rootfs_template: r.rootfs_template,
        snapshot: snapshot_of(r.snapshot_mem, r.snapshot_vmstate),
        vcpus: r.vcpus,
        mem_mib: r.mem_mib,
        kernel: r.kernel,
        boot_args: r.boot_args,
    }
}

/// The template that a row describes.
pub fn template_from_row(r: TemplateRow) -> (t: TemplateDef)
    ensures
        t == template_in(r),
{
    let snapshot = match (r.snapshot_mem, r.snapshot_vmstate) {
        (Some(m), Some(v)) => Some(SnapshotRef { mem_file: m, vmstate: v }),
        _ => None,
    };
    TemplateDef {
        name: r.name,
        rootfs_template: r.rootfs_template,
        snapshot,
        vcpus: r.vcpus,
        mem_mib: r.mem_mib,
        kernel: r.kernel,
        boot_args: r.boot_args,
    }
}

/// Whether `r` is the row that a template is stored as.
pub open spec fn stores_template(t: TemplateDef, r: TemplateRow) -> bool {
    &&& r.name == t.name
    &&& r.rootfs_template == t.rootfs_template
    &&& r.vcpus == t.vcpus
    &&& r.mem_mib == t.mem_mib
    &&& r.kernel == t.kernel
    &&& r.boot_args == t.boot_args
    &&& r.snapshot_mem is Some == t.snapshot is Some
    &&& snapshot_of(r.snapshot_mem, r.snapshot_vmstate) == t.snapshot
}

/// The row that a template is stored as.
pub fn template_to_row(t: TemplateDef) -> (r: TemplateRow)
    ensures
        stores_template(t, r),
{
    let (mem, vmstate) = match t.snapshot {
        Some(s) => (Some(s.mem_file), Some(s.vmstate)),
        None => (None, None),
    };
    TemplateRow {
        name: t.name,
        rootfs_template: t.rootfs_template,
        snapshot_mem: mem,
        snapshot_vmstate: vmstate,
        vcpus: t.vcpus,
        mem_mib: t.mem_mib,
        kernel: t.kernel,
        boot_args: t.boot_args,
    }
}

/// A row of the VMs table, with the values that are stored as text still as
/// text, and the VM's forwards beside it.
#[derive(Debug)]
pub struct VmRow {
    pub id: String,
    pub slot: Option<u16>,
    pub template: String,
    pub egress: String,
    pub forwards: Vec<PortForward>,
    pub labels: Labels,
    pub lifecycle: String,
    pub restart: String,
    pub vcpus: Option<u32>,
    pub mem_mib: Option<u32>,
    pub state: String,
    pub rootfs_device: Option<String>,
    pub tap: Option<String>,
    pub principal: Option<String>,
    pub allow: Vec<String>,
    pub rules: Vec<String>,
    pub policy_gen: u64,
    pub signed: Option<SignedPolicy>,
    pub snapshot_mem: Option<String>,
    pub snapshot_vmstate: Option<String>,
}

/// What is wrong with a row, if anything: the first of its texts that does not
/// read, in column order.
pub open spec fn row_fault(r: VmRow) -> Option<Seq<char>> {
    if !is_uuid(r.id@) {
        Some("bad vm id"@)
    } else if egress_named(r.egress@) is None {
        Some("bad egress"@)
    } else if Lifecycle::named(r.lifecycle@) is None {
        Some("bad lifecycle"@)
    } else if RestartPolicy::named(r.restart@) is None {
        Some("bad restart"@)
    } else if VmState::named(r.state@) is None {
        Some("bad state"@)
    } else {
        None
    }
}

/// Whether `v` is the record that row `r` holds.
pub open spec fn row_holds(r: VmRow, v: VmRecord) -> bool {
    &&& v.id.value() == from_be(uuid_bytes(r.id@))
    &&& match r.slot {
        Some(n) => if n <= SLOT_MAX {
            v.slot matches Some(s) && s.value() == n
        } else {
            v.slot is None
        },
        None => v.slot is None,
    }
    &&& v.template == r.template
    &&& Some(v.egress) == egress_named(r.egress@)
    &&& v.ingress == r.forwards
    &&& v.labels == r.labels
    &&& Some(v.lifecycle) == Lifecycle::named(r.lifecycle@)
    &&& Some(v.restart) == RestartPolicy::named(r.restart@)
    &&& v.vcpus == r.vcpus
    &&& v.mem_mib == r.mem_mib
    &&& Some(v.state) == VmState::named(r.state@)
    &&& v.rootfs_device == r.rootfs_device
    &&& v.tap == r.tap
    &&& v.principal == r.principal
    &&& v.allow == r.allow
    &&& v.rules == r.rules
    &&& v.policy_gen == r.policy_gen
    &&& v.signed == r.signed
    &&& v.snapshot == snapshot_of(r.snapshot_mem, r.snapshot_vmstate)
}

/// The record that a row holds, or what is wrong with the row.
pub fn vm_from_row(r: VmRow) -> (res: Result<VmRecord, Error>)
    ensures
        match res {
            Ok(v) => row_fault(r) is None && row_holds(r, v),
            Err(e) => e matches Error::Store(m) && row_fault(r) == Some(m@),
        },
{
    let id = match VmId::parse(r.id.as_str()) {
        Some(id) => id,
        None => {
            return Err(Error::Store("bad vm id".to_string()));
        },
    };
    let egress = match egress_parse(r.egress.as_str()) {
        Some(e) => e,
        None => {
            return Err(Error::Store("bad egress".to_string()));
        },
    };
    let lifecycle = match Lifecycle::parse(r.lifecycle.as_str()) {
        Some(l) => l,
        None => {
            return Err(Error::Store("bad lifecycle".to_string()));
        },
    };
    let restart = match RestartPolicy::parse(r.restart.as_str()) {
        Some(p) => p,
        None => {
            return Err(Error::Store("bad restart".to_string()));
        },
    };
    let state = match VmState::parse(r.state.as_str()) {
        Some(s) => s,
        None => {
            return Err(Error::Store("bad state".to_string()));
        },
    };
    let slot = match r.slot {
        Some(n) => match SlotId::new(n) {
            Ok(s) => Some(s),
            Err(_) => None,
        },
        None => None,
    };
    let snapshot = match (r.snapshot_mem, r.snapshot_vmstate) {
        (Some(m), Some(v)) => Some(SnapshotRef { mem_file: m, vmstate: v }),
        _ => None,
    };
    Ok(
        VmRecord {
            id,
            slot,
            template: r.template,
            egress,
            ingress: r.forwards,
            labels: r.labels,
            lifecycle,
            restart,
            vcpus: r.vcpus,
            mem_mib: r.mem_mib,
            state,
            rootfs_device: r.rootfs_device,
            tap: r.tap,
            principal: r.principal,
            allow: r.allow,
            rules: r.rules,
            policy_gen: r.policy_gen,
            signed: r.signed,
            snapshot,
        },
    )
}

/// **Law.** A stored template reads back as itself, and a stored snapshot keeps
/// its two files apart.
pub proof fn law_a_stored_template_reads_back(t: TemplateDef, r: TemplateRow)
    requires
        stores_template(t, r),
    ensures
        template_in(r) == t,
        t.snapshot matches Some(s) ==> r.snapshot_mem == Some(s.mem_file) && r.snapshot_vmstate
            == Some(s.vmstate),
{
}

/// Whether a row has what a record holds, in columns of their own.
pub open spec fn stored_as(w: VmRecord, r: VmRow) -> bool {
    &&& r.id@ == w.id.text()
    &&& r.slot == (match w.slot {
        Some(s) => Some(s.value()),
        None => None,
    })
    &&& r.template == w.template
    &&& r.egress@ == egress_name(w.egress)
    &&& r.forwards == w.ingress
    &&& r.labels == w.labels
    &&& r.lifecycle@ == w.lifecycle.name()
    &&& r.restart@ == w.restart.name()
    &&& r.vcpus == w.vcpus
    &&& r.mem_mib == w.mem_mib
    &&& r.state@ == w.state.name()
    &&& r.rootfs_device == w.rootfs_device
    &&& r.tap == w.tap
    &&& r.principal == w.principal
    &&& r.allow == w.allow
    &&& r.rules == w.rules
    &&& r.policy_gen == w.policy_gen
    &&& r.signed == w.signed
    &&& match w.snapshot {
        Some(s) => r.snapshot_mem == Some(s.mem_file) && r.snapshot_vmstate == Some(s.vmstate),
        None => r.snapshot_mem is None && r.snapshot_vmstate is None,
    }
}

/// **Law.** A stored record reads back as itself: no row that a record was stored
/// as is refused, and every field comes back from its own column.
pub proof fn law_a_stored_record_reads_back(w: VmRecord, r: VmRow, v: VmRecord)
    requires
        stored_as(w, r),
        w.slot matches Some(s) ==> s.value() <= SLOT_MAX,
    ensures
        row_fault(r) is None,
        row_holds(r, v) ==> {
            &&& v.id.value() == w.id.value()
            &&& v.slot is Some <==> w.slot is Some
            &&& v.slot is Some ==> v.slot->0.value() == w.slot->0.value()
            &&& v.template == w.template
            &&& v.egress == w.egress
            &&& v.ingress == w.ingress
            &&& v.labels == w.labels
            &&& v.lifecycle == w.lifecycle
            &&& v.restart == w.restart
            &&& v.vcpus == w.vcpus
            &&& v.mem_mib == w.mem_mib
            &&& v.state == w.state
            &&& v.rootfs_device == w.rootfs_device
            &&& v.tap == w.tap
            &&& v.principal == w.principal
            &&& v.allow == w.allow
            &&& v.rules == w.rules
            &&& v.policy_gen == w.policy_gen
            &&& v.signed == w.signed
            &&& v.snapshot == w.snapshot
        },
{
    law_parse_reads_what_was_rendered(w.id);
    law_stored_names_read_back(w.lifecycle, w.restart, w.state, w.egress, Protocol::Tcp);
}

/// **Law.** Who asks for no more than a template gets what is safe: no network
/// access and no way in, nothing kept, nothing restarted, the template's own
/// shape, and nobody's credentials.
pub proof fn law_the_defaults_are_safe(c: CreateVm, template: Seq<char>)
    requires
        c.is_minimal(template),
    ensures
        c.template@ == template,
        c.egress == EgressMode::Deny,
        c.ingress@.len() == 0,
        c.lifecycle == Lifecycle::Ephemeral,
        c.restart == RestartPolicy::Never,
        c.vcpus is None && c.mem_mib is None,
        c.principal is None && c.allow@.len() == 0 && c.rules@.len() == 0,
        c.id is None,
        c.signed is None,
{
}

} // verus!
