//! What is asked of Firecracker for each thing that is done to an instance, and
//! what its answers mean.

use crate::common::error::Error;
use crate::common::ids::{
    law_a_rendered_id_names_one_vm, law_parse_reads_what_was_rendered, VmId,
};
use crate::common::network::colon_hex;
use crate::common::runtime::{InstanceSpec, VmStatus};
use crate::paths::{join, joined};
use crate::text::{begins, concat2, parse_i32, same, signed_number, trim, trimmed};
use vstd::prelude::*;
use vstd::string::*;

verus! {

/// One call of Firecracker's API.
#[derive(Debug, PartialEq, Eq)]
pub enum ApiCall {
    /// Load a snapshot, paused.
    LoadSnapshot { vmstate: String, mem: String },
    MachineConfig { vcpus: u32, mem_mib: u32 },
    BootSource { kernel: String, boot_args: String },
    /// The root device, writable, with guest flushes honoured.
    Rootfs { path: String },
    /// The guest's NIC.
    Nic { tap: String, mac: String },
    /// The guest's vsock device.
    Vsock { cid: u32 },
    /// Resume a paused instance.
    Resume,
    /// Start a fresh one.
    InstanceStart,
    Pause,
    /// Write a full snapshot.
    CreateSnapshot { vmstate: String, mem: String },
    /// Ask the guest to shut down.
    CtrlAltDel,
}

/// The value of a field of a request's body.
#[derive(Debug, PartialEq, Eq)]
pub enum Field {
    Text(String),
    Number(u32),
    Flag(bool),
    /// An object of texts.
    Group(Vec<(&'static str, String)>),
}

/// A call as it goes over the API socket: the body is a JSON object.
#[derive(Debug, PartialEq, Eq)]
pub struct ApiRequest {
    pub method: &'static str,
    pub path: &'static str,
    pub body: Vec<(&'static str, Field)>,
}

/// Whether a field of a body has this name and this text.
pub open spec fn says(f: (&'static str, Field), name: Seq<char>, text: Seq<char>) -> bool {
    f.0@ == name && (f.1 matches Field::Text(t) && t@ == text)
}

/// Whether a field of a body has this name and this number.
pub open spec fn counts(f: (&'static str, Field), name: Seq<char>, n: u32) -> bool {
    f.0@ == name && f.1 == Field::Number(n)
}

/// Whether a field of a body has this name and this flag.
pub open spec fn flags(f: (&'static str, Field), name: Seq<char>, on: bool) -> bool {
    f.0@ == name && f.1 == Field::Flag(on)
}

/// Whether a field says that a memory file backs the instance.
pub open spec fn backs(f: (&'static str, Field), file: Seq<char>) -> bool {
    f.0@ == "mem_backend"@ && (f.1 matches Field::Group(g) && {
        &&& g@.len() == 2
        &&& g@[0].0@ == "backend_type"@
        &&& g@[0].1@ == "File"@
        &&& g@[1].0@ == "backend_path"@
        &&& g@[1].1@ == file
    })
}

/// Whether `b` is the body of a call.
pub open spec fn body_of(c: ApiCall, b: Seq<(&'static str, Field)>) -> bool {
    match c {
        ApiCall::LoadSnapshot { vmstate, mem } => {
            &&& b.len() == 4
            &&& says(b[0], "snapshot_path"@, vmstate@)
            &&& backs(b[1], mem@)
            &&& flags(b[2], "enable_diff_snapshots"@, false)
            &&& flags(b[3], "resume_vm"@, false)
        },
        ApiCall::MachineConfig { vcpus, mem_mib } => {
            &&& b.len() == 2
            &&& counts(b[0], "vcpu_count"@, vcpus)
            &&& counts(b[1], "mem_size_mib"@, mem_mib)
        },
        ApiCall::BootSource { kernel, boot_args } => {
            &&& b.len() == 2
            &&& says(b[0], "kernel_image_path"@, kernel@)
            &&& says(b[1], "boot_args"@, boot_args@)
        },
        ApiCall::Rootfs { path } => {
            &&& b.len() == 5
            &&& says(b[0], "drive_id"@, "rootfs"@)
            &&& says(b[1], "path_on_host"@, path@)
            &&& flags(b[2], "is_root_device"@, true)
            &&& flags(b[3], "is_read_only"@, false)
            &&& says(b[4], "cache_type"@, "Writeback"@)
        },
        ApiCall::Nic { tap, mac } => {
            &&& b.len() == 3
            &&& says(b[0], "iface_id"@, "eth0"@)
            &&& says(b[1], "host_dev_name"@, tap@)
            &&& says(b[2], "guest_mac"@, mac@)
        },
        ApiCall::Vsock { cid } => {
            &&& b.len() == 2
            &&& counts(b[0], "guest_cid"@, cid)
            &&& says(b[1], "uds_path"@, "v.sock"@)
        },
        ApiCall::Resume => b.len() == 1 && says(b[0], "state"@, "Resumed"@),
        ApiCall::InstanceStart => b.len() == 1 && says(b[0], "action_type"@, "InstanceStart"@),
        ApiCall::Pause => b.len() == 1 && says(b[0], "state"@, "Paused"@),
        ApiCall::CreateSnapshot { vmstate, mem } => {
            &&& b.len() == 3
            &&& says(b[0], "snapshot_type"@, "Full"@)
            &&& says(b[1], "snapshot_path"@, vmstate@)
            &&& says(b[2], "mem_file_path"@, mem@)
        },
        ApiCall::CtrlAltDel => b.len() == 1 && says(b[0], "action_type"@, "SendCtrlAltDel"@),
    }
}

/// The method of a call: what is there is patched, all else is put.
pub open spec fn method_of(c: ApiCall) -> Seq<char> {
    if c is Resume || c is Pause {
        "PATCH"@
    } else {
        "PUT"@
    }
}

/// The path of a call.
pub open spec fn path_of(c: ApiCall) -> Seq<char> {
    match c {
        ApiCall::LoadSnapshot { .. } => "/snapshot/load"@,
        ApiCall::MachineConfig { .. } => "/machine-config"@,
        ApiCall::BootSource { .. } => "/boot-source"@,
        ApiCall::Rootfs { .. } => "/drives/rootfs"@,
        ApiCall::Nic { .. } => "/network-interfaces/eth0"@,
        ApiCall::Vsock { .. } => "/vsock"@,
        ApiCall::Resume | ApiCall::Pause => "/vm"@,
        ApiCall::InstanceStart | ApiCall::CtrlAltDel => "/actions"@,
        ApiCall::CreateSnapshot { .. } => "/snapshot/create"@,
    }
}

fn text(s: &str) -> (f: Field)
    ensures
        f matches Field::Text(t) && t@ == s@,
{
    Field::Text(s.to_string())
}

impl ApiCall {
    /// The call as it goes over the socket.
    pub fn request(&self) -> (r: ApiRequest)
        ensures
            r.method@ == method_of(*self),
            r.path@ == path_of(*self),
            body_of(*self, r.body@),
    {
        let mut body: Vec<(&'static str, Field)> = Vec::new();
        let path: &'static str = match self {
            ApiCall::LoadSnapshot { vmstate, mem } => {
                let mut backend: Vec<(&'static str, String)> = Vec::new();
                backend.push(("backend_type", "File".to_string()));
                backend.push(("backend_path", mem.clone()));
                body.push(("snapshot_path", text(vmstate.as_str())));
                body.push(("mem_backend", Field::Group(backend)));
                body.push(("enable_diff_snapshots", Field::Flag(false)));
                body.push(("resume_vm", Field::Flag(false)));
                "/snapshot/load"
            },
            ApiCall::MachineConfig { vcpus, mem_mib } => {
                body.push(("vcpu_count", Field::Number(*vcpus)));
                body.push(("mem_size_mib", Field::Number(*mem_mib)));
                "/machine-config"
            },
            ApiCall::BootSource { kernel, boot_args } => {
                body.push(("kernel_image_path", text(kernel.as_str())));
                body.push(("boot_args", text(boot_args.as_str())));
                "/boot-source"
            },
            ApiCall::Rootfs { path } => {
                body.push(("drive_id", text("rootfs")));
                body.push(("path_on_host", text(path.as_str())));
                body.push(("is_root_device", Field::Flag(true)));
                body.push(("is_read_only", Field::Flag(false)));
                body.push(("cache_type", text("Writeback")));
                "/drives/rootfs"
            },
            ApiCall::Nic { tap, mac } => {
                body.push(("iface_id", text("eth0")));
                body.push(("host_dev_name", text(tap.as_str())));
                body.push(("guest_mac", text(mac.as_str())));
                "/network-interfaces/eth0"
            },
            ApiCall::Vsock { cid } => {
                body.push(("guest_cid", Field::Number(*cid)));
                body.push(("uds_path", text("v.sock")));
                "/vsock"
            },
            ApiCall::Resume => {
                body.push(("state", text("Resumed")));
                "/vm"
            },
            ApiCall::InstanceStart => {
                body.push(("action_type", text("InstanceStart")));
                "/actions"
            },
            ApiCall::Pause => {
                body.push(("state", text("Paused")));
                "/vm"
            },
            ApiCall::CreateSnapshot { vmstate, mem } => {
                body.push(("snapshot_type", text("Full")));
                body.push(("snapshot_path", text(vmstate.as_str())));
                body.push(("mem_file_path", text(mem.as_str())));
                "/snapshot/create"
            },
            ApiCall::CtrlAltDel => {
                body.push(("action_type", text("SendCtrlAltDel")));
                "/actions"
            },
        };
        let method: &'static str = match self {
            ApiCall::Resume | ApiCall::Pause => "PATCH",
            _ => "PUT",
        };
        ApiRequest { method, path, body }
    }
}

/// Whether `c` are the calls that define `spec`: the snapshot alone on resume,
/// since it carries the rest; otherwise the machine, the kernel, the rootfs, and
/// the NIC and vsock where there is one.
pub open spec fn defines(spec: InstanceSpec, c: Seq<ApiCall>) -> bool {
    match spec.resume_from {
        Some(s) => c.len() == 1 && c[0] == (ApiCall::LoadSnapshot {
            vmstate: s.vmstate,
            mem: s.mem_file,
        }),
        None => {
            let nic = if spec.tap@.len() > 0 {
                1int
            } else {
                0
            };
            let vsock = if spec.vsock_cid is Some {
                1int
            } else {
                0
            };
            &&& c.len() == 3 + nic + vsock
            &&& c[0] == (ApiCall::MachineConfig { vcpus: spec.vcpus, mem_mib: spec.mem_mib })
            &&& c[1] == (ApiCall::BootSource { kernel: spec.kernel, boot_args: spec.boot_args })
            &&& c[2] == (ApiCall::Rootfs { path: spec.rootfs_device })
            &&& nic == 1 ==> (c[3] matches ApiCall::Nic { tap, mac } && tap == spec.tap && mac@
                == colon_hex(spec.mac.0@))
            &&& vsock == 1 ==> c[3 + nic] == (ApiCall::Vsock { cid: spec.vsock_cid->0 })
        },
    }
}

/// The calls that define an instance.
pub fn define_calls(spec: &InstanceSpec) -> (c: Vec<ApiCall>)
    ensures
        defines(*spec, c@),
{
    let mut c: Vec<ApiCall> = Vec::new();
    if let Some(s) = &spec.resume_from {
        c.push(ApiCall::LoadSnapshot { vmstate: s.vmstate.clone(), mem: s.mem_file.clone() });
        return c;
    }
    c.push(ApiCall::MachineConfig { vcpus: spec.vcpus, mem_mib: spec.mem_mib });
    c.push(
        ApiCall::BootSource { kernel: spec.kernel.clone(), boot_args: spec.boot_args.clone() },
    );
    c.push(ApiCall::Rootfs { path: spec.rootfs_device.clone() });
    if !spec.tap.as_str().is_empty() {
        c.push(ApiCall::Nic { tap: spec.tap.clone(), mac: spec.mac.to_string() });
    }
    if let Some(cid) = spec.vsock_cid {
        c.push(ApiCall::Vsock { cid });
    }
    c
}

/// The call that starts an instance in this state: a resumed one is paused, a
/// fresh one not started.
pub open spec fn starts(state: Seq<char>) -> ApiCall {
    if state == "Paused"@ {
        ApiCall::Resume
    } else {
        ApiCall::InstanceStart
    }
}

/// The call that starts an instance in this state.
pub fn start_call(state: &str) -> (c: ApiCall)
    ensures
        c == starts(state@),
{
    if same(state, "Paused") {
        ApiCall::Resume
    } else {
        ApiCall::InstanceStart
    }
}

/// Whether `c` are the calls that suspend an instance, with its snapshot below
/// `snap_dir`.
pub open spec fn suspends(snap_dir: Seq<char>, c: Seq<ApiCall>) -> bool {
    &&& c.len() == 2
    &&& c[0] is Pause
    &&& c[1] matches ApiCall::CreateSnapshot { vmstate, mem } && vmstate@ == joined(
        snap_dir,
        "vmstate"@,
    ) && mem@ == joined(snap_dir, "mem"@)
}

/// The calls that suspend an instance: it is paused, then its snapshot is
/// written below `snap_dir`.
pub fn suspend_calls(snap_dir: &str) -> (c: Vec<ApiCall>)
    ensures
        suspends(snap_dir@, c@),
{
    let mut c: Vec<ApiCall> = Vec::new();
    c.push(ApiCall::Pause);
    c.push(
        ApiCall::CreateSnapshot { vmstate: join(snap_dir, "vmstate"), mem: join(snap_dir, "mem") },
    );
    c
}

/// What was seen of an instance.
#[derive(Debug)]
pub struct Seen {
    /// It is a child of this process that has exited.
    pub exited: bool,
    /// Its API socket is there.
    pub socket: bool,
    /// The state it answered with, if it answered.
    pub state: Option<String>,
    /// Its process is there.
    pub alive: bool,
}

/// What an instance's status is, by what was seen of it.
pub open spec fn status_seen(s: Seen) -> VmStatus {
    if s.exited {
        VmStatus::Stopped
    } else if !s.socket {
        if s.alive {
            VmStatus::Created
        } else {
            VmStatus::Absent
        }
    } else {
        match s.state {
            Some(t) => if t@ == "Running"@ {
                VmStatus::Running
            } else if t@ == "Paused"@ {
                VmStatus::Suspended
            } else {
                VmStatus::Created
            },
            None => if s.alive {
                VmStatus::Created
            } else {
                VmStatus::Stopped
            },
        }
    }
}

/// What an instance's status is, by what was seen of it.
pub fn status(s: &Seen) -> (r: VmStatus)
    ensures
        r == status_seen(*s),
{
    if s.exited {
        return VmStatus::Stopped;
    }
    if !s.socket {
        return if s.alive {
            VmStatus::Created
        } else {
            VmStatus::Absent
        };
    }
    match &s.state {
        Some(t) => if same(t.as_str(), "Running") {
            VmStatus::Running
        } else if same(t.as_str(), "Paused") {
            VmStatus::Suspended
        } else {
            VmStatus::Created
        },
        None => if s.alive {
            VmStatus::Created
        } else {
            VmStatus::Stopped
        },
    }
}

/// **Law.** An instance counts as running only where its API socket is there
/// and answers so, and no exit of it has been seen.
pub proof fn law_running_is_answered_for(s: Seen)
    requires
        status_seen(s) == VmStatus::Running,
    ensures
        s.socket,
        !s.exited,
        s.state matches Some(t) && t@ == "Running"@,
{
    reveal_strlit("Running");
    reveal_strlit("Paused");
}

/// What to do while waiting for the API socket.
#[derive(Debug)]
pub enum Boot {
    Ready,
    Wait,
    Failed(Error),
}

/// Whether `b` is what to do after looking for the API socket.
pub open spec fn looked(connected: bool, alive: bool, b: Boot) -> bool {
    if connected {
        b is Ready
    } else if alive {
        b is Wait
    } else {
        b matches Boot::Failed(Error::Backend(m)) && m@
            == "firecracker exited before its API socket was ready"@
    }
}

/// Decides what to do after looking for the API socket of a VMM that has just
/// been started.
pub fn after_look(connected: bool, alive: bool) -> (b: Boot)
    ensures
        looked(connected, alive, b),
{
    if connected {
        Boot::Ready
    } else if alive {
        Boot::Wait
    } else {
        Boot::Failed(
            Error::Backend("firecracker exited before its API socket was ready".to_string()),
        )
    }
}

/// What is said when the API socket did not appear in time.
pub fn no_socket() -> (e: Error)
    ensures
        e matches Error::Backend(m) && m@ == "timed out waiting for firecracker API socket"@,
{
    Error::Backend("timed out waiting for firecracker API socket".to_string())
}

// ---- where an instance's files are ----

/// The API socket of a VM.
pub fn socket_path(socket_dir: &str, vm: VmId) -> (s: String)
    ensures
        s@ == joined(socket_dir@, vm.text() + ".sock"@),
{
    join(socket_dir, concat2(vm.to_string().as_str(), ".sock").as_str())
}

/// The pidfile of a VM.
pub fn pidfile_path(state_dir: &str, vm: VmId) -> (s: String)
    ensures
        s@ == joined(state_dir@, vm.text() + ".pid"@),
{
    join(state_dir, concat2(vm.to_string().as_str(), ".pid").as_str())
}

/// The log of a VM's VMM.
pub fn log_path(state_dir: &str, vm: VmId) -> (s: String)
    ensures
        s@ == joined(state_dir@, vm.text() + ".log"@),
{
    join(state_dir, concat2(vm.to_string().as_str(), ".log").as_str())
}

/// The directory of a VM's own snapshots.
pub fn snap_dir(state_dir: &str, vm: VmId) -> (s: String)
    ensures
        s@ == joined(state_dir@, vm.text()),
{
    join(state_dir, vm.to_string().as_str())
}

/// **Law.** No two VMs share a file: below one directory, the sockets, pidfiles,
/// logs and snapshot directories of two VMs are at different places, so a VM
/// that runs is found again by its identity alone.
pub proof fn law_every_vm_has_its_own_files(dir: Seq<char>, a: VmId, b: VmId, suffix: Seq<char>)
    requires
        a != b,
    ensures
        joined(dir, a.text() + suffix) != joined(dir, b.text() + suffix),
        joined(dir, a.text()) != joined(dir, b.text()),
{
    law_parse_reads_what_was_rendered(a);
    law_parse_reads_what_was_rendered(b);
    let x = a.text();
    let y = b.text();
    assert(x.len() == 36 && y.len() == 36);
    reveal_strlit("/");
    assert forall|t: Seq<char>| #![trigger x + t]
        joined(dir, x + t) == joined(dir, y + t) implies x == y by {
        let p = x + t;
        let q = y + t;
        assert(p[0] == x[0] && q[0] == y[0]);
        assert(p.subrange(0, 1)[0] == p[0] && q.subrange(0, 1)[0] == q[0]);
        assert(!begins(p, "/"@) && !begins(q, "/"@));
        let n = joined(dir, p).len();
        assert(joined(dir, p).subrange(n - p.len(), n - t.len()) =~= x);
        assert(joined(dir, q).subrange(n - q.len(), n - t.len()) =~= y);
    }
    if x == y {
        law_a_rendered_id_names_one_vm(a, b);
    }
    assert(x + Seq::<char>::empty() =~= x && y + Seq::<char>::empty() =~= y);
}

/// The process that a pidfile names.
pub fn parse_pid(text: &str) -> (r: Option<i32>)
    ensures
        match r {
            Some(n) => signed_number(trimmed(text@), 10) == Some(n as int),
            None => signed_number(trimmed(text@), 10) is None,
        },
{
    parse_i32(trim(text).as_str(), 10)
}

/// Where the VMM and its files are.
#[derive(Debug)]
pub struct FirecrackerConfig {
    /// `firecracker` binary.
    pub bin: String,
    /// Directory for per-VM API sockets.
    pub socket_dir: String,
    /// Directory for per-VM pidfiles, logs, and suspend snapshots.
    pub state_dir: String,
    /// Where named network namespaces live.
    pub netns_dir: String,
    /// How long to wait for the API socket to appear after spawn.
    pub boot_timeout_ms: u64,
}

impl Default for FirecrackerConfig {
    fn default() -> (r: Self)
        ensures
            r.bin@ == "firecracker"@,
            r.socket_dir@ == "/run/iso/fc"@,
            r.state_dir@ == "/var/lib/iso/fc"@,
            r.netns_dir@ == "/var/run/netns"@,
            r.boot_timeout_ms == 10_000,
    {
        FirecrackerConfig {
            bin: "firecracker".to_string(),
            socket_dir: "/run/iso/fc".to_string(),
            state_dir: "/var/lib/iso/fc".to_string(),
            netns_dir: "/var/run/netns".to_string(),
            boot_timeout_ms: 10_000,
        }
    }
}

// ---- laws ----

/// What a body has under a name.
pub open spec fn field(b: Seq<(&'static str, Field)>, name: Seq<char>) -> Option<Field>
    decreases b.len(),
{
    if b.len() == 0 {
        None
    } else if b.last().0@ == name {
        Some(b.last().1)
    } else {
        field(b.drop_last(), name)
    }
}

/// The text that a body has under a name.
pub open spec fn text_field(b: Seq<(&'static str, Field)>, name: Seq<char>) -> Option<Seq<char>> {
    match field(b, name) {
        Some(Field::Text(t)) => Some(t@),
        _ => None,
    }
}

/// The text that an object has under a name.
pub open spec fn member(g: Seq<(&'static str, String)>, name: Seq<char>) -> Option<Seq<char>>
    decreases g.len(),
{
    if g.len() == 0 {
        None
    } else if g.last().0@ == name {
        Some(g.last().1@)
    } else {
        member(g.drop_last(), name)
    }
}

/// The text that an object inside a body has under a name.
pub open spec fn inner_field(
    b: Seq<(&'static str, Field)>,
    outer: Seq<char>,
    name: Seq<char>,
) -> Option<Seq<char>> {
    match field(b, outer) {
        Some(Field::Group(g)) => member(g@, name),
        _ => None,
    }
}

/// **Law.** A snapshot is loaded from the files that it was written to: for the
/// same two files, the device state that a create request names is the one that
/// the load request names, and the memory that the one writes backs the instance
/// that the other loads.
pub proof fn law_a_snapshot_is_loaded_from_where_it_was_written(
    vmstate: String,
    mem: String,
    w: Seq<(&'static str, Field)>,
    l: Seq<(&'static str, Field)>,
)
    requires
        body_of(ApiCall::CreateSnapshot { vmstate, mem }, w),
        body_of(ApiCall::LoadSnapshot { vmstate, mem }, l),
    ensures
        text_field(w, "snapshot_path"@) == text_field(l, "snapshot_path"@),
        text_field(w, "snapshot_path"@) == Some(vmstate@),
        text_field(w, "mem_file_path"@) == inner_field(l, "mem_backend"@, "backend_path"@),
        text_field(w, "mem_file_path"@) == Some(mem@),
        inner_field(l, "mem_backend"@, "backend_type"@) == Some("File"@),
        text_field(w, "snapshot_type"@) == Some("Full"@),
        field(l, "resume_vm"@) == Some(Field::Flag(false)),
        path_of(ApiCall::CreateSnapshot { vmstate, mem }) == "/snapshot/create"@,
        path_of(ApiCall::LoadSnapshot { vmstate, mem }) == "/snapshot/load"@,
{
    reveal_with_fuel(field, 6);
    reveal_with_fuel(member, 4);
    reveal_strlit("snapshot_path");
    reveal_strlit("mem_file_path");
    reveal_strlit("mem_backend");
    reveal_strlit("backend_path");
    reveal_strlit("backend_type");
    reveal_strlit("snapshot_type");
    reveal_strlit("enable_diff_snapshots");
    reveal_strlit("resume_vm");
    assert("snapshot_path"@.len() == 13);
    assert("mem_file_path"@.len() == 13);
    assert("mem_backend"@.len() == 11);
    assert("backend_path"@.len() == 12);
    assert("backend_type"@.len() == 12);
    assert("snapshot_type"@.len() == 13);
    assert("enable_diff_snapshots"@.len() == 21);
    assert("resume_vm"@.len() == 9);
    assert("snapshot_path"@[0] != "mem_file_path"@[0]);
    assert("snapshot_path"@[9] != "snapshot_type"@[9]);
    assert("mem_file_path"@[0] != "snapshot_type"@[0]);
    assert("backend_path"@[8] != "backend_type"@[8]);
}

/// **Law.** A fresh instance gets the machine, the kernel and the devices that
/// it is specified with: each request names the value under the name that
/// Firecracker reads it by.
pub proof fn law_a_fresh_instance_is_configured_as_specified(
    c: ApiCall,
    b: Seq<(&'static str, Field)>,
)
    requires
        body_of(c, b),
    ensures
        c matches ApiCall::MachineConfig { vcpus, mem_mib } ==> field(b, "vcpu_count"@) == Some(
            Field::Number(vcpus),
        ) && field(b, "mem_size_mib"@) == Some(Field::Number(mem_mib)),
        c matches ApiCall::BootSource { kernel, boot_args } ==> text_field(b, "kernel_image_path"@)
            == Some(kernel@) && text_field(b, "boot_args"@) == Some(boot_args@),
        c matches ApiCall::Rootfs { path } ==> text_field(b, "path_on_host"@) == Some(path@)
            && field(b, "is_root_device"@) == Some(Field::Flag(true)) && field(b, "is_read_only"@)
            == Some(Field::Flag(false)) && text_field(b, "cache_type"@) == Some("Writeback"@)
            && path_of(c) == "/drives/"@ + text_field(b, "drive_id"@)->0,
        c matches ApiCall::Nic { tap, mac } ==> text_field(b, "host_dev_name"@) == Some(tap@)
            && text_field(b, "guest_mac"@) == Some(mac@) && path_of(c) == "/network-interfaces/"@
            + text_field(b, "iface_id"@)->0,
        c matches ApiCall::Vsock { cid } ==> field(b, "guest_cid"@) == Some(Field::Number(cid))
            && text_field(b, "uds_path"@) == Some("v.sock"@),
{
    reveal_with_fuel(field, 7);
    reveal_strlit("vcpu_count");
    reveal_strlit("mem_size_mib");
    reveal_strlit("kernel_image_path");
    reveal_strlit("boot_args");
    reveal_strlit("drive_id");
    reveal_strlit("path_on_host");
    reveal_strlit("is_root_device");
    reveal_strlit("is_read_only");
    reveal_strlit("cache_type");
    reveal_strlit("iface_id");
    reveal_strlit("host_dev_name");
    reveal_strlit("guest_mac");
    reveal_strlit("guest_cid");
    reveal_strlit("uds_path");
    assert("vcpu_count"@.len() == 10);
    assert("mem_size_mib"@.len() == 12);
    assert("kernel_image_path"@.len() == 17);
    assert("boot_args"@.len() == 9);
    assert("drive_id"@.len() == 8);
    assert("path_on_host"@.len() == 12);
    assert("is_root_device"@.len() == 14);
    assert("is_read_only"@.len() == 12);
    assert("cache_type"@.len() == 10);
    assert("iface_id"@.len() == 8);
    assert("host_dev_name"@.len() == 13);
    assert("guest_mac"@.len() == 9);
    assert("guest_cid"@.len() == 9);
    assert("uds_path"@.len() == 8);
    assert("vcpu_count"@[0] != "cache_type"@[0]);
    assert("mem_size_mib"@[0] != "path_on_host"@[0]);
    assert("mem_size_mib"@[0] != "is_read_only"@[0]);
    assert("boot_args"@[0] != "guest_mac"@[0]);
    assert("boot_args"@[0] != "guest_cid"@[0]);
    assert("drive_id"@[0] != "iface_id"@[0]);
    assert("drive_id"@[0] != "uds_path"@[0]);
    assert("path_on_host"@[0] != "is_read_only"@[0]);
    assert("iface_id"@[0] != "uds_path"@[0]);
    assert("guest_mac"@[6] != "guest_cid"@[6]);
    reveal_strlit("rootfs");
    reveal_strlit("eth0");
    reveal_strlit("/drives/");
    reveal_strlit("/drives/rootfs");
    reveal_strlit("/network-interfaces/");
    reveal_strlit("/network-interfaces/eth0");
    assert("/drives/rootfs"@ =~= "/drives/"@ + "rootfs"@);
    assert("/network-interfaces/eth0"@ =~= "/network-interfaces/"@ + "eth0"@);
}

/// **Law.** What is there is patched and all else is put, and what changes the
/// state of a machine is told apart by what it says: pausing and resuming are
/// the two states of one resource, starting and shutting down two actions of
/// another.
pub proof fn law_each_call_has_its_place(c: ApiCall, b: Seq<(&'static str, Field)>)
    requires
        body_of(c, b),
    ensures
        method_of(c) == "PATCH"@ <==> path_of(c) == "/vm"@,
        method_of(c) != "PATCH"@ ==> method_of(c) == "PUT"@,
        path_of(c) == "/vm"@ <==> c is Pause || c is Resume,
        c is Pause ==> text_field(b, "state"@) == Some("Paused"@),
        c is Resume ==> text_field(b, "state"@) == Some("Resumed"@),
        path_of(c) == "/actions"@ <==> c is InstanceStart || c is CtrlAltDel,
        c is InstanceStart ==> text_field(b, "action_type"@) == Some("InstanceStart"@),
        c is CtrlAltDel ==> text_field(b, "action_type"@) == Some("SendCtrlAltDel"@),
        c is MachineConfig ==> path_of(c) == "/machine-config"@,
        c is BootSource ==> path_of(c) == "/boot-source"@,
        c is Vsock ==> path_of(c) == "/vsock"@,
{
    reveal_with_fuel(field, 3);
    reveal_strlit("PATCH");
    reveal_strlit("PUT");
    reveal_strlit("/vm");
    reveal_strlit("/actions");
    reveal_strlit("/snapshot/load");
    reveal_strlit("/snapshot/create");
    reveal_strlit("/machine-config");
    reveal_strlit("/boot-source");
    reveal_strlit("/drives/rootfs");
    reveal_strlit("/network-interfaces/eth0");
    reveal_strlit("/vsock");
    assert("PATCH"@.len() == 5);
    assert("PUT"@.len() == 3);
    assert("/vm"@.len() == 3);
    assert("/actions"@.len() == 8);
    assert("/snapshot/load"@.len() == 14);
    assert("/snapshot/create"@.len() == 16);
    assert("/machine-config"@.len() == 15);
    assert("/boot-source"@.len() == 12);
    assert("/drives/rootfs"@.len() == 14);
    assert("/network-interfaces/eth0"@.len() == 24);
    assert("/vsock"@.len() == 6);
    assert("PUT"@[0] != "/vm"@[0]);
    assert("/snapshot/load"@[1] != "/drives/rootfs"@[1]);
}

/// **Law.** What defines an instance says all that its specification does, and
/// each thing once. A snapshot carries the rest of it: nothing beside the load
/// is asked for. A fresh one has a NIC exactly where it has a tap, and a vsock
/// device exactly where it has an address for one.
pub proof fn law_an_instance_is_defined_once(spec: InstanceSpec, c: Seq<ApiCall>)
    requires
        defines(spec, c),
    ensures
        spec.resume_from matches Some(s) ==> c == seq![
            ApiCall::LoadSnapshot { vmstate: s.vmstate, mem: s.mem_file },
        ],
        spec.resume_from is None ==> {
            &&& c.contains(ApiCall::MachineConfig { vcpus: spec.vcpus, mem_mib: spec.mem_mib })
            &&& c.contains(ApiCall::BootSource { kernel: spec.kernel, boot_args: spec.boot_args })
            &&& c.contains(ApiCall::Rootfs { path: spec.rootfs_device })
            &&& (exists|i: int| 0 <= i < c.len() && (#[trigger] c[i]) is Nic) <==> spec.tap@.len()
                > 0
            &&& forall|i: int|
                0 <= i < c.len() && (#[trigger] c[i]) is Nic ==> c[i]->Nic_tap == spec.tap
                    && c[i]->Nic_mac@ == colon_hex(spec.mac.0@)
            &&& forall|cid: u32|
                (#[trigger] c.contains(ApiCall::Vsock { cid })) <==> spec.vsock_cid == Some(cid)
            &&& c.len() == 3 + (if spec.tap@.len() > 0 {
                1int
            } else {
                0
            }) + (if spec.vsock_cid is Some {
                1int
            } else {
                0
            })
            &&& forall|i: int|
                0 <= i < c.len() ==> !((#[trigger] c[i]) is LoadSnapshot || c[i] is Resume || c[i]
                    is InstanceStart)
        },
{
    if let Some(s) = spec.resume_from {
        assert(c =~= seq![ApiCall::LoadSnapshot { vmstate: s.vmstate, mem: s.mem_file }]);
    } else {
        let nic = if spec.tap@.len() > 0 {
            1int
        } else {
            0
        };
        assert(c[0] is MachineConfig && c[1] is BootSource && c[2] is Rootfs);
        if spec.tap@.len() > 0 {
            assert(c[3] is Nic);
        }
        if spec.vsock_cid is Some {
            assert(c[3 + nic] is Vsock);
        }
        assert forall|cid: u32|
            (#[trigger] c.contains(ApiCall::Vsock { cid })) <==> spec.vsock_cid == Some(cid) by {
            if spec.vsock_cid == Some(cid) {
                assert(c[3 + nic] == (ApiCall::Vsock { cid }));
            }
        }
    }
}

/// **Law.** An instance is paused before its snapshot is written, and the two
/// files of the snapshot are not the same one.
pub proof fn law_a_snapshot_is_of_a_paused_instance(dir: Seq<char>, c: Seq<ApiCall>)
    requires
        suspends(dir, c),
    ensures
        forall|i: int|
            0 <= i < c.len() && (#[trigger] c[i]) is CreateSnapshot ==> exists|j: int|
                0 <= j < i && (#[trigger] c[j]) is Pause,
        exists|i: int| 0 <= i < c.len() && (#[trigger] c[i]) is CreateSnapshot,
        forall|i: int|
            0 <= i < c.len() && (#[trigger] c[i]) is CreateSnapshot ==> {
                &&& c[i]->CreateSnapshot_vmstate@ == joined(dir, "vmstate"@)
                &&& c[i]->CreateSnapshot_mem@ == joined(dir, "mem"@)
                &&& c[i]->CreateSnapshot_vmstate@ != c[i]->CreateSnapshot_mem@
            },
        forall|i: int| 0 <= i < c.len() ==> !((#[trigger] c[i]) is Resume),
{
    reveal_strlit("vmstate");
    reveal_strlit("mem");
    reveal_strlit("/");
    assert("vmstate"@.subrange(0, 1)[0] == 'v' && "mem"@.subrange(0, 1)[0] == 'm');
    assert("/"@[0] == '/');
    assert(joined(dir, "vmstate"@).len() != joined(dir, "mem"@).len());
    assert(c[0] is Pause && c[1] is CreateSnapshot);
}

/// **Law.** What was loaded paused is resumed, and only what is not paused is
/// started.
pub proof fn law_only_a_paused_instance_is_resumed(state: Seq<char>)
    ensures
        starts(state) is Resume <==> state == "Paused"@,
        starts(state) is InstanceStart <==> state != "Paused"@,
{
}

/// **Law.** What was seen of an instance gives its status. One that has exited
/// is stopped whatever else was seen; with a socket that answers, the answer
/// counts; and without an answer a process that is there has been created, and
/// one that is gone leaves a stopped instance where its socket is still there.
pub proof fn law_the_status_is_what_was_seen(s: Seen)
    ensures
        s.exited ==> status_seen(s) is Stopped,
        status_seen(s) is Stopped ==> s.exited || (s.socket && s.state is None && !s.alive),
        status_seen(s) is Absent <==> !s.exited && !s.socket && !s.alive,
        !s.exited && s.socket && s.state is Some ==> {
            &&& status_seen(s) is Running <==> s.state->0@ == "Running"@
            &&& status_seen(s) is Suspended <==> s.state->0@ == "Paused"@
            &&& status_seen(s) is Created <==> s.state->0@ != "Running"@ && s.state->0@
                != "Paused"@
        },
        !s.exited && (!s.socket || s.state is None) ==> (status_seen(s) is Created <==> s.alive),
{
    reveal_strlit("Running");
    reveal_strlit("Paused");
    assert("Running"@.len() == 7);
    assert("Paused"@.len() == 6);
}

/// **Law.** A VMM that has just been started is given up only once it is gone,
/// and taken as ready only once its socket answers.
pub proof fn law_a_starting_vmm_is_waited_for(connected: bool, alive: bool, b: Boot)
    requires
        looked(connected, alive, b),
    ensures
        b is Ready <==> connected,
        b is Failed <==> !connected && !alive,
        b is Wait <==> !connected && alive,
{
}

} // verus!
