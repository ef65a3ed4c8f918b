//! Running Firecracker under its `jailer`.
//!
//! Every VM gets a chroot of its own at `<chroot_base>/<firecracker
//! basename>/<vm id>/root`, the VMM drops to an unprivileged uid/gid, and the
//! jailer joins the VM's network namespace. Paths handed to Firecracker's API
//! are jail-relative and identical for every VM, which is what a snapshot wants:
//! whatever it recorded resolves inside each clone's jail to that clone's own
//! resources. A snapshot taken by an *unjailed* bake recorded the template's host
//! device path for the rootfs instead, so the plan also creates a node at that
//! path.

use crate::common::ids::{
    law_a_rendered_id_names_one_vm, law_parse_reads_what_was_rendered, VmId,
};
use crate::common::runtime::InstanceSpec;
use crate::paths::{file_name, file_name_of, join, joined, parts, parts_of};
use crate::text::{
    begins, decimal, decimal_text, lower, lowered, number, parse_number, pieces, same, split,
    starts_with, texts_of, trim, trimmed, trim_start_char, without_leading,
};
use vstd::prelude::*;
use vstd::string::*;

verus! {

/// Run each VM under `jailer` with these settings.
#[derive(Debug, PartialEq, Eq)]
pub struct JailerConfig {
    /// The `jailer` binary.
    pub bin: String,
    /// `--chroot-base-dir`: jails live at `<chroot_base>/<firecracker>/<vm>`.
    /// Must not be on a `nodev` mount, since the rootfs is a device node.
    pub chroot_base: String,
    /// Unprivileged identity the VMM runs as.
    pub uid: u32,
    pub gid: u32,
    /// `--cgroup-version`.
    pub cgroup_version: u8,
    /// Extra `--cgroup <file>=<value>` settings, e.g. `cpu.max=200000 100000`.
    pub cgroups: Vec<String>,
    /// Extra `--resource-limit <name>=<value>` settings, e.g. `no-file=4096`.
    pub resource_limits: Vec<String>,
}

/// The jailer's settings as the environment has them, each variable as it is.
#[derive(Debug)]
pub struct JailEnv {
    /// `ISO_JAILER`.
    pub on: Option<String>,
    /// `ISO_JAILER_BIN`.
    pub bin: Option<String>,
    /// `ISO_JAIL_DIR`.
    pub dir: Option<String>,
    /// `ISO_JAIL_UID`.
    pub uid: Option<String>,
    /// `ISO_JAIL_GID`.
    pub gid: Option<String>,
    /// `ISO_JAIL_CGROUP_VERSION`.
    pub cgroup_version: Option<String>,
    /// `ISO_JAIL_CGROUPS`.
    pub cgroups: Option<String>,
    /// `ISO_JAIL_RLIMITS`.
    pub rlimits: Option<String>,
}

/// Whether a setting says yes: `1`, `true` or `yes`, in any case.
pub open spec fn says_yes(o: Option<String>) -> bool {
    match o {
        Some(s) => {
            let t = lowered(trimmed(s@));
            t == "1"@ || t == "true"@ || t == "yes"@
        },
        None => false,
    }
}

/// Whether a setting says yes.
pub fn truthy(o: &Option<String>) -> (r: bool)
    ensures
        r == says_yes(*o),
{
    match o {
        Some(s) => {
            let t = lower(trim(s.as_str()).as_str());
            same(t.as_str(), "1") || same(t.as_str(), "true") || same(t.as_str(), "yes")
        },
        None => false,
    }
}

/// A variable that is set to more than white space.
pub open spec fn set_value(o: Option<String>) -> Option<Seq<char>> {
    match o {
        Some(s) => if trimmed(s@).len() == 0 {
            None
        } else {
            Some(s@)
        },
        None => None,
    }
}

fn value_or(o: &Option<String>, default: &str) -> (s: String)
    ensures
        s@ == (match set_value(*o) {
            Some(v) => v,
            None => default@,
        }),
{
    match o {
        Some(s) => if trim(s.as_str()).as_str().is_empty() {
            default.to_string()
        } else {
            s.clone()
        },
        None => default.to_string(),
    }
}

/// The number a variable is set to, or the default where it is not set to one.
pub open spec fn number_or(o: Option<String>, max: int, default: int) -> int {
    match set_value(o) {
        Some(v) => match number(v, 10, max) {
            Some(n) => n,
            None => default,
        },
        None => default,
    }
}

fn numeric_or(o: &Option<String>, max: u64, default: u64) -> (n: u64)
    requires
        default <= max,
    ensures
        n == number_or(*o, max as int, default as int),
        n <= max,
{
    match o {
        Some(s) => if trim(s.as_str()).as_str().is_empty() {
            default
        } else {
            match parse_number(s.as_str(), 10, max) {
                Some(n) => n,
                None => default,
            }
        },
        None => default,
    }
}

/// The parts of a list that hold anything, trimmed.
pub open spec fn kept(parts: Seq<Seq<char>>) -> Seq<Seq<char>>
    decreases parts.len(),
{
    if parts.len() == 0 {
        Seq::empty()
    } else {
        let rest = kept(parts.drop_last());
        if trimmed(parts.last()).len() == 0 {
            rest
        } else {
            rest.push(trimmed(parts.last()))
        }
    }
}

/// What a comma-separated variable lists.
pub open spec fn listed(o: Option<String>) -> Seq<Seq<char>> {
    match set_value(o) {
        Some(v) => kept(pieces(v, ',')),
        None => Seq::empty(),
    }
}

/// The parts of a comma-separated text that hold anything, trimmed.
pub fn comma_list(s: &str) -> (v: Vec<String>)
    ensures
        texts_of(v@) == kept(pieces(s@, ',')),
{
    let all = split(s, ',');
    let ghost a = texts_of(all@);
    let mut out: Vec<String> = Vec::new();
    let mut i: usize = 0;
    assert(a.subrange(0, 0) =~= Seq::<Seq<char>>::empty());
    assert(texts_of(out@) =~= Seq::<Seq<char>>::empty());
    while i < all.len()
        invariant
            i <= all.len(),
            a == texts_of(all@),
            texts_of(out@) == kept(a.subrange(0, i as int)),
        decreases all.len() - i,
    {
        proof {
            let next = a.subrange(0, i + 1);
            assert(next.drop_last() =~= a.subrange(0, i as int));
            assert(next.last() == all@[i as int]@);
        }
        let t = trim(all[i].as_str());
        if !t.as_str().is_empty() {
            let ghost had = out@;
            out.push(t);
            assert(texts_of(out@) =~= texts_of(had).push(t@));
        }
        i += 1;
    }
    assert(a.subrange(0, a.len() as int) =~= a);
    out
}

fn list_or_none(o: &Option<String>) -> (v: Vec<String>)
    ensures
        texts_of(v@) == listed(*o),
{
    match o {
        Some(s) => if trim(s.as_str()).as_str().is_empty() {
            let v: Vec<String> = Vec::new();
            assert(texts_of(v@) =~= Seq::<Seq<char>>::empty());
            v
        } else {
            comma_list(s.as_str())
        },
        None => {
            let v: Vec<String> = Vec::new();
            assert(texts_of(v@) =~= Seq::<Seq<char>>::empty());
            v
        },
    }
}

/// Where the jail of a VM is.
pub open spec fn jail_path(chroot_base: Seq<char>, firecracker: Seq<char>, vm: VmId) -> Seq<char> {
    joined(
        joined(
            chroot_base,
            match file_name_of(firecracker) {
                Some(n) => n,
                None => "firecracker"@,
            },
        ),
        vm.text(),
    )
}

/// Whether `r` is what the environment asks for.
pub open spec fn jailer_from(env: JailEnv, state_dir: Seq<char>, r: Option<JailerConfig>) -> bool {
    match r {
        Some(c) => {
            &&& says_yes(env.on)
            &&& c.bin@ == (match set_value(env.bin) {
                Some(v) => v,
                None => "jailer"@,
            })
            &&& c.chroot_base@ == (match set_value(env.dir) {
                Some(v) => v,
                None => joined(state_dir, "jail"@),
            })
            &&& c.uid == number_or(env.uid, u32::MAX as int, 65534)
            &&& c.gid == number_or(env.gid, u32::MAX as int, 65534)
            &&& c.cgroup_version == number_or(env.cgroup_version, 255, 2)
            &&& texts_of(c.cgroups@) == listed(env.cgroups)
            &&& texts_of(c.resource_limits@) == listed(env.rlimits)
        },
        None => !says_yes(env.on),
    }
}

impl JailerConfig {
    /// Jailer settings from the environment, or `None` unless it asks for the
    /// jailer. What is not set has a default: the binary `jailer`, the directory
    /// `<state_dir>/jail`, the nobody identity, cgroup version 2, and no extra
    /// settings.
    pub fn from_env(env: &JailEnv, state_dir: &str) -> (r: Option<Self>)
        ensures
            jailer_from(*env, state_dir@, r),
    {
        if !truthy(&env.on) {
            return None;
        }
        Some(
            JailerConfig {
                bin: value_or(&env.bin, "jailer"),
                chroot_base: value_or(&env.dir, join(state_dir, "jail").as_str()),
                uid: numeric_or(&env.uid, u32::MAX as u64, 65534) as u32,
                gid: numeric_or(&env.gid, u32::MAX as u64, 65534) as u32,
                cgroup_version: numeric_or(&env.cgroup_version, 255, 2) as u8,
                cgroups: list_or_none(&env.cgroups),
                resource_limits: list_or_none(&env.rlimits),
            },
        )
    }

    /// `<chroot_base>/<firecracker basename>/<vm>`: everything that is created
    /// for one VM, removed whole on destroy.
    pub fn jail_dir(&self, firecracker: &str, vm: VmId) -> (s: String)
        ensures
            s@ == jail_path(self.chroot_base@, firecracker@, vm),
    {
        let name = match file_name(firecracker) {
            Some(n) => n,
            None => "firecracker".to_string(),
        };
        join(join(self.chroot_base.as_str(), name.as_str()).as_str(), vm.to_string().as_str())
    }
}

/// The jail-relative paths Firecracker's API is given. Constant across VMs.
pub const GUEST_KERNEL: &'static str = "/vmlinux";

pub const GUEST_ROOTFS: &'static str = "/rootfs";

pub const GUEST_SNAPSHOT_MEM: &'static str = "/snapshot/mem";

pub const GUEST_SNAPSHOT_VMSTATE: &'static str = "/snapshot/vmstate";

pub const GUEST_API_SOCKET: &'static str = "/run/firecracker.socket";

/// Everything that has to exist for one jailed VM, on the host side, plus the
/// jailer's argument list.
#[derive(Debug, PartialEq, Eq)]
pub struct JailPlan {
    pub jail_dir: String,
    /// The jail's root: what the VMM sees as `/`.
    pub root: String,
    /// Host path of the API socket.
    pub api_socket: String,
    /// Kernel: (host source, host destination inside the jail).
    pub kernel: (String, String),
    /// Block-device nodes to create for the rootfs, as host paths. Always
    /// `<root>/rootfs`; on resume also the path the snapshot may have recorded.
    pub rootfs_nodes: Vec<String>,
    /// Snapshot files to link in on resume: (host source, host destination).
    pub snapshot: Vec<(String, String)>,
    /// The jailer's arguments, up to but not including the `--` separator.
    pub args: Vec<String>,
}

/// Whether a path is relative and says so, with a leading `.`.
pub open spec fn dotted(p: Seq<char>) -> bool {
    !begins(p, "/"@) && pieces(p, '/')[0] == "."@
}

/// The nodes for the rootfs: the constant name, and the path that a snapshot
/// recorded unless it recorded that name.
pub open spec fn nodes_of(root: Seq<char>, baked: Option<String>) -> Seq<Seq<char>> {
    let first = seq![joined(root, "rootfs"@)];
    match baked {
        Some(b) => {
            let rel = without_leading(b@, '/');
            if parts_of(rel) == seq!["rootfs"@] && !dotted(b@) {
                first
            } else {
                first.push(joined(root, rel))
            }
        },
        None => first,
    }
}

/// Each of `vals` behind the flag `flag`.
pub open spec fn flagged(flag: Seq<char>, vals: Seq<Seq<char>>) -> Seq<Seq<char>>
    decreases vals.len(),
{
    if vals.len() == 0 {
        Seq::empty()
    } else {
        flagged(flag, vals.drop_last()).push(flag).push(vals.last())
    }
}

/// The jailer's arguments.
pub open spec fn args_of(
    jail: JailerConfig,
    firecracker: Seq<char>,
    netns_path: Seq<char>,
    vm: VmId,
) -> Seq<Seq<char>> {
    seq![
        "--id"@,
        vm.text(),
        "--exec-file"@,
        firecracker,
        "--uid"@,
        decimal(jail.uid as nat),
        "--gid"@,
        decimal(jail.gid as nat),
        "--chroot-base-dir"@,
        jail.chroot_base@,
        "--cgroup-version"@,
        decimal(jail.cgroup_version as nat),
        "--netns"@,
        netns_path,
    ] + flagged("--cgroup"@, texts_of(jail.cgroups@)) + flagged(
        "--resource-limit"@,
        texts_of(jail.resource_limits@),
    )
}

/// Whether `p` is the jail for `spec`.
pub open spec fn is_plan(
    jail: JailerConfig,
    firecracker: Seq<char>,
    netns_path: Seq<char>,
    spec: InstanceSpec,
    p: JailPlan,
) -> bool {
    let dir = jail_path(jail.chroot_base@, firecracker, spec.vm);
    let root = joined(dir, "root"@);
    &&& p.jail_dir@ == dir
    &&& p.root@ == root
    &&& p.api_socket@ == joined(root, "run/firecracker.socket"@)
    &&& p.kernel.0@ == spec.kernel@
    &&& p.kernel.1@ == joined(root, "vmlinux"@)
    &&& texts_of(p.rootfs_nodes@) == nodes_of(root, spec.rootfs_backing)
    &&& match spec.resume_from {
        Some(s) => {
            &&& p.snapshot@.len() == 2
            &&& p.snapshot@[0].0@ == s.mem_file@
            &&& p.snapshot@[0].1@ == joined(root, "snapshot/mem"@)
            &&& p.snapshot@[1].0@ == s.vmstate@
            &&& p.snapshot@[1].1@ == joined(root, "snapshot/vmstate"@)
        },
        None => p.snapshot@.len() == 0,
    }
    &&& texts_of(p.args@) == args_of(jail, firecracker, netns_path, spec.vm)
}

fn push_text(v: &mut Vec<String>, s: &str)
    ensures
        texts_of(final(v)@) == texts_of(old(v)@).push(s@),
{
    v.push(s.to_string());
    assert(texts_of(v@) =~= texts_of(old(v)@).push(s@));
}

fn push_flagged(v: &mut Vec<String>, flag: &str, vals: &Vec<String>)
    ensures
        texts_of(final(v)@) == texts_of(old(v)@) + flagged(flag@, texts_of(vals@)),
{
    let ghost start = texts_of(v@);
    let ghost all = texts_of(vals@);
    let mut i: usize = 0;
    assert(all.subrange(0, 0) =~= Seq::<Seq<char>>::empty());
    assert(start + Seq::<Seq<char>>::empty() =~= start);
    while i < vals.len()
        invariant
            i <= vals.len(),
            all == texts_of(vals@),
            texts_of(v@) == start + flagged(flag@, all.subrange(0, i as int)),
        decreases vals.len() - i,
    {
        let ghost had = flagged(flag@, all.subrange(0, i as int));
        push_text(v, flag);
        push_text(v, vals[i].as_str());
        proof {
            let next = all.subrange(0, i + 1);
            assert(next.drop_last() =~= all.subrange(0, i as int));
            assert(next.last() == vals@[i as int]@);
            assert((start + had).push(flag@).push(vals@[i as int]@) =~= start + had.push(
                flag@,
            ).push(vals@[i as int]@));
        }
        i += 1;
    }
    assert(all.subrange(0, all.len() as int) =~= all);
}

fn rootfs_nodes(root: &str, baked: &Option<String>) -> (v: Vec<String>)
    ensures
        texts_of(v@) == nodes_of(root@, *baked),
{
    let mut v: Vec<String> = Vec::new();
    assert(texts_of(v@) =~= Seq::<Seq<char>>::empty());
    push_text(&mut v, join(root, "rootfs").as_str());
    assert(texts_of(v@) =~= seq![joined(root@, "rootfs"@)]);
    if let Some(b) = baked {
        let rel = trim_start_char(b.as_str(), '/');
        let ps = parts(rel.as_str());
        let raw = split(b.as_str(), '/');
        assert(pieces(b@, '/').len() >= 1);
        assert(texts_of(raw@)[0] == raw@[0]@);
        let constant = ps.len() == 1 && same(ps[0].as_str(), "rootfs") && (starts_with(
            b.as_str(),
            "/",
        ) || !same(raw[0].as_str(), "."));
        proof {
            assert(texts_of(ps@).len() == ps@.len());
            if ps@.len() == 1 {
                assert(texts_of(ps@)[0] == ps@[0]@);
                if ps@[0]@ == "rootfs"@ {
                    assert(texts_of(ps@) =~= seq!["rootfs"@]);
                } else {
                    assert(seq!["rootfs"@][0] == "rootfs"@);
                }
            } else {
                assert(seq!["rootfs"@].len() == 1);
            }
        }
        if !constant {
            push_text(&mut v, join(root, rel.as_str()).as_str());
        }
    }
    v
}

/// Derive the jail for `spec`. `firecracker` must be an absolute path (the
/// jailer copies it into the jail); `netns_path` is the namespace file.
pub fn plan(
    jail: &JailerConfig,
    firecracker: &str,
    netns_path: &str,
    spec: &InstanceSpec,
) -> (p: JailPlan)
    ensures
        is_plan(*jail, firecracker@, netns_path@, *spec, p),
{
    let jail_dir = jail.jail_dir(firecracker, spec.vm);
    let root = join(jail_dir.as_str(), "root");
    let mut snapshot: Vec<(String, String)> = Vec::new();
    if let Some(s) = &spec.resume_from {
        snapshot.push((s.mem_file.clone(), join(root.as_str(), "snapshot/mem")));
        snapshot.push((s.vmstate.clone(), join(root.as_str(), "snapshot/vmstate")));
    }
    let mut args: Vec<String> = Vec::new();
    assert(texts_of(args@) =~= Seq::<Seq<char>>::empty());
    push_text(&mut args, "--id");
    push_text(&mut args, spec.vm.to_string().as_str());
    push_text(&mut args, "--exec-file");
    push_text(&mut args, firecracker);
    push_text(&mut args, "--uid");
    push_text(&mut args, decimal_text(jail.uid as u64).as_str());
    push_text(&mut args, "--gid");
    push_text(&mut args, decimal_text(jail.gid as u64).as_str());
    push_text(&mut args, "--chroot-base-dir");
    push_text(&mut args, jail.chroot_base.as_str());
    push_text(&mut args, "--cgroup-version");
    push_text(&mut args, decimal_text(jail.cgroup_version as u64).as_str());
    push_text(&mut args, "--netns");
    push_text(&mut args, netns_path);
    let ghost base = texts_of(args@);
    push_flagged(&mut args, "--cgroup", &jail.cgroups);
    push_flagged(&mut args, "--resource-limit", &jail.resource_limits);
    proof {
        let want = args_of(*jail, firecracker@, netns_path@, spec.vm);
        assert(base =~= want.subrange(0, 14));
        assert(texts_of(args@) =~= want);
    }
    JailPlan {
        api_socket: join(root.as_str(), "run/firecracker.socket"),
        kernel: (spec.kernel.clone(), join(root.as_str(), "vmlinux")),
        rootfs_nodes: rootfs_nodes(root.as_str(), &spec.rootfs_backing),
        snapshot,
        jail_dir,
        root,
        args,
    }
}

/// One step of building a jail on disk.
#[derive(Debug, PartialEq, Eq)]
pub enum Step {
    /// A directory owned by the jail identity.
    Dir(String),
    /// A file linked in.
    Link(String, String),
    /// A block-device node like the rootfs device.
    Node(String),
    /// A file-backed rootfs linked in, and handed to the jail identity.
    LinkRootfs(String),
}

/// A step as characters: its tag and its paths.
pub open spec fn step_of(s: Step) -> (int, Seq<char>, Seq<char>) {
    match s {
        Step::Dir(p) => (0, p@, Seq::empty()),
        Step::Link(a, b) => (1, a@, b@),
        Step::Node(p) => (2, p@, Seq::empty()),
        Step::LinkRootfs(p) => (3, p@, Seq::empty()),
    }
}

/// Steps as characters.
pub open spec fn steps_of(v: Seq<Step>) -> Seq<(int, Seq<char>, Seq<char>)> {
    v.map_values(|s: Step| step_of(s))
}

/// The steps that build a jail, in order.
pub open spec fn build_of(p: JailPlan, is_block: bool) -> Seq<(int, Seq<char>, Seq<char>)> {
    let none = Seq::<char>::empty();
    seq![
        (0int, p.root@, none),
        (0int, joined(p.root@, "run"@), none),
        (0int, joined(p.root@, "snapshot"@), none),
        (1int, p.kernel.0@, p.kernel.1@),
    ] + p.snapshot@.map_values(|x: (String, String)| (1int, x.0@, x.1@)) + texts_of(
        p.rootfs_nodes@,
    ).map_values(
        |n: Seq<char>|
            (if is_block {
                2int
            } else {
                3int
            }, n, none),
    )
}

fn push_step(v: &mut Vec<Step>, s: Step)
    ensures
        steps_of(final(v)@) == steps_of(old(v)@).push(step_of(s)),
{
    v.push(s);
    assert(steps_of(v@) =~= steps_of(old(v)@).push(step_of(s)));
}

/// The steps that build a jail on disk: directories owned by the jail identity,
/// the kernel and snapshot linked in, and the rootfs at each of its nodes, as a
/// device where it is one.
pub fn build(p: &JailPlan, is_block: bool) -> (v: Vec<Step>)
    ensures
        steps_of(v@) == build_of(*p, is_block),
{
    let mut v: Vec<Step> = Vec::new();
    let ghost none = Seq::<char>::empty();
    assert(steps_of(v@) =~= Seq::<(int, Seq<char>, Seq<char>)>::empty());
    push_step(&mut v, Step::Dir(p.root.clone()));
    push_step(&mut v, Step::Dir(join(p.root.as_str(), "run")));
    push_step(&mut v, Step::Dir(join(p.root.as_str(), "snapshot")));
    push_step(&mut v, Step::Link(p.kernel.0.clone(), p.kernel.1.clone()));
    let ghost a = steps_of(v@);
    let ghost links = p.snapshot@.map_values(|x: (String, String)| (1int, x.0@, x.1@));
    let mut i: usize = 0;
    while i < p.snapshot.len()
        invariant
            i <= p.snapshot.len(),
            links == p.snapshot@.map_values(|x: (String, String)| (1int, x.0@, x.1@)),
            steps_of(v@) == a + links.subrange(0, i as int),
        decreases p.snapshot.len() - i,
    {
        push_step(&mut v, Step::Link(p.snapshot[i].0.clone(), p.snapshot[i].1.clone()));
        assert(steps_of(v@) =~= a + links.subrange(0, i + 1));
        i += 1;
    }
    assert(links.subrange(0, links.len() as int) =~= links);
    let ghost b = steps_of(v@);
    let ghost nodes = texts_of(p.rootfs_nodes@).map_values(
        |n: Seq<char>|
            (if is_block {
                2int
            } else {
                3int
            }, n, none),
    );
    let mut j: usize = 0;
    while j < p.rootfs_nodes.len()
        invariant
            j <= p.rootfs_nodes.len(),
            none == Seq::<char>::empty(),
            nodes == texts_of(p.rootfs_nodes@).map_values(
                |n: Seq<char>|
                    (if is_block {
                        2int
                    } else {
                        3int
                    }, n, none),
            ),
            steps_of(v@) == b + nodes.subrange(0, j as int),
        decreases p.rootfs_nodes.len() - j,
    {
        let n = p.rootfs_nodes[j].clone();
        assert(texts_of(p.rootfs_nodes@)[j as int] == n@);
        if is_block {
            push_step(&mut v, Step::Node(n));
        } else {
            push_step(&mut v, Step::LinkRootfs(n));
        }
        assert(steps_of(v@) =~= b + nodes.subrange(0, j + 1));
        j += 1;
    }
    assert(nodes.subrange(0, nodes.len() as int) =~= nodes);
    assert(steps_of(v@) =~= build_of(*p, is_block));
    v
}

/// **Law.** Every VM sees its own resources at the same places: relative to the
/// jail's root, the kernel, the rootfs, the snapshot and the API socket of two
/// VMs are at the same paths, whatever the VMs are.
pub proof fn law_jail_paths_are_constant(
    jail: JailerConfig,
    firecracker: Seq<char>,
    ns1: Seq<char>,
    ns2: Seq<char>,
    a: InstanceSpec,
    b: InstanceSpec,
    p: JailPlan,
    q: JailPlan,
)
    requires
        is_plan(jail, firecracker, ns1, a, p),
        is_plan(jail, firecracker, ns2, b, q),
    ensures
        p.kernel.1@ == joined(p.root@, "vmlinux"@) && q.kernel.1@ == joined(q.root@, "vmlinux"@),
        p.api_socket@ == joined(p.root@, "run/firecracker.socket"@) && q.api_socket@ == joined(
            q.root@,
            "run/firecracker.socket"@,
        ),
        texts_of(p.rootfs_nodes@)[0] == joined(p.root@, "rootfs"@) && texts_of(q.rootfs_nodes@)[0]
            == joined(q.root@, "rootfs"@),
        a.resume_from is Some && b.resume_from is Some ==> p.snapshot@[0].1@ == joined(
            p.root@,
            "snapshot/mem"@,
        ) && q.snapshot@[0].1@ == joined(q.root@, "snapshot/mem"@),
        a.vm == b.vm ==> p.root@ == q.root@,
{
}

/// **Law.** Every VM has a jail of its own: the jails of two VMs are at different
/// places.
pub proof fn law_every_vm_has_its_own_jail(
    chroot_base: Seq<char>,
    firecracker: Seq<char>,
    a: VmId,
    b: VmId,
)
    requires
        a != b,
    ensures
        jail_path(chroot_base, firecracker, a) != jail_path(chroot_base, firecracker, b),
{
    law_parse_reads_what_was_rendered(a);
    law_parse_reads_what_was_rendered(b);
    let x = a.text();
    let y = b.text();
    assert(x.len() == 36 && y.len() == 36);
    reveal_strlit("/");
    assert(x.subrange(0, 1)[0] == x[0] && y.subrange(0, 1)[0] == y[0]);
    assert(!begins(x, "/"@) && !begins(y, "/"@));
    let p = jail_path(chroot_base, firecracker, a);
    let q = jail_path(chroot_base, firecracker, b);
    assert(p.subrange(p.len() - 36, p.len() as int) =~= x);
    assert(q.subrange(q.len() - 36, q.len() as int) =~= y);
    if p == q {
        law_a_rendered_id_names_one_vm(a, b);
    }
}

/// Whether `args` give `value` to `flag` at some place.
pub open spec fn gives(args: Seq<Seq<char>>, flag: Seq<char>, value: Seq<char>) -> bool {
    exists|i: int| 0 <= i < args.len() - 1 && (#[trigger] args[i]) == flag && args[i + 1] == value
}

/// Whether `args` have at `at` the flag, and behind it the value.
pub open spec fn pair_at(args: Seq<Seq<char>>, at: int, flag: Seq<char>, v: Seq<char>) -> bool {
    args[at] == flag && args[at + 1] == v
}

proof fn lemma_flagged(flag: Seq<char>, vals: Seq<Seq<char>>)
    ensures
        flagged(flag, vals).len() == 2 * vals.len(),
    decreases vals.len(),
{
    if vals.len() > 0 {
        lemma_flagged(flag, vals.drop_last());
    }
}

proof fn lemma_flagged_at(flag: Seq<char>, vals: Seq<Seq<char>>, i: int)
    requires
        0 <= i < vals.len(),
    ensures
        pair_at(flagged(flag, vals), 2 * i, flag, vals[i]),
    decreases vals.len(),
{
    let some = vals.drop_last();
    lemma_flagged(flag, some);
    if i < some.len() {
        lemma_flagged_at(flag, some, i);
        assert(some[i] == vals[i]);
    }
}

/// **Law.** The jailer is told who the VM is, what to run, whom to run it as,
/// where, and in which network namespace; then every extra cgroup setting and
/// every resource limit, in order, and nothing else.
pub proof fn law_the_jailer_is_told_everything(
    jail: JailerConfig,
    firecracker: Seq<char>,
    netns_path: Seq<char>,
    spec: InstanceSpec,
    p: JailPlan,
)
    requires
        is_plan(jail, firecracker, netns_path, spec, p),
    ensures
        ({
            let args = texts_of(p.args@);
            let extra = jail.cgroups@.len() as int;
            &&& gives(args, "--id"@, spec.vm.text())
            &&& gives(args, "--exec-file"@, firecracker)
            &&& gives(args, "--uid"@, decimal(jail.uid as nat))
            &&& gives(args, "--gid"@, decimal(jail.gid as nat))
            &&& gives(args, "--chroot-base-dir"@, jail.chroot_base@)
            &&& gives(args, "--cgroup-version"@, decimal(jail.cgroup_version as nat))
            &&& gives(args, "--netns"@, netns_path)
            &&& args.len() == 14 + 2 * extra + 2 * jail.resource_limits@.len()
            &&& forall|i: int|
                0 <= i < extra ==> pair_at(
                    args,
                    14 + 2 * i,
                    "--cgroup"@,
                    (#[trigger] jail.cgroups@[i])@,
                )
            &&& forall|i: int|
                0 <= i < jail.resource_limits@.len() ==> pair_at(
                    args,
                    14 + 2 * extra + 2 * i,
                    "--resource-limit"@,
                    (#[trigger] jail.resource_limits@[i])@,
                )
        }),
{
    let args = texts_of(p.args@);
    let c = texts_of(jail.cgroups@);
    let l = texts_of(jail.resource_limits@);
    lemma_flagged("--cgroup"@, c);
    lemma_flagged("--resource-limit"@, l);
    let extra = jail.cgroups@.len() as int;
    assert(c.len() == extra && l.len() == jail.resource_limits@.len());
    assert(args[0] == "--id"@ && args[1] == spec.vm.text());
    assert(args[2] == "--exec-file"@ && args[3] == firecracker);
    assert(args[4] == "--uid"@ && args[5] == decimal(jail.uid as nat));
    assert(args[6] == "--gid"@ && args[7] == decimal(jail.gid as nat));
    assert(args[8] == "--chroot-base-dir"@ && args[9] == jail.chroot_base@);
    assert(args[10] == "--cgroup-version"@ && args[11] == decimal(jail.cgroup_version as nat));
    assert(args[12] == "--netns"@ && args[13] == netns_path);
    assert forall|i: int| 0 <= i < extra implies pair_at(
        args,
        14 + 2 * i,
        "--cgroup"@,
        (#[trigger] jail.cgroups@[i])@,
    ) by {
        lemma_flagged_at("--cgroup"@, c, i);
        assert(c[i] == jail.cgroups@[i]@);
    }
    assert forall|i: int| 0 <= i < jail.resource_limits@.len() implies pair_at(
        args,
        14 + 2 * extra + 2 * i,
        "--resource-limit"@,
        (#[trigger] jail.resource_limits@[i])@,
    ) by {
        lemma_flagged_at("--resource-limit"@, l, i);
        assert(l[i] == jail.resource_limits@[i]@);
    }
}

/// **Law.** What is linked into a jail on resume is the snapshot, each of its two
/// files where the load names it; a fresh VM gets none. The kernel is always the
/// one specified.
pub proof fn law_the_snapshot_is_linked_where_it_is_loaded(
    jail: JailerConfig,
    firecracker: Seq<char>,
    netns_path: Seq<char>,
    spec: InstanceSpec,
    p: JailPlan,
)
    requires
        is_plan(jail, firecracker, netns_path, spec, p),
    ensures
        p.kernel.0@ == spec.kernel@,
        p.snapshot@.len() == 0 <==> spec.resume_from is None,
        forall|i: int|
            0 <= i < p.snapshot@.len() && spec.resume_from is Some ==> {
                let s = spec.resume_from->0;
                ||| (#[trigger] p.snapshot@[i]).0@ == s.mem_file@ && p.snapshot@[i].1@ == p.root@
                    + GUEST_SNAPSHOT_MEM@
                ||| p.snapshot@[i].0@ == s.vmstate@ && p.snapshot@[i].1@ == p.root@
                    + GUEST_SNAPSHOT_VMSTATE@
            },
        p.kernel.1@ == p.root@ + GUEST_KERNEL@,
        p.api_socket@ == p.root@ + GUEST_API_SOCKET@,
        texts_of(p.rootfs_nodes@).contains(p.root@ + GUEST_ROOTFS@),
{
    let dir = jail_path(jail.chroot_base@, firecracker, spec.vm);
    lemma_below(dir);
    assert(texts_of(p.rootfs_nodes@)[0] == joined(p.root@, "rootfs"@));
}

proof fn lemma_below(dir: Seq<char>)
    ensures
        ({
            let root = joined(dir, "root"@);
            &&& joined(root, "vmlinux"@) == root + "/vmlinux"@
            &&& joined(root, "rootfs"@) == root + "/rootfs"@
            &&& joined(root, "snapshot/mem"@) == root + "/snapshot/mem"@
            &&& joined(root, "snapshot/vmstate"@) == root + "/snapshot/vmstate"@
            &&& joined(root, "run/firecracker.socket"@) == root + "/run/firecracker.socket"@
        }),
{
    let root = joined(dir, "root"@);
    reveal_strlit("/");
    reveal_strlit("root");
    reveal_strlit("vmlinux");
    reveal_strlit("rootfs");
    reveal_strlit("snapshot/mem");
    reveal_strlit("snapshot/vmstate");
    reveal_strlit("run/firecracker.socket");
    reveal_strlit("/vmlinux");
    reveal_strlit("/rootfs");
    reveal_strlit("/snapshot/mem");
    reveal_strlit("/snapshot/vmstate");
    reveal_strlit("/run/firecracker.socket");
    assert("root"@.subrange(0, 1)[0] == 'r');
    assert(!begins("root"@, "/"@));
    assert(root.last() == 't');
    assert(root.len() > 0);
    assert(root.subrange(root.len() - 1, root.len() as int)[0] == 't');
    assert("vmlinux"@.subrange(0, 1)[0] == 'v');
    assert("rootfs"@.subrange(0, 1)[0] == 'r');
    assert("snapshot/mem"@.subrange(0, 1)[0] == 's');
    assert("snapshot/vmstate"@.subrange(0, 1)[0] == 's');
    assert("run/firecracker.socket"@.subrange(0, 1)[0] == 'r');
    assert("/"@ + "vmlinux"@ =~= "/vmlinux"@);
    assert("/"@ + "rootfs"@ =~= "/rootfs"@);
    assert("/"@ + "snapshot/mem"@ =~= "/snapshot/mem"@);
    assert("/"@ + "snapshot/vmstate"@ =~= "/snapshot/vmstate"@);
    assert("/"@ + "run/firecracker.socket"@ =~= "/run/firecracker.socket"@);
    assert(root + "/"@ + "vmlinux"@ =~= root + "/vmlinux"@);
    assert(root + "/"@ + "rootfs"@ =~= root + "/rootfs"@);
    assert(root + "/"@ + "snapshot/mem"@ =~= root + "/snapshot/mem"@);
    assert(root + "/"@ + "snapshot/vmstate"@ =~= root + "/snapshot/vmstate"@);
    assert(root + "/"@ + "run/firecracker.socket"@ =~= root + "/run/firecracker.socket"@);
}

/// **Law.** A jail has the rootfs at its constant name always, and also where a
/// snapshot recorded it unless that is the same name; and nowhere else.
pub proof fn law_a_recorded_rootfs_is_found(root: Seq<char>, baked: Option<String>)
    ensures
        nodes_of(root, baked).contains(joined(root, "rootfs"@)),
        baked is None ==> nodes_of(root, baked).len() == 1,
        baked matches Some(b) ==> (parts_of(without_leading(b@, '/')) != seq!["rootfs"@]
            ==> nodes_of(root, baked) == seq![
            joined(root, "rootfs"@),
            joined(root, without_leading(b@, '/')),
        ]),
        nodes_of(root, baked).len() <= 2,
{
    assert(nodes_of(root, baked)[0] == joined(root, "rootfs"@));
    if let Some(b) = baked {
        if parts_of(without_leading(b@, '/')) != seq!["rootfs"@] {
            assert(nodes_of(root, baked) =~= seq![
                joined(root, "rootfs"@),
                joined(root, without_leading(b@, '/')),
            ]);
        }
    }
}

/// **Law.** Building a jail makes all that the plan names: the directories before
/// anything is put in them, then the kernel, then each file of the snapshot, and
/// the rootfs at each of its nodes, as a device exactly where it is one.
pub proof fn law_a_jail_is_built_whole(p: JailPlan, is_block: bool)
    ensures
        ({
            let b = build_of(p, is_block);
            let n = p.snapshot@.len() as int;
            &&& b.len() == 4 + n + p.rootfs_nodes@.len()
            &&& b[0] == (0int, p.root@, Seq::<char>::empty())
            &&& b[1] == (0int, joined(p.root@, "run"@), Seq::<char>::empty())
            &&& b[2] == (0int, joined(p.root@, "snapshot"@), Seq::<char>::empty())
            &&& b[3] == (1int, p.kernel.0@, p.kernel.1@)
            &&& forall|i: int|
                0 <= i < n ==> b[4 + i] == (
                    1int,
                    (#[trigger] p.snapshot@[i]).0@,
                    p.snapshot@[i].1@,
                )
            &&& forall|i: int|
                0 <= i < p.rootfs_nodes@.len() ==> b[4 + n + i].1 == (
                #[trigger] p.rootfs_nodes@[i])@ && (b[4 + n + i].0 == 2 <==> is_block) && (b[4 + n
                    + i].0 == 3 <==> !is_block)
        }),
{
}

/// Whether a variable is set to more than white space.
pub open spec fn filled(o: Option<String>) -> bool {
    o is Some && trimmed(o->0@).len() > 0
}

/// **Law.** The jailer is used exactly where the environment says yes to it. What
/// the environment sets is taken as set, and what it leaves unset, or sets to
/// white space, has its default.
pub proof fn law_the_jailer_is_asked_for(
    env: JailEnv,
    state_dir: Seq<char>,
    r: Option<JailerConfig>,
)
    requires
        jailer_from(env, state_dir, r),
    ensures
        env.on is None ==> r is None,
        env.on matches Some(s) ==> (r is Some <==> lowered(trimmed(s@)) == "1"@ || lowered(
            trimmed(s@),
        ) == "true"@ || lowered(trimmed(s@)) == "yes"@),
        r matches Some(c) ==> {
            &&& c.bin@ == (if filled(env.bin) {
                env.bin->0@
            } else {
                "jailer"@
            })
            &&& c.chroot_base@ == (if filled(env.dir) {
                env.dir->0@
            } else {
                joined(state_dir, "jail"@)
            })
            &&& filled(env.uid) && number(env.uid->0@, 10, u32::MAX as int) is Some ==> number(
                env.uid->0@,
                10,
                u32::MAX as int,
            ) == Some(c.uid as int)
            &&& filled(env.gid) && number(env.gid->0@, 10, u32::MAX as int) is Some ==> number(
                env.gid->0@,
                10,
                u32::MAX as int,
            ) == Some(c.gid as int)
            &&& filled(env.cgroup_version) && number(env.cgroup_version->0@, 10, 255) is Some
                ==> number(env.cgroup_version->0@, 10, 255) == Some(c.cgroup_version as int)
            &&& !filled(env.uid) ==> c.uid == 65534
            &&& !filled(env.gid) ==> c.gid == 65534
            &&& !filled(env.cgroup_version) ==> c.cgroup_version == 2
            &&& !filled(env.cgroups) ==> c.cgroups@.len() == 0
            &&& !filled(env.rlimits) ==> c.resource_limits@.len() == 0
            &&& filled(env.cgroups) ==> texts_of(c.cgroups@) == kept(pieces(env.cgroups->0@, ','))
            &&& filled(env.rlimits) ==> texts_of(c.resource_limits@) == kept(
                pieces(env.rlimits->0@, ','),
            )
        },
{
    if let Some(c) = r {
        assert(texts_of(c.cgroups@).len() == c.cgroups@.len());
        assert(texts_of(c.resource_limits@).len() == c.resource_limits@.len());
    }
}

} // verus!
