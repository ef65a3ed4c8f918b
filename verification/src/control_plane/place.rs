//! Placing a VM: the slot and the host ports of a new one, and the instance
//! that a placed one is booted as.

use crate::common::ids::{SlotId, VmId, SLOT_MAX};
use crate::common::network::{NetworkFixture, PortForward};
use crate::common::runtime::{InstanceSpec, SnapshotRef, VmStatus};
use crate::common::storage::StorageHandle;
use crate::control_plane::error::Error;
use crate::control_plane::port::{lemma_port_from, port_from, PortAllocator};
use crate::control_plane::slot::{law_allocation_hands_out_a_free_slot, SlotAllocator};
use crate::control_plane::types::{CreateVm, TemplateDef, VmRecord, VmState};
use vstd::prelude::*;

verus! {

/// A run of allocations: the ports handed out, where the scan stands after
/// them, and whether as many were found as were asked for.
pub ghost struct PortRun {
    pub ports: Seq<u16>,
    pub next: int,
    pub complete: bool,
}

/// What an allocator in this state hands out when asked for `n` ports.
pub open spec fn next_ports(taken: Set<u16>, first: int, span: int, next: int, n: nat) -> PortRun
    decreases n,
{
    if n == 0 {
        PortRun { ports: Seq::empty(), next, complete: true }
    } else {
        match port_from(taken, first, span, next, 0) {
            None => PortRun { ports: Seq::empty(), next, complete: false },
            Some(o) => {
                let p = (first + o) as u16;
                let t = next_ports(taken.insert(p), first, span, (o + 1) % span, (n - 1) as nat);
                PortRun { ports: seq![p] + t.ports, next: t.next, complete: t.complete }
            },
        }
    }
}

/// The slot that the next allocation hands out.
pub open spec fn next_slot(a: SlotAllocator) -> Option<u16> {
    match a.free_place() {
        Some(p) => Some(p as u16),
        None => None,
    }
}

/// The ports that forwards occupy on the host.
pub open spec fn host_ports(v: Seq<PortForward>) -> Set<u16> {
    Set::new(|p: u16| exists|i: int| 0 <= i < v.len() && #[trigger] v[i].host_port == p)
}

/// `v` with the host ports `ports` in place of its own.
pub open spec fn resolved(v: Seq<PortForward>, ports: Seq<u16>) -> Seq<PortForward> {
    Seq::new(
        v.len(),
        |i: int| PortForward { host_port: ports[i], vm_port: v[i].vm_port, proto: v[i].proto },
    )
}

/// The record that a VM starts out with.
pub open spec fn first_record(req: CreateVm, id: VmId, rec: VmRecord) -> bool {
    &&& rec.id == id
    &&& rec.template == req.template
    &&& rec.egress == req.egress
    &&& rec.labels == req.labels
    &&& rec.lifecycle == req.lifecycle
    &&& rec.restart == req.restart
    &&& rec.vcpus == req.vcpus
    &&& rec.mem_mib == req.mem_mib
    &&& rec.state == VmState::Creating
    &&& rec.rootfs_device is None
    &&& rec.tap is None
    &&& rec.principal == req.principal
    &&& rec.allow == req.allow
    &&& rec.rules == req.rules
    &&& rec.policy_gen == 1
    &&& rec.signed == req.signed
    &&& rec.snapshot is None
}

/// Give back the host ports of `v`.
pub fn free_ports(ports: &mut PortAllocator, v: &Vec<PortForward>)
    requires
        old(ports).wf(),
    ensures
        final(ports).wf(),
        final(ports).same_range(*old(ports)),
        final(ports).next() == old(ports).next(),
        final(ports).taken() == old(ports).taken().difference(host_ports(v@)),
{
    let mut i: usize = 0;
    assert(ports.taken() =~= old(ports).taken().difference(host_ports(v@.subrange(0, 0))));
    while i < v.len()
        invariant
            i <= v.len(),
            ports.wf(),
            ports.same_range(*old(ports)),
            ports.next() == old(ports).next(),
            ports.taken() == old(ports).taken().difference(host_ports(v@.subrange(0, i as int))),
        decreases v.len() - i,
    {
        ports.free(v[i].host_port);
        proof {
            let a = v@.subrange(0, i as int);
            let b = v@.subrange(0, i + 1);
            assert forall|p: u16| #[trigger] host_ports(b).contains(p) == (host_ports(a).contains(p)
                || p == v@[i as int].host_port) by {
                if host_ports(a).contains(p) {
                    let k = choose|k: int| 0 <= k < a.len() && #[trigger] a[k].host_port == p;
                    assert(b[k].host_port == p);
                }
                if p == v@[i as int].host_port {
                    assert(b[i as int].host_port == p);
                }
                if host_ports(b).contains(p) && p != v@[i as int].host_port {
                    let k = choose|k: int| 0 <= k < b.len() && #[trigger] b[k].host_port == p;
                    assert(a[k].host_port == p);
                }
            }
            assert(ports.taken() =~= old(ports).taken().difference(host_ports(b)));
        }
        i += 1;
    }
    assert(v@.subrange(0, v.len() as int) =~= v@);
}

/// What placing a new VM takes and leaves.
pub open spec fn placed(
    req: CreateVm,
    id: VmId,
    s0: SlotAllocator,
    p0: PortAllocator,
    r: Result<VmRecord, Error>,
    s1: SlotAllocator,
    p1: PortAllocator,
) -> bool {
    &&& s1.wf()
    &&& p1.wf()
    &&& p1.same_range(p0)
    &&& s1.map().len() == s0.map().len()
    &&& match s0.free_place() {
        None => {
            &&& r == Err::<VmRecord, Error>(Error::SlotsExhausted)
            &&& p1 == p0
            &&& s1 == s0
        },
        Some(place) => {
            let run = next_ports(
                p0.taken(),
                p0.first(),
                p0.span(),
                p0.next(),
                req.ingress@.len(),
            );
            &&& s1.next() == (place + 1) % s0.span()
            &&& if run.complete {
                &&& r matches Ok(rec)
                &&& first_record(req, id, rec)
                &&& rec.slot matches Some(s) && s.value() == place
                &&& rec.ingress@ == resolved(req.ingress@, run.ports)
                &&& p1.taken() == p0.taken().union(host_ports(rec.ingress@))
                &&& p1.next() == run.next
                &&& host_ports(rec.ingress@).disjoint(p0.taken())
                &&& s1.map() == s0.map().update(place, true)
            } else {
                &&& r == Err::<VmRecord, Error>(Error::PortsExhausted)
                &&& p1.taken() == p0.taken()
                &&& p1.next() == run.next
                &&& s1.map() == s0.map()
            }
        },
    }
}

/// Places a new VM: a slot, and a host port for each requested forward. When
/// the ports run out, what was taken so far is given back.
pub fn place(
    req: CreateVm,
    id: VmId,
    slots: &mut SlotAllocator,
    ports: &mut PortAllocator,
) -> (r: Result<VmRecord, Error>)
    requires
        old(slots).wf(),
        old(ports).wf(),
    ensures
        placed(req, id, *old(slots), *old(ports), r, *final(slots), *final(ports)),
{
    let slot = match slots.allocate() {
        Some(s) => s,
        None => {
            return Err(Error::SlotsExhausted);
        },
    };
    let n: usize = req.ingress.len();
    let mut ingress: Vec<PortForward> = Vec::new();
    let mut i: usize = 0;
    let ghost p0 = *ports;
    let ghost got: Seq<u16> = Seq::empty();
    let ghost wanted = next_ports(p0.taken(), p0.first(), p0.span(), p0.next(), n as nat);
    proof {
        assert(p0.taken().union(host_ports(ingress@)) =~= p0.taken());
        assert(got + wanted.ports =~= wanted.ports);
    }
    while i < n
        invariant
            i <= n,
            n == req.ingress.len(),
            ingress.len() == i,
            got.len() == i,
            ports.wf(),
            ports.same_range(p0),
            p0.wf(),
            slots.wf(),
            wanted == next_ports(p0.taken(), p0.first(), p0.span(), p0.next(), n as nat),
            ports.taken() == p0.taken().union(host_ports(ingress@)),
            host_ports(ingress@).disjoint(p0.taken()),
            forall|k: int|
                0 <= k < i ==> #[trigger] ingress@[k] == (PortForward {
                    host_port: got[k],
                    vm_port: req.ingress@[k].vm_port,
                    proto: req.ingress@[k].proto,
                }),
            ({
                let rest = next_ports(
                    ports.taken(),
                    ports.first(),
                    ports.span(),
                    ports.next(),
                    (n - i) as nat,
                );
                &&& wanted.ports == got + rest.ports
                &&& wanted.next == rest.next
                &&& wanted.complete == rest.complete
            }),
            *old(ports) == p0,
            old(slots).wf(),
            old(slots).free_place() == Some(slot.value() as int),
            slots.map() == old(slots).map().update(old(slots).free_place()->0, true),
            slots.next() == (old(slots).free_place()->0 + 1) % old(slots).span(),
            0 <= old(slots).free_place()->0 < old(slots).span(),
            !old(slots).map()[old(slots).free_place()->0],
            old(slots).free_place() is Some,
        decreases n - i,
    {
        let ghost before = *ports;
        match ports.allocate() {
            Some(host_port) => {
                let f = PortForward {
                    host_port,
                    vm_port: req.ingress[i].vm_port,
                    proto: req.ingress[i].proto,
                };
                let ghost had = ingress@;
                ingress.push(f);
                proof {
                    let rest = next_ports(
                        ports.taken(),
                        ports.first(),
                        ports.span(),
                        ports.next(),
                        (n - i - 1) as nat,
                    );
                    assert(got + (seq![host_port] + rest.ports) =~= got.push(host_port)
                        + rest.ports);
                    got = got.push(host_port);
                    assert forall|p: u16| #[trigger]
                        host_ports(ingress@).contains(p) == (host_ports(had).contains(p) || p
                            == host_port) by {
                        if host_ports(had).contains(p) {
                            let k = choose|k: int|
                                0 <= k < had.len() && #[trigger] had[k].host_port == p;
                            assert(ingress@[k].host_port == p);
                        }
                        if p == host_port {
                            assert(ingress@[i as int].host_port == p);
                        }
                        if host_ports(ingress@).contains(p) && p != host_port {
                            let k = choose|k: int|
                                0 <= k < ingress@.len() && #[trigger] ingress@[k].host_port == p;
                            assert(had[k].host_port == p);
                        }
                    }
                    assert(ports.taken() =~= p0.taken().union(host_ports(ingress@)));
                    assert(host_ports(ingress@).disjoint(p0.taken()));
                }
            },
            None => {
                free_ports(ports, &ingress);
                slots.free(slot);
                proof {
                    assert(ports.taken() =~= p0.taken());
                    assert(slots.map() =~= old(slots).map());
                }
                return Err(Error::PortsExhausted);
            },
        }
        i += 1;
    }
    proof {
        assert(wanted.ports =~= got);
        assert(ingress@ =~= resolved(req.ingress@, got));
    }
    Ok(
        VmRecord {
            id,
            slot: Some(slot),
            template: req.template,
            egress: req.egress,
            ingress,
            labels: req.labels,
            lifecycle: req.lifecycle,
            restart: req.restart,
            vcpus: req.vcpus,
            mem_mib: req.mem_mib,
            state: VmState::Creating,
            rootfs_device: None,
            tap: None,
            principal: req.principal,
            allow: req.allow,
            rules: req.rules,
            policy_gen: 1,
            signed: req.signed,
            snapshot: None,
        },
    )
}

// ---- booting ----

/// What a VM resumes from, if from anything. A custom machine shape forgoes any
/// snapshot: it was taken at the template's shape. Otherwise the VM's own
/// snapshot wins over the template's; `allow_resume` gates the template's only.
pub open spec fn resume_point(rec: VmRecord, tpl: TemplateDef, allow_resume: bool) -> Option<
    SnapshotRef,
> {
    if rec.vcpus is Some || rec.mem_mib is Some {
        None
    } else if rec.snapshot is Some {
        rec.snapshot
    } else if allow_resume {
        tpl.snapshot
    } else {
        None
    }
}

/// The instance that a placed VM is booted as.
pub open spec fn instance_of(
    rec: VmRecord,
    tpl: TemplateDef,
    volume: StorageHandle,
    net: NetworkFixture,
    allow_resume: bool,
    vsock_cid: Option<u32>,
) -> InstanceSpec {
    let resume = resume_point(rec, tpl, allow_resume);
    InstanceSpec {
        vm: rec.id,
        netns: net.netns,
        tap: net.tap,
        mac: net.mac,
        rootfs_device: volume.device_path,
        vcpus: match rec.vcpus {
            Some(n) => n,
            None => tpl.vcpus,
        },
        mem_mib: match rec.mem_mib {
            Some(n) => n,
            None => tpl.mem_mib,
        },
        kernel: tpl.kernel,
        boot_args: tpl.boot_args,
        resume_from: resume,
        rootfs_backing: if resume is Some {
            volume.backing_device
        } else {
            None
        },
        vsock_cid,
    }
}

/// Copies an optional snapshot.
pub fn copy_snapshot(o: &Option<SnapshotRef>) -> (r: Option<SnapshotRef>)
    ensures
        r == *o,
{
    match o {
        Some(s) => Some(s.clone()),
        None => None,
    }
}

/// Builds the instance that a placed VM is booted as. On resume, the rootfs
/// path baked into the snapshot is redirected to this VM's own volume, so
/// clones never write the shared template.
pub fn instance(
    rec: &VmRecord,
    tpl: &TemplateDef,
    volume: StorageHandle,
    net: NetworkFixture,
    allow_resume: bool,
    vsock_cid: Option<u32>,
) -> (r: InstanceSpec)
    ensures
        r == instance_of(*rec, *tpl, volume, net, allow_resume, vsock_cid),
{
    let custom = rec.vcpus.is_some() || rec.mem_mib.is_some();
    let resume_from = if custom {
        None
    } else if rec.snapshot.is_some() {
        copy_snapshot(&rec.snapshot)
    } else if allow_resume {
        copy_snapshot(&tpl.snapshot)
    } else {
        None
    };
    let rootfs_backing = if resume_from.is_some() {
        volume.backing_device
    } else {
        None
    };
    InstanceSpec {
        vm: rec.id,
        netns: net.netns,
        tap: net.tap,
        mac: net.mac,
        rootfs_device: volume.device_path,
        vcpus: rec.vcpus.unwrap_or(tpl.vcpus),
        mem_mib: rec.mem_mib.unwrap_or(tpl.mem_mib),
        kernel: tpl.kernel.clone(),
        boot_args: tpl.boot_args.clone(),
        resume_from,
        rootfs_backing,
        vsock_cid,
    }
}

/// **Law.** A VM with its own snapshot comes back as itself, whatever its
/// template holds and whether or not the template's snapshot may be used.
pub proof fn law_own_snapshot_wins(rec: VmRecord, t1: TemplateDef, t2: TemplateDef, a: bool, b: bool)
    requires
        rec.snapshot is Some,
        rec.vcpus is None,
        rec.mem_mib is None,
    ensures
        resume_point(rec, t1, a) == rec.snapshot,
        resume_point(rec, t1, a) == resume_point(rec, t2, b),
{
}

/// **Law.** A custom machine shape always boots fresh, and a fresh boot never
/// redirects a baked rootfs.
pub proof fn law_custom_shape_boots_fresh(
    rec: VmRecord,
    tpl: TemplateDef,
    volume: StorageHandle,
    net: NetworkFixture,
    allow_resume: bool,
    cid: Option<u32>,
)
    requires
        rec.vcpus is Some || rec.mem_mib is Some,
    ensures
        instance_of(rec, tpl, volume, net, allow_resume, cid).resume_from is None,
        instance_of(rec, tpl, volume, net, allow_resume, cid).rootfs_backing is None,
{
}

/// **Law.** A VM has the machine shape that was asked for: the memory and the
/// vCPUs of its record where those are given, each by itself, and its template's
/// where they are not.
pub proof fn law_a_vm_has_the_shape_asked_for(
    rec: VmRecord,
    tpl: TemplateDef,
    volume: StorageHandle,
    net: NetworkFixture,
    allow_resume: bool,
    cid: Option<u32>,
    i: InstanceSpec,
)
    requires
        i == instance_of(rec, tpl, volume, net, allow_resume, cid),
    ensures
        forall|m: u32| rec.mem_mib == Some(m) ==> i.mem_mib == m,
        forall|n: u32| rec.vcpus == Some(n) ==> i.vcpus == n,
        rec.mem_mib is None ==> i.mem_mib == tpl.mem_mib,
        rec.vcpus is None ==> i.vcpus == tpl.vcpus,
{
}

/// **Law.** A VM is booted on what is its own: its volume, and its own ends of
/// the network; with its template's kernel and arguments.
pub proof fn law_a_vm_boots_on_its_own_resources(
    rec: VmRecord,
    tpl: TemplateDef,
    volume: StorageHandle,
    net: NetworkFixture,
    allow_resume: bool,
    cid: Option<u32>,
    i: InstanceSpec,
)
    requires
        i == instance_of(rec, tpl, volume, net, allow_resume, cid),
    ensures
        i.vm == rec.id,
        i.rootfs_device == volume.device_path,
        i.netns == net.netns && i.tap == net.tap && i.mac == net.mac,
        i.kernel == tpl.kernel && i.boot_args == tpl.boot_args,
        i.vsock_cid == cid,
        i.resume_from is Some ==> i.rootfs_backing == volume.backing_device,
        i.resume_from is None ==> i.rootfs_backing is None,
{
}

/// **Law.** A VM that never suspended starts where its template's snapshot is, if
/// it may; and boots fresh where it may not, or where the template has none.
pub proof fn law_a_clone_starts_at_its_template(
    rec: VmRecord,
    tpl: TemplateDef,
    volume: StorageHandle,
    net: NetworkFixture,
    cid: Option<u32>,
)
    requires
        rec.snapshot is None,
        rec.vcpus is None,
        rec.mem_mib is None,
    ensures
        instance_of(rec, tpl, volume, net, true, cid).resume_from == tpl.snapshot,
        instance_of(rec, tpl, volume, net, false, cid).resume_from is None,
{
}

/// **Law.** A VM that suspended is booted from its own snapshot and no other.
pub proof fn law_a_suspended_vm_is_booted_from_its_snapshot(
    rec: VmRecord,
    tpl: TemplateDef,
    volume: StorageHandle,
    net: NetworkFixture,
    allow_resume: bool,
    cid: Option<u32>,
)
    requires
        rec.snapshot is Some,
        rec.vcpus is None,
        rec.mem_mib is None,
    ensures
        instance_of(rec, tpl, volume, net, allow_resume, cid).resume_from == rec.snapshot,
{
}

proof fn lemma_port_run(taken: Set<u16>, first: int, span: int, next: int, n: nat)
    requires
        0 <= first,
        0 <= span,
        first + span <= 0xffff,
        0 <= next,
        next == 0 || next < span,
    ensures
        ({
            let run = next_ports(taken, first, span, next, n);
            &&& run.complete ==> run.ports.len() == n
            &&& forall|i: int|
                0 <= i < run.ports.len() ==> first <= (#[trigger] run.ports[i]) < first + span
                    && !taken.contains(run.ports[i])
            &&& forall|i: int, j: int|
                0 <= i < j < run.ports.len() ==> run.ports[i] != run.ports[j]
        }),
    decreases n,
{
    if n > 0 {
        lemma_port_from(taken, first, span, next, 0);
        match port_from(taken, first, span, next, 0) {
            None => {},
            Some(o) => {
                let p = (first + o) as u16;
                let at = (o + 1) % span;
                vstd::arithmetic::div_mod::lemma_mod_bound(o + 1, span);
                lemma_port_run(taken.insert(p), first, span, at, (n - 1) as nat);
                let t = next_ports(taken.insert(p), first, span, at, (n - 1) as nat);
                let run = next_ports(taken, first, span, next, n);
                assert(run.ports =~= seq![p] + t.ports);
                assert forall|i: int, j: int| 0 <= i < j < run.ports.len() implies run.ports[i]
                    != run.ports[j] by {
                    assert(run.ports[j] == t.ports[j - 1]);
                    assert(taken.insert(p).contains(p));
                    if i > 0 {
                        assert(run.ports[i] == t.ports[i - 1]);
                    }
                }
            },
        }
    }
}

/// **Law.** A VM that is placed is the one that was asked for, on a slot that was
/// free and on host ports that were free, one for each forward that was asked
/// for, all different; and nothing else is taken for it.
pub proof fn law_a_placed_vm_is_what_was_asked_for(
    req: CreateVm,
    id: VmId,
    s0: SlotAllocator,
    p0: PortAllocator,
    rec: VmRecord,
    s1: SlotAllocator,
    p1: PortAllocator,
)
    requires
        s0.wf(),
        p0.wf(),
        placed(req, id, s0, p0, Ok(rec), s1, p1),
    ensures
        rec.id == id,
        rec.template == req.template,
        rec.egress == req.egress,
        rec.labels == req.labels,
        rec.lifecycle == req.lifecycle,
        rec.restart == req.restart,
        rec.vcpus == req.vcpus && rec.mem_mib == req.mem_mib,
        rec.principal == req.principal,
        rec.allow == req.allow && rec.rules == req.rules && rec.signed == req.signed,
        rec.policy_gen == 1,
        rec.state == VmState::Creating,
        rec.snapshot is None && rec.rootfs_device is None && rec.tap is None,
        rec.slot matches Some(s) && !s0.holds(s) && s1.holds(s) && forall|t: SlotId|
            t.value() != s.value() ==> s1.holds(t) == s0.holds(t),
        rec.ingress@.len() == req.ingress@.len(),
        forall|i: int|
            0 <= i < rec.ingress@.len() ==> {
                let f = #[trigger] rec.ingress@[i];
                &&& f.vm_port == req.ingress@[i].vm_port
                &&& f.proto == req.ingress@[i].proto
                &&& p0.manages(f.host_port)
                &&& !p0.taken().contains(f.host_port)
                &&& p1.taken().contains(f.host_port)
            },
        forall|i: int, j: int|
            0 <= i < j < rec.ingress@.len() ==> rec.ingress@[i].host_port
                != rec.ingress@[j].host_port,
        forall|p: u16|
            (forall|i: int| 0 <= i < rec.ingress@.len() ==> rec.ingress@[i].host_port != p)
                ==> #[trigger] p1.taken().contains(p) == p0.taken().contains(p),
{
    law_allocation_hands_out_a_free_slot(s0);
    let n = req.ingress@.len();
    lemma_port_run(p0.taken(), p0.first(), p0.span(), p0.next(), n);
    assert forall|i: int| 0 <= i < rec.ingress@.len() implies {
        let f = #[trigger] rec.ingress@[i];
        &&& p0.manages(f.host_port)
        &&& !p0.taken().contains(f.host_port)
        &&& p1.taken().contains(f.host_port)
    } by {
        assert(host_ports(rec.ingress@).contains(rec.ingress@[i].host_port));
    }
}

/// **Law.** A VM that cannot be placed leaves everything as it was, and is
/// refused for the reason that there is: no slot is free, or too few ports.
pub proof fn law_a_refused_placement_takes_nothing(
    req: CreateVm,
    id: VmId,
    s0: SlotAllocator,
    p0: PortAllocator,
    e: Error,
    s1: SlotAllocator,
    p1: PortAllocator,
)
    requires
        s0.wf(),
        p0.wf(),
        placed(req, id, s0, p0, Err(e), s1, p1),
    ensures
        s1.map() == s0.map(),
        p1.taken() == p0.taken(),
        e is SlotsExhausted || e is PortsExhausted,
        e is SlotsExhausted <==> forall|p: int|
            0 <= p < s0.map().len() && p <= SLOT_MAX ==> #[trigger] s0.map()[p],
{
    law_allocation_hands_out_a_free_slot(s0);
}

// ---- recovery and supervision ----

/// The ports of an allocator's range.
pub open spec fn managed(a: PortAllocator) -> Set<u16> {
    Set::new(|p: u16| a.manages(p))
}

/// Whether the allocators went from `s0` and `p0` to `s1` and `p1` as a recorded
/// VM's slot and ports were taken, those that there are.
pub open spec fn readopted(
    rec: VmRecord,
    s0: SlotAllocator,
    p0: PortAllocator,
    s1: SlotAllocator,
    p1: PortAllocator,
) -> bool {
    &&& s1.wf()
    &&& p1.wf()
    &&& s1.next() == s0.next()
    &&& p1.same_range(p0)
    &&& p1.next() == p0.next()
    &&& s1.map() == (match rec.slot {
        Some(s) => if s.value() < s0.map().len() {
            s0.map().update(s.value() as int, true)
        } else {
            s0.map()
        },
        None => s0.map(),
    })
    &&& p1.taken() == p0.taken().union(host_ports(rec.ingress@).intersect(managed(p0)))
}

/// Takes a recorded VM's slot and ports again, after a restart of the daemon.
pub fn readopt(rec: &VmRecord, slots: &mut SlotAllocator, ports: &mut PortAllocator)
    requires
        old(slots).wf(),
        old(ports).wf(),
    ensures
        readopted(*rec, *old(slots), *old(ports), *final(slots), *final(ports)),
{
    if let Some(s) = rec.slot {
        slots.reserve(s);
    }
    let v = &rec.ingress;
    let mut i: usize = 0;
    assert(ports.taken() =~= old(ports).taken().union(
        host_ports(v@.subrange(0, 0)).intersect(managed(*old(ports))),
    ));
    while i < v.len()
        invariant
            i <= v.len(),
            *v == rec.ingress,
            ports.wf(),
            ports.same_range(*old(ports)),
            ports.next() == old(ports).next(),
            ports.taken() == old(ports).taken().union(
                host_ports(v@.subrange(0, i as int)).intersect(managed(*old(ports))),
            ),
        decreases v.len() - i,
    {
        ports.reserve(v[i].host_port);
        proof {
            let a = v@.subrange(0, i as int);
            let b = v@.subrange(0, i + 1);
            assert forall|p: u16| #[trigger]
                host_ports(b).contains(p) == (host_ports(a).contains(p) || p
                    == v@[i as int].host_port) by {
                if host_ports(a).contains(p) {
                    let k = choose|k: int| 0 <= k < a.len() && #[trigger] a[k].host_port == p;
                    assert(b[k].host_port == p);
                }
                if p == v@[i as int].host_port {
                    assert(b[i as int].host_port == p);
                }
                if host_ports(b).contains(p) && p != v@[i as int].host_port {
                    let k = choose|k: int| 0 <= k < b.len() && #[trigger] b[k].host_port == p;
                    assert(a[k].host_port == p);
                }
            }
            assert(ports.taken() =~= old(ports).taken().union(
                host_ports(b).intersect(managed(*old(ports))),
            ));
        }
        i += 1;
    }
    assert(v@.subrange(0, v.len() as int) =~= v@);
}

/// Whether one of the records has a slot.
pub open spec fn recorded_slot(recs: Seq<VmRecord>, s: SlotId) -> bool {
    exists|i: int| 0 <= i < recs.len() && has_slot(#[trigger] recs[i], s)
}

/// Whether a VM has a slot.
pub open spec fn has_slot(rec: VmRecord, s: SlotId) -> bool {
    rec.slot matches Some(t) && t.value() == s.value()
}

/// Whether one of the records has a port of the host.
pub open spec fn recorded_port(recs: Seq<VmRecord>, p: u16) -> bool {
    exists|i: int| 0 <= i < recs.len() && host_ports((#[trigger] recs[i]).ingress@).contains(p)
}

/// **Law.** After a restart the books are what the record says: with every
/// recorded VM taken up, from `slots[0]` and `ports[0]` where all was free, the
/// slots and ports that are taken are those of the recorded VMs, and no others.
pub proof fn law_the_books_are_rebuilt_from_the_record(
    recs: Seq<VmRecord>,
    slots: Seq<SlotAllocator>,
    ports: Seq<PortAllocator>,
)
    requires
        slots.len() == recs.len() + 1,
        ports.len() == recs.len() + 1,
        forall|s: SlotId| !(#[trigger] slots[0].holds(s)),
        ports[0].taken() == Set::<u16>::empty(),
        forall|i: int|
            0 <= i < recs.len() ==> readopted(
                #[trigger] recs[i],
                slots[i],
                ports[i],
                slots[i + 1],
                ports[i + 1],
            ),
    ensures
        slots.last().map().len() == slots[0].map().len(),
        ports.last().same_range(ports[0]),
        forall|s: SlotId| #[trigger]
            slots.last().holds(s) == (s.value() < slots[0].map().len() && recorded_slot(recs, s)),
        forall|p: u16| #[trigger]
            ports.last().taken().contains(p) == (ports[0].manages(p) && recorded_port(recs, p)),
    decreases recs.len(),
{
    if recs.len() > 0 {
        let n = recs.len() - 1;
        let before = recs.drop_last();
        let s0 = slots.drop_last();
        let p0 = ports.drop_last();
        assert forall|i: int| 0 <= i < before.len() implies readopted(
            #[trigger] before[i],
            s0[i],
            p0[i],
            s0[i + 1],
            p0[i + 1],
        ) by {
            assert(before[i] == recs[i]);
        }
        law_the_books_are_rebuilt_from_the_record(before, s0, p0);
        assert(readopted(recs[n], slots[n], ports[n], slots[n + 1], ports[n + 1]));
        assert(s0.last() == slots[n] && p0.last() == ports[n]);
        assert forall|s: SlotId|
            recorded_slot(recs, s) == (recorded_slot(before, s) || has_slot(recs[n], s)) by {
            if recorded_slot(before, s) {
                let i = choose|i: int| 0 <= i < before.len() && has_slot(#[trigger] before[i], s);
                assert(has_slot(recs[i], s));
            }
            if recorded_slot(recs, s) && !has_slot(recs[n], s) {
                let i = choose|i: int| 0 <= i < recs.len() && has_slot(#[trigger] recs[i], s);
                assert(has_slot(before[i], s));
            }
        }
        assert forall|s: SlotId| #[trigger]
            slots.last().holds(s) == (s.value() < slots[0].map().len() && recorded_slot(recs, s)) by {
            assert(slots[n].holds(s) == (s.value() < slots[0].map().len() && recorded_slot(
                before,
                s,
            )));
            assert(slots.last().holds(s) == (slots[n].holds(s) || (has_slot(recs[n], s) && s.value()
                < slots[n].map().len())));
        }
        assert forall|p: u16|
            recorded_port(recs, p) == (recorded_port(before, p) || host_ports(
                recs[n].ingress@,
            ).contains(p)) by {
            if recorded_port(before, p) {
                let i = choose|i: int|
                    0 <= i < before.len() && host_ports((#[trigger] before[i]).ingress@).contains(p);
                assert(host_ports(recs[i].ingress@).contains(p));
            }
            if recorded_port(recs, p) && !host_ports(recs[n].ingress@).contains(p) {
                let i = choose|i: int|
                    0 <= i < recs.len() && host_ports((#[trigger] recs[i]).ingress@).contains(p);
                assert(host_ports(before[i].ingress@).contains(p));
            }
        }
    }
}

/// Whether a VM so recorded has exited, by what its VMM says on startup.
pub open spec fn lost_at_recovery(state: VmState, status: VmStatus) -> bool {
    state == VmState::Running && status != VmStatus::Running
}

/// Whether a VM so recorded has exited, by what its VMM says to the supervisor.
pub open spec fn lost_at_tick(state: VmState, status: VmStatus) -> bool {
    state == VmState::Running && status != VmStatus::Running && status != VmStatus::Suspended
}

/// Whether a VMM has nothing of a VM running any more.
pub open spec fn over(status: VmStatus) -> bool {
    status == VmStatus::Stopped || status == VmStatus::Absent
}

/// **Law.** Only a VM that is recorded as running can have exited, and one whose
/// VMM runs it has not. The supervisor leaves a suspended one alone; a restart of
/// the daemon does not, since whoever suspended it is gone. Where a wait for the
/// exit is over, both see it.
pub proof fn law_only_a_running_vm_can_have_exited(state: VmState, status: VmStatus)
    ensures
        state != VmState::Running ==> !lost_at_recovery(state, status) && !lost_at_tick(state, status),
        status == VmStatus::Running ==> !lost_at_recovery(state, status) && !lost_at_tick(
            state,
            status,
        ) && !over(status),
        status == VmStatus::Suspended ==> !lost_at_tick(state, status) && !over(status),
        status == VmStatus::Created ==> !over(status),
        status == VmStatus::Stopped || status == VmStatus::Absent ==> over(status),
        state == VmState::Running && (status == VmStatus::Stopped || status == VmStatus::Absent
            || status == VmStatus::Created) ==> lost_at_tick(state, status),
        state == VmState::Running && status == VmStatus::Suspended ==> lost_at_recovery(
            state,
            status,
        ),
        lost_at_tick(state, status) ==> lost_at_recovery(state, status),
        state == VmState::Running && over(status) ==> lost_at_tick(state, status),
{
}

/// Whether a VM that is recorded as running has exited, as seen on startup: its
/// VMM reports anything but running.
pub fn exited_at_recovery(state: VmState, status: VmStatus) -> (r: bool)
    ensures
        r == lost_at_recovery(state, status),
{
    state == VmState::Running && status != VmStatus::Running
}

/// Whether a VM that is recorded as running has exited, as seen by the
/// supervisor: its VMM is neither running nor suspended.
pub fn exited_at_tick(state: VmState, status: VmStatus) -> (r: bool)
    ensures
        r == lost_at_tick(state, status),
{
    state == VmState::Running && status != VmStatus::Running && status != VmStatus::Suspended
}

/// Whether a wait for a VM's exit is over.
pub fn exit_seen(status: VmStatus) -> (r: bool)
    ensures
        r == over(status),
{
    status == VmStatus::Stopped || status == VmStatus::Absent
}

/// Whether `r` is the first of the recorded VMs that holds `slot`.
pub open spec fn holds_slot(v: Seq<VmRecord>, slot: SlotId, r: Option<usize>) -> bool {
    match r {
        Some(i) => {
            &&& i < v.len()
            &&& v[i as int].slot == Some(slot)
            &&& forall|k: int| 0 <= k < i ==> (#[trigger] v[k]).slot != Some(slot)
        },
        None => forall|k: int| 0 <= k < v.len() ==> (#[trigger] v[k]).slot != Some(slot),
    }
}

/// **Law.** Where each slot is held by at most one VM, the VM that is found by a
/// slot is the one that holds it, and it is found wherever it stands.
pub proof fn law_a_vm_is_found_by_its_slot(
    v: Seq<VmRecord>,
    slot: SlotId,
    r: Option<usize>,
    i: int,
)
    requires
        holds_slot(v, slot, r),
        0 <= i < v.len(),
        v[i].slot == Some(slot),
        forall|k: int| 0 <= k < v.len() && k != i ==> (#[trigger] v[k]).slot != Some(slot),
    ensures
        r is Some,
        r->0 == i,
{
}

/// The first of the recorded VMs that holds `slot`.
pub fn find_by_slot(v: &Vec<VmRecord>, slot: SlotId) -> (r: Option<usize>)
    ensures
        holds_slot(v@, slot, r),
{
    let mut i: usize = 0;
    while i < v.len()
        invariant
            i <= v.len(),
            forall|k: int| 0 <= k < i ==> (#[trigger] v@[k]).slot != Some(slot),
        decreases v.len() - i,
    {
        if let Some(s) = v[i].slot {
            if s == slot {
                return Some(i);
            }
        }
        i += 1;
    }
    None
}

/// Whether `r` is the port on which to reach into a VM.
pub open spec fn reaches_into(
    rec: VmRecord,
    port: Option<u32>,
    agent_port: u32,
    r: Result<u32, Error>,
) -> bool {
    match r {
        Ok(n) => rec.state == VmState::Running && n == (match port {
            Some(p) => p,
            None => agent_port,
        }),
        Err(e) => {
            &&& rec.state != VmState::Running
            &&& e matches Error::InvalidState { vm, state, op }
            &&& vm == rec.id
            &&& state@ == rec.state.name()
            &&& op@ == "open a guest channel to"@
        },
    }
}

/// **Law.** Only a running VM is reached into, on the port that was asked for;
/// where none was, on the guest agent's.
pub proof fn law_only_a_running_vm_is_reached_into(
    rec: VmRecord,
    port: Option<u32>,
    agent_port: u32,
    r: Result<u32, Error>,
)
    requires
        reaches_into(rec, port, agent_port, r),
    ensures
        r is Ok <==> rec.state == VmState::Running,
        r is Ok && port is Some ==> r->Ok_0 == port->0,
        r is Ok && port is None ==> r->Ok_0 == agent_port,
        r matches Err(e) ==> e is InvalidState,
{
}

/// The port on which to reach into a VM: the one asked for, or the guest
/// agent's. Refused unless the VM is running.
pub fn channel_port(rec: &VmRecord, port: Option<u32>, agent_port: u32) -> (r: Result<u32, Error>)
    ensures
        reaches_into(*rec, port, agent_port, r),
{
    if rec.state != VmState::Running {
        return Err(
            Error::InvalidState {
                vm: rec.id,
                state: rec.state.as_str(),
                op: "open a guest channel to",
            },
        );
    }
    Ok(port.unwrap_or(agent_port))
}

} // verus!
