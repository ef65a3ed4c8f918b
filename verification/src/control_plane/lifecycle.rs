//! The VM lifecycle as a state machine.
//!
//! A [`Life`] is one operation on one VM in progress. [`Life::action`] says what
//! has to be done next; the caller does it, and hands what came of it to
//! [`Life::step`], until the machine is [`Life::Done`]. The caller holds the
//! VM's lock throughout, so no two operations on one VM interleave; the slot and
//! port allocators are shared by all of them.

use crate::common::error::Error as ComponentError;
use crate::common::identify::{PolicyClaims, SignedPolicy};
use crate::common::ids::{SlotId, VmId};
use crate::common::network::{EgressMode, NetworkFixture, PortForward};
use crate::common::runtime::{InstanceSpec, SnapshotRef};
use crate::common::storage::{PoolStats, StorageHandle};
use crate::control_plane::error::Error;
use crate::control_plane::place::{
    copy_snapshot, free_ports, host_ports, instance, instance_of, next_slot, place, placed,
};
use crate::control_plane::policy::{check_signed, describes, joined_mismatches, Described};
use crate::control_plane::port::PortAllocator;
use crate::control_plane::slot::SlotAllocator;
use crate::control_plane::types::{
    CreateVm, Lifecycle, RestartPolicy, TemplateDef, VmRecord, VmState,
};
use crate::text::concat2;
use vstd::prelude::*;
use vstd::string::*;

verus! {

/// The columns of a VM's record that the lifecycle owns: disjoint from its
/// policy and its forwards.
#[derive(Debug)]
pub struct Placement {
    pub id: VmId,
    pub slot: Option<SlotId>,
    pub state: VmState,
    pub rootfs_device: Option<String>,
    pub tap: Option<String>,
    pub snapshot: Option<SnapshotRef>,
}

/// The placement columns of a record.
pub open spec fn placement_of(rec: VmRecord) -> Placement {
    Placement {
        id: rec.id,
        slot: rec.slot,
        state: rec.state,
        rootfs_device: rec.rootfs_device,
        tap: rec.tap,
        snapshot: rec.snapshot,
    }
}

/// Reads the placement columns of a record.
pub fn placement(rec: &VmRecord) -> (p: Placement)
    ensures
        p == placement_of(*rec),
{
    Placement {
        id: rec.id,
        slot: rec.slot,
        state: rec.state,
        rootfs_device: rec.rootfs_device.clone(),
        tap: rec.tap.clone(),
        snapshot: copy_snapshot(&rec.snapshot),
    }
}

/// One thing to do while winding an operation up. Giving back a slot or ports
/// is done by the machine itself; the rest is asked of the caller.
#[derive(Debug)]
pub enum Chore {
    Stop(VmId),
    Halt(VmId),
    Destroy(VmId),
    Release(VmId),
    TeardownNetwork(SlotId),
    TeardownStorage(VmId),
    Record(Placement),
    Delete(VmId),
    FreeSlot(SlotId),
    FreePorts(Vec<PortForward>),
}

/// A chore, and whether its failure ends the operation.
#[derive(Debug)]
pub struct Task {
    pub chore: Chore,
    pub required: bool,
}

/// What the operation has come to once its last chores are done.
#[derive(Debug)]
pub enum End {
    /// It succeeded; `removed` says that the VM is gone for good.
    Finish { id: VmId, removed: bool },
    /// It failed for this reason; `removed` as above.
    Fail { error: Error, removed: bool },
    /// Start the VM again.
    Restart(VmId),
}

/// Why a VM's record is being read.
#[derive(Clone, Copy, Debug, PartialEq, Eq, Structural)]
pub enum Why {
    Destroy,
    Stop,
    Halt,
    Terminate,
    Retire,
    Suspend,
    Start,
    /// Start only to ask for a clean shutdown.
    StartToRetire,
    /// The VMM exited, as a failure or not.
    Exit { failed: bool },
}

/// What a VM is being brought up for.
#[derive(Clone, Copy, Debug, PartialEq, Eq, Structural)]
pub enum For {
    Create,
    Start,
    Retire,
}

/// One operation on one VM, in progress. Each phase but the last awaits the
/// result of one action.
#[derive(Debug)]
pub enum Life {
    // Creating a VM.
    Rules { req: CreateVm, id: VmId },
    Template { req: CreateVm, id: VmId, effective: Vec<String> },
    Pool { req: CreateVm, id: VmId, tpl: TemplateDef, effective: Vec<String> },
    Claims { req: CreateVm, id: VmId, tpl: TemplateDef, effective: Vec<String> },
    Vacant { req: CreateVm, id: VmId, tpl: TemplateDef },
    Insert { rec: VmRecord, tpl: TemplateDef },
    Forward { rec: VmRecord, tpl: TemplateDef, at: usize },
    // Bringing a placed VM up.
    Provision { rec: VmRecord, tpl: TemplateDef, goal: For },
    Network { rec: VmRecord, tpl: TemplateDef, goal: For, volume: StorageHandle },
    Define { rec: VmRecord, goal: For, spec: InstanceSpec },
    Boot { rec: VmRecord, goal: For, spec: InstanceSpec },
    Clock { rec: VmRecord, goal: For, spec: InstanceSpec },
    Commit { rec: VmRecord, goal: For },
    // Everything else starts from the VM's record.
    Lookup { id: VmId, why: Why },
    StopAsk { rec: VmRecord },
    StopWait { rec: VmRecord },
    StopForce { rec: VmRecord },
    HaltAsk { rec: VmRecord },
    TermDestroy { rec: VmRecord },
    TermFile { rec: VmRecord, snapshot: SnapshotRef, second: bool },
    SuspendAsk { rec: VmRecord },
    ResumeAsk { rec: VmRecord, goal: For },
    ResumeClock { rec: VmRecord, goal: For },
    StartTemplate { rec: VmRecord, goal: For },
    StartPlace { rec: VmRecord, tpl: TemplateDef, goal: For },
    RetireStop { id: VmId },
    RetireWait { id: VmId },
    /// The last chores, in order.
    Tail { tasks: Vec<Task>, at: usize, end: End },
    /// Over: the VM the operation was about, or why it failed. `removed` says
    /// that the VM is gone and nothing will refer to its id again.
    Done { result: Result<VmId, Error>, removed: bool },
}

/// What a [`Life`] asks its caller to do.
#[derive(Debug)]
pub enum Action<'a> {
    /// Compile the egress policy of a request.
    CompileRules { allow: &'a Vec<String>, rules: &'a Vec<String> },
    GetTemplate(&'a String),
    PoolStats,
    /// Read what a signed policy claims, without verifying it.
    ReadClaims(&'a SignedPolicy),
    GetVm(VmId),
    InsertVm(&'a VmRecord),
    AddForward(VmId, PortForward),
    Provision { vm: VmId, template: &'a String },
    ApplyNetwork { slot: SlotId, egress: EgressMode, ingress: &'a Vec<PortForward> },
    Create(&'a InstanceSpec),
    Start(VmId),
    /// Tell the guest the time. Best effort.
    SyncClock(VmId),
    Stop(VmId),
    Halt(VmId),
    Destroy(VmId),
    Release(VmId),
    Suspend(VmId),
    /// Wait for the VM's exit, no longer than the graceful-stop timeout.
    WaitExit(VmId),
    /// Look whether a file is there.
    CheckFile(&'a String),
    TeardownNetwork(SlotId),
    TeardownStorage(VmId),
    Record(Placement),
    Delete(VmId),
    /// Nothing: the operation is over.
    Nothing,
}

/// Whether a file is there.
#[derive(Debug)]
pub enum FileState {
    Gone,
    Present,
    Unreadable(String),
}

/// What came of an action.
#[derive(Debug)]
pub enum Event {
    Done,
    Failed(Error),
    Rules(Result<Vec<String>, String>),
    Claims(Result<PolicyClaims, String>),
    Template(Option<TemplateDef>),
    Pool(PoolStats),
    Vm(Option<VmRecord>),
    Volume(StorageHandle),
    Fixture(NetworkFixture),
    Snapshot(SnapshotRef),
    Exited(bool),
    File(FileState),
}

// ---- plans ----

/// A chore whose failure is ignored.
pub open spec fn try_to(chore: Chore) -> Task {
    Task { chore, required: false }
}

/// A chore whose failure ends the operation.
pub open spec fn must(chore: Chore) -> Task {
    Task { chore, required: true }
}

fn make_try(chore: Chore) -> (t: Task)
    ensures
        t == try_to(chore),
{
    Task { chore, required: false }
}

fn make_must(chore: Chore) -> (t: Task)
    ensures
        t == must(chore),
{
    Task { chore, required: true }
}

/// Takes a placement's network down and gives the slot back, if there is one.
pub open spec fn leave_slot(slot: Option<SlotId>) -> Seq<Task> {
    match slot {
        Some(s) => seq![try_to(Chore::TeardownNetwork(s)), try_to(Chore::FreeSlot(s))],
        None => Seq::empty(),
    }
}

/// Undoes a creation that failed: its ports, then everything that may have been
/// set up under its identity and slot, then its record.
pub open spec fn rollback_plan(id: VmId, slot: SlotId, ingress: Vec<PortForward>) -> Seq<Task> {
    seq![
        try_to(Chore::FreePorts(ingress)),
        try_to(Chore::Halt(id)),
        try_to(Chore::Destroy(id)),
        try_to(Chore::TeardownNetwork(slot)),
        try_to(Chore::TeardownStorage(id)),
        try_to(Chore::FreeSlot(slot)),
        try_to(Chore::Delete(id)),
    ]
}

/// Removes a VM and everything of it, regardless of lifecycle.
pub open spec fn destroy_plan(rec: VmRecord) -> Seq<Task> {
    seq![
        try_to(Chore::Stop(rec.id)),
        try_to(Chore::Halt(rec.id)),
        try_to(Chore::Destroy(rec.id)),
    ] + leave_slot(rec.slot) + seq![
        try_to(Chore::FreePorts(rec.ingress)),
        try_to(Chore::TeardownStorage(rec.id)),
        must(Chore::Delete(rec.id)),
    ]
}

/// A durable VM's placement once it is stopped: no slot and no tap; its volume
/// and its snapshot stay.
pub open spec fn stopped_placement(rec: VmRecord) -> Placement {
    Placement { slot: None, tap: None, state: VmState::Stopped, ..placement_of(rec) }
}

/// What stopping a VM comes to: an ephemeral one is removed with its ports and
/// storage; of a durable one only the placement is released.
pub open spec fn finalize_plan(rec: VmRecord) -> Seq<Task> {
    match rec.lifecycle {
        Lifecycle::Ephemeral => seq![try_to(Chore::Destroy(rec.id))] + leave_slot(rec.slot) + seq![
            try_to(Chore::FreePorts(rec.ingress)),
            try_to(Chore::TeardownStorage(rec.id)),
            must(Chore::Delete(rec.id)),
        ],
        Lifecycle::Durable => seq![try_to(Chore::Release(rec.id))] + leave_slot(rec.slot) + seq![
            must(Chore::Record(stopped_placement(rec))),
        ],
    }
}

/// A durable VM's placement once its execution state is discarded.
pub open spec fn terminated_placement(rec: VmRecord) -> Placement {
    Placement {
        slot: None,
        tap: None,
        state: VmState::Stopped,
        snapshot: None,
        ..placement_of(rec)
    }
}

/// The end of a termination: the slot is given back only once the record no
/// longer holds it.
pub open spec fn terminate_plan(rec: VmRecord) -> Seq<Task> {
    match rec.slot {
        Some(s) => seq![
            must(Chore::TeardownNetwork(s)),
            must(Chore::Record(terminated_placement(rec))),
            try_to(Chore::FreeSlot(s)),
        ],
        None => seq![must(Chore::Record(terminated_placement(rec)))],
    }
}

/// A VM's placement when it is about to be started again.
pub open spec fn restart_placement(rec: VmRecord) -> Placement {
    Placement { slot: None, state: VmState::Stopped, ..placement_of(rec) }
}

/// Frees a VM's placement before it is started again.
pub open spec fn restart_plan(rec: VmRecord) -> Seq<Task> {
    leave_slot(rec.slot) + seq![must(Chore::Record(restart_placement(rec)))]
}

/// Undoes the placement of a start that failed.
pub open spec fn unplace_plan(rec: VmRecord, slot: SlotId) -> Seq<Task> {
    seq![
        try_to(Chore::FreeSlot(slot)),
        try_to(
            Chore::Record(Placement { slot: None, state: VmState::Stopped, ..placement_of(rec) }),
        ),
    ]
}

fn push_leave_slot(v: &mut Vec<Task>, slot: Option<SlotId>)
    ensures
        final(v)@ == old(v)@ + leave_slot(slot),
{
    if let Some(s) = slot {
        v.push(make_try(Chore::TeardownNetwork(s)));
        v.push(make_try(Chore::FreeSlot(s)));
    }
    assert(v@ =~= old(v)@ + leave_slot(slot));
}

fn make_rollback(id: VmId, slot: SlotId, ingress: Vec<PortForward>) -> (v: Vec<Task>)
    ensures
        v@ == rollback_plan(id, slot, ingress),
{
    let mut v: Vec<Task> = Vec::new();
    v.push(make_try(Chore::FreePorts(ingress)));
    v.push(make_try(Chore::Halt(id)));
    v.push(make_try(Chore::Destroy(id)));
    v.push(make_try(Chore::TeardownNetwork(slot)));
    v.push(make_try(Chore::TeardownStorage(id)));
    v.push(make_try(Chore::FreeSlot(slot)));
    v.push(make_try(Chore::Delete(id)));
    assert(v@ =~= rollback_plan(id, slot, ingress));
    v
}

fn make_destroy(rec: VmRecord) -> (v: Vec<Task>)
    ensures
        v@ == destroy_plan(rec),
{
    let mut v: Vec<Task> = Vec::new();
    v.push(make_try(Chore::Stop(rec.id)));
    v.push(make_try(Chore::Halt(rec.id)));
    v.push(make_try(Chore::Destroy(rec.id)));
    push_leave_slot(&mut v, rec.slot);
    v.push(make_try(Chore::FreePorts(rec.ingress)));
    v.push(make_try(Chore::TeardownStorage(rec.id)));
    v.push(make_must(Chore::Delete(rec.id)));
    assert(v@ =~= destroy_plan(rec));
    v
}

fn make_finalize(rec: VmRecord) -> (v: Vec<Task>)
    ensures
        v@ == finalize_plan(rec),
{
    let mut v: Vec<Task> = Vec::new();
    match rec.lifecycle {
        Lifecycle::Ephemeral => {
            v.push(make_try(Chore::Destroy(rec.id)));
            push_leave_slot(&mut v, rec.slot);
            v.push(make_try(Chore::FreePorts(rec.ingress)));
            v.push(make_try(Chore::TeardownStorage(rec.id)));
            v.push(make_must(Chore::Delete(rec.id)));
        },
        Lifecycle::Durable => {
            v.push(make_try(Chore::Release(rec.id)));
            push_leave_slot(&mut v, rec.slot);
            v.push(
                make_must(
                    Chore::Record(
                        Placement {
                            id: rec.id,
                            slot: None,
                            state: VmState::Stopped,
                            rootfs_device: rec.rootfs_device,
                            tap: None,
                            snapshot: rec.snapshot,
                        },
                    ),
                ),
            );
        },
    }
    assert(v@ =~= finalize_plan(rec));
    v
}

fn make_terminate(rec: VmRecord) -> (v: Vec<Task>)
    ensures
        v@ == terminate_plan(rec),
{
    let mut v: Vec<Task> = Vec::new();
    if let Some(s) = rec.slot {
        v.push(make_must(Chore::TeardownNetwork(s)));
    }
    v.push(
        make_must(
            Chore::Record(
                Placement {
                    id: rec.id,
                    slot: None,
                    state: VmState::Stopped,
                    rootfs_device: rec.rootfs_device,
                    tap: None,
                    snapshot: None,
                },
            ),
        ),
    );
    if let Some(s) = rec.slot {
        v.push(make_try(Chore::FreeSlot(s)));
    }
    assert(v@ =~= terminate_plan(rec));
    v
}

fn make_restart(rec: VmRecord) -> (v: Vec<Task>)
    ensures
        v@ == restart_plan(rec),
{
    let mut v: Vec<Task> = Vec::new();
    push_leave_slot(&mut v, rec.slot);
    v.push(
        make_must(
            Chore::Record(
                Placement {
                    id: rec.id,
                    slot: None,
                    state: VmState::Stopped,
                    rootfs_device: rec.rootfs_device,
                    tap: rec.tap,
                    snapshot: rec.snapshot,
                },
            ),
        ),
    );
    assert(v@ =~= restart_plan(rec));
    v
}

fn make_unplace(rec: VmRecord, slot: SlotId) -> (v: Vec<Task>)
    ensures
        v@ == unplace_plan(rec, slot),
{
    let mut v: Vec<Task> = Vec::new();
    v.push(make_try(Chore::FreeSlot(slot)));
    v.push(
        make_try(
            Chore::Record(
                Placement {
                    id: rec.id,
                    slot: None,
                    state: VmState::Stopped,
                    rootfs_device: rec.rootfs_device,
                    tap: rec.tap,
                    snapshot: rec.snapshot,
                },
            ),
        ),
    );
    assert(v@ =~= unplace_plan(rec, slot));
    v
}

// ---- running the chores ----

/// Whether the machine does a chore itself.
pub open spec fn inner(c: Chore) -> bool {
    c is FreeSlot || c is FreePorts
}

/// What is left of the chores once those at their front that the machine does
/// itself are done.
pub open spec fn outer_rest(t: Seq<Task>) -> Seq<Task>
    decreases t.len(),
{
    if t.len() > 0 && inner(t[0].chore) {
        outer_rest(t.subrange(1, t.len() as int))
    } else {
        t
    }
}

/// A slot map with one slot given back.
pub open spec fn map_without(m: Seq<bool>, s: SlotId) -> Seq<bool> {
    if s.value() < m.len() {
        m.update(s.value() as int, false)
    } else {
        m
    }
}

/// The slot map once those chores are done.
pub open spec fn slots_after(t: Seq<Task>, m: Seq<bool>) -> Seq<bool>
    decreases t.len(),
{
    if t.len() > 0 && inner(t[0].chore) {
        slots_after(
            t.subrange(1, t.len() as int),
            match t[0].chore {
                Chore::FreeSlot(s) => map_without(m, s),
                _ => m,
            },
        )
    } else {
        m
    }
}

/// The taken ports once those chores are done.
pub open spec fn ports_after(t: Seq<Task>, p: Set<u16>) -> Set<u16>
    decreases t.len(),
{
    if t.len() > 0 && inner(t[0].chore) {
        ports_after(
            t.subrange(1, t.len() as int),
            match t[0].chore {
                Chore::FreePorts(v) => p.difference(host_ports(v@)),
                _ => p,
            },
        )
    } else {
        p
    }
}

/// What an operation without further chores is.
pub open spec fn ended(end: End) -> Life {
    match end {
        End::Finish { id, removed } => Life::Done { result: Ok(id), removed },
        End::Fail { error, removed } => Life::Done { result: Err(error), removed },
        End::Restart(id) => Life::Lookup { id, why: Why::Start },
    }
}

/// Whether `r` is the machine that has the chores `t` ahead of it, and then `end`.
pub open spec fn winding_up(r: Life, t: Seq<Task>, end: End) -> bool {
    let rest = outer_rest(t);
    if rest.len() == 0 {
        r == ended(end)
    } else {
        &&& r matches Life::Tail { tasks, at, end: e }
        &&& at < tasks@.len()
        &&& tasks@.subrange(at as int, tasks@.len() as int) == rest
        &&& e == end
    }
}

/// Whether the allocators did what the chores at the front of `t` ask.
pub open spec fn gave_back(
    t: Seq<Task>,
    s0: SlotAllocator,
    p0: PortAllocator,
    s1: SlotAllocator,
    p1: PortAllocator,
) -> bool {
    &&& s1.wf()
    &&& p1.wf()
    &&& s1.map() == slots_after(t, s0.map())
    &&& s1.next() == s0.next()
    &&& p1.taken() == ports_after(t, p0.taken())
    &&& p1.same_range(p0)
    &&& p1.next() == p0.next()
}

fn wind_up(
    tasks: Vec<Task>,
    from: usize,
    end: End,
    slots: &mut SlotAllocator,
    ports: &mut PortAllocator,
) -> (r: Life)
    requires
        from <= tasks.len(),
        old(slots).wf(),
        old(ports).wf(),
    ensures
        winding_up(r, tasks@.subrange(from as int, tasks.len() as int), end),
        r.wf(),
        gave_back(
            tasks@.subrange(from as int, tasks.len() as int),
            *old(slots),
            *old(ports),
            *final(slots),
            *final(ports),
        ),
{
    let mut at: usize = from;
    let ghost all = tasks@.subrange(from as int, tasks.len() as int);
    while at < tasks.len()
        invariant_except_break
            from <= at <= tasks.len(),
            all == tasks@.subrange(from as int, tasks.len() as int),
            slots.wf(),
            ports.wf(),
            slots.next() == old(slots).next(),
            ports.same_range(*old(ports)),
            ports.next() == old(ports).next(),
            outer_rest(tasks@.subrange(at as int, tasks.len() as int)) == outer_rest(all),
            slots_after(tasks@.subrange(at as int, tasks.len() as int), slots.map()) == slots_after(
                all,
                old(slots).map(),
            ),
            ports_after(tasks@.subrange(at as int, tasks.len() as int), ports.taken())
                == ports_after(all, old(ports).taken()),
        ensures
            from <= at <= tasks.len(),
            slots.wf(),
            ports.wf(),
            slots.next() == old(slots).next(),
            ports.same_range(*old(ports)),
            ports.next() == old(ports).next(),
            tasks@.subrange(at as int, tasks.len() as int) == outer_rest(all),
            slots.map() == slots_after(all, old(slots).map()),
            ports.taken() == ports_after(all, old(ports).taken()),
            at < tasks.len() ==> !inner(tasks@[at as int].chore),
        decreases tasks.len() - at,
    {
        let ghost here = tasks@.subrange(at as int, tasks.len() as int);
        assert(here[0] == tasks@[at as int]);
        assert(here.subrange(1, here.len() as int) =~= tasks@.subrange(
            at + 1,
            tasks.len() as int,
        ));
        match &tasks[at].chore {
            Chore::FreeSlot(s) => {
                slots.free(*s);
            },
            Chore::FreePorts(v) => {
                free_ports(ports, v);
            },
            _ => {
                break;
            },
        }
        at += 1;
    }
    if at < tasks.len() {
        return Life::Tail { tasks, at, end };
    }
    match end {
        End::Finish { id, removed } => Life::Done { result: Ok(id), removed },
        End::Fail { error, removed } => Life::Done { result: Err(error), removed },
        End::Restart(id) => Life::Lookup { id, why: Why::Start },
    }
}

/// Starts on the chores of a plan.
fn begin_tail(
    tasks: Vec<Task>,
    end: End,
    slots: &mut SlotAllocator,
    ports: &mut PortAllocator,
) -> (r: Life)
    requires
        old(slots).wf(),
        old(ports).wf(),
    ensures
        winding_up(r, tasks@, end),
        r.wf(),
        gave_back(tasks@, *old(slots), *old(ports), *final(slots), *final(ports)),
{
    assert(tasks@.subrange(0, tasks.len() as int) =~= tasks@);
    wind_up(tasks, 0, end, slots, ports)
}

// ---- the machine ----

/// An operation that is over, having failed.
pub open spec fn failed(e: Error) -> Life {
    Life::Done { result: Err(e), removed: false }
}

/// A component failure with a message.
pub open spec fn backend_said(e: Error, msg: Seq<char>) -> bool {
    &&& e matches Error::Component(c)
    &&& c matches ComponentError::Backend(m)
    &&& m@ == msg
}

/// Whether `r` is the end of an operation that failed with this backend message.
pub open spec fn failed_with(r: Life, msg: Seq<char>) -> bool {
    &&& r matches Life::Done { result, removed }
    &&& !removed
    &&& result matches Err(e)
    &&& backend_said(e, msg)
}

/// Whether `r` is the end of an operation that is not valid in the VM's state.
pub open spec fn refused(r: Life, rec: VmRecord, op: Seq<char>) -> bool {
    &&& r matches Life::Done { result, removed }
    &&& !removed
    &&& result matches Err(e)
    &&& e matches Error::InvalidState { vm, state, op: o }
    &&& vm == rec.id
    &&& state@ == rec.state.name()
    &&& o@ == op
}

/// The policy that a creation stores.
pub open spec fn created_policy(req: CreateVm, id: VmId, effective: Vec<String>) -> Described {
    Described {
        vm: id,
        policy_gen: 1,
        egress: req.egress,
        principal: req.principal,
        effective,
    }
}

/// A VM's record once it runs as `spec`.
pub open spec fn running_as(rec: VmRecord, spec: InstanceSpec) -> VmRecord {
    VmRecord {
        rootfs_device: Some(spec.rootfs_device),
        tap: Some(spec.tap),
        state: VmState::Running,
        ..rec
    }
}

/// Whether a VM that exited is to be started again.
pub open spec fn restarts(policy: RestartPolicy, failed: bool) -> bool {
    policy == RestartPolicy::Always || (failed && policy == RestartPolicy::OnFailure)
}

impl Life {
    /// The machine's own data are in order.
    pub open spec fn wf(self) -> bool {
        match self {
            Life::Claims { req, .. } => req.signed is Some,
            Life::Insert { rec, .. } => rec.slot is Some,
            Life::Forward { rec, at, .. } => rec.slot is Some && at < rec.ingress@.len(),
            Life::Provision { rec, .. } => rec.slot is Some,
            Life::Network { rec, .. } => rec.slot is Some,
            Life::Define { rec, .. } => rec.slot is Some,
            Life::Boot { rec, .. } => rec.slot is Some,
            Life::Clock { rec, .. } => rec.slot is Some,
            Life::Commit { rec, goal } => goal == For::Create ==> rec.slot is Some,
            Life::Tail { tasks, at, .. } => at < tasks@.len() && !inner(tasks@[at as int].chore),
            Life::ResumeAsk { goal, .. } => goal != For::Create,
            Life::ResumeClock { goal, .. } => goal != For::Create,
            Life::StartTemplate { goal, .. } => goal != For::Create,
            Life::StartPlace { rec, goal, .. } => rec.slot is Some && goal != For::Create,
            _ => true,
        }
    }

    /// Whether an event answers what this machine asks for.
    pub open spec fn awaits(self, ev: Event) -> bool {
        match self {
            Life::Rules { .. } => ev is Rules,
            Life::Template { .. } => ev is Template || ev is Failed,
            Life::Pool { .. } => ev is Pool || ev is Failed,
            Life::Claims { .. } => ev is Claims,
            Life::Vacant { .. } => ev is Vm || ev is Failed,
            Life::Provision { .. } => ev is Volume || ev is Failed,
            Life::Network { .. } => ev is Fixture || ev is Failed,
            Life::Lookup { id, .. } => match ev {
                Event::Failed(_) => true,
                Event::Vm(Some(rec)) => rec.id == id,
                Event::Vm(None) => true,
                _ => false,
            },
            Life::StopWait { .. } => ev is Exited,
            Life::RetireWait { .. } => ev is Exited,
            Life::TermFile { .. } => ev is File,
            Life::SuspendAsk { .. } => ev is Snapshot || ev is Failed,
            Life::StartTemplate { .. } => ev is Template || ev is Failed,
            Life::Done { .. } => false,
            _ => ev is Done || ev is Failed,
        }
    }
}

/// What follows when bringing a VM up fails: a creation is undone, and a start
/// gives its placement back.
pub open spec fn bring_up_failed(
    rec: VmRecord,
    goal: For,
    e: Error,
    s0: SlotAllocator,
    p0: PortAllocator,
    r: Life,
    s1: SlotAllocator,
    p1: PortAllocator,
) -> bool {
    let slot = rec.slot->0;
    if goal == For::Create {
        let t = rollback_plan(rec.id, slot, rec.ingress);
        winding_up(r, t, End::Fail { error: e, removed: true }) && gave_back(t, s0, p0, s1, p1)
    } else {
        let t = unplace_plan(rec, slot);
        winding_up(r, t, End::Fail { error: e, removed: false }) && gave_back(t, s0, p0, s1, p1)
    }
}

/// What follows when a VM's record has been read.
pub open spec fn after_lookup(
    rec: VmRecord,
    why: Why,
    s0: SlotAllocator,
    p0: PortAllocator,
    r: Life,
    s1: SlotAllocator,
    p1: PortAllocator,
) -> bool {
    let still = s1 == s0 && p1 == p0;
    match why {
        Why::Destroy => {
            &&& winding_up(r, destroy_plan(rec), End::Finish { id: rec.id, removed: true })
            &&& gave_back(destroy_plan(rec), s0, p0, s1, p1)
        },
        Why::Stop => still && r == (Life::StopAsk { rec }),
        Why::Halt => still && r == (Life::HaltAsk { rec }),
        Why::Terminate => still && if rec.lifecycle == Lifecycle::Durable {
            r == (Life::TermDestroy { rec })
        } else {
            failed_with(r, "Terminate requires a durable workspace"@)
        },
        Why::Retire => still && if rec.lifecycle == Lifecycle::Durable && rec.state
            == VmState::Suspended {
            r == (Life::Lookup { id: rec.id, why: Why::StartToRetire })
        } else {
            failed_with(r, "Suspension retirement requires a suspended durable VM"@)
        },
        Why::Suspend => still && if rec.state == VmState::Running {
            r == (Life::SuspendAsk { rec })
        } else {
            refused(r, rec, "suspend"@)
        },
        Why::Start => still && started(rec, For::Start, r),
        Why::StartToRetire => still && started(rec, For::Retire, r),
        Why::Exit { failed } => if restarts(rec.restart, failed) {
            &&& winding_up(r, restart_plan(rec), End::Restart(rec.id))
            &&& gave_back(restart_plan(rec), s0, p0, s1, p1)
        } else {
            finalized(rec, s0, p0, r, s1, p1)
        },
    }
}

/// How a start begins: a suspended VM resumes in place, a stopped one is placed
/// again, and in any other state there is nothing to start.
pub open spec fn started(rec: VmRecord, goal: For, r: Life) -> bool {
    match rec.state {
        VmState::Suspended => r == (Life::ResumeAsk { rec, goal }),
        VmState::Stopped => r == (Life::StartTemplate { rec, goal }),
        _ => refused(r, rec, "start"@),
    }
}

/// What follows when a VM has been stopped.
pub open spec fn finalized(
    rec: VmRecord,
    s0: SlotAllocator,
    p0: PortAllocator,
    r: Life,
    s1: SlotAllocator,
    p1: PortAllocator,
) -> bool {
    let t = finalize_plan(rec);
    &&& winding_up(
        r,
        t,
        End::Finish { id: rec.id, removed: rec.lifecycle == Lifecycle::Ephemeral },
    )
    &&& gave_back(t, s0, p0, s1, p1)
}

/// What follows when a termination has made sure that nothing is left running.
pub open spec fn terminated(
    rec: VmRecord,
    s0: SlotAllocator,
    p0: PortAllocator,
    r: Life,
    s1: SlotAllocator,
    p1: PortAllocator,
) -> bool {
    let t = terminate_plan(rec);
    &&& winding_up(r, t, End::Finish { id: rec.id, removed: false })
    &&& gave_back(t, s0, p0, s1, p1)
}

/// What follows when a creation may take its place: its record is to be
/// written, or there was no room.
pub open spec fn admitted(
    req: CreateVm,
    id: VmId,
    tpl: TemplateDef,
    s0: SlotAllocator,
    p0: PortAllocator,
    r: Life,
    s1: SlotAllocator,
    p1: PortAllocator,
) -> bool {
    ||| exists|rec: VmRecord|
        {
            &&& #[trigger] placed(req, id, s0, p0, Ok(rec), s1, p1)
            &&& r == (Life::Insert { rec, tpl })
        }
    ||| exists|e: Error|
        {
            &&& #[trigger] placed(req, id, s0, p0, Err(e), s1, p1)
            &&& r == failed(e)
        }
}

/// What follows when a stopped VM is to be placed again.
pub open spec fn replaced(
    rec: VmRecord,
    tpl: TemplateDef,
    goal: For,
    s0: SlotAllocator,
    p0: PortAllocator,
    r: Life,
    s1: SlotAllocator,
    p1: PortAllocator,
) -> bool {
    &&& p1 == p0
    &&& s1.wf()
    &&& match s0.free_place() {
        None => s1 == s0,
        Some(place) => s1.map() == s0.map().update(place, true) && s1.next() == (place + 1)
            % s0.span(),
    }
    &&& match next_slot(s0) {
        None => r == failed(Error::SlotsExhausted),
        Some(n) => {
            &&& r matches Life::StartPlace { rec: moved, tpl: t, goal: g }
            &&& t == tpl
            &&& g == goal
            &&& moved.slot matches Some(s) && s.value() == n
            &&& moved == (VmRecord { slot: moved.slot, state: VmState::Creating, ..rec })
        },
    }
}

impl Life {
    /// Whether this is a phase of deciding on a creation and recording it.
    pub open spec fn creating(self) -> bool {
        self is Rules || self is Template || self is Pool || self is Claims || self is Vacant
            || self is Insert || self is Forward
    }

    /// Whether this is a phase of bringing a placed VM up.
    pub open spec fn rising(self) -> bool {
        self is Provision || self is Network || self is Define || self is Boot || self is Clock
            || self is Commit
    }

    /// The whole machine: what `ev` turns this one into, and what that does to
    /// the allocators.
    pub open spec fn follows(
        self,
        ev: Event,
        cid: Option<u32>,
        s0: SlotAllocator,
        p0: PortAllocator,
        r: Life,
        s1: SlotAllocator,
        p1: PortAllocator,
    ) -> bool {
        if self.creating() {
            self.follows_creating(ev, s0, p0, r, s1, p1)
        } else if self.rising() {
            self.follows_rising(ev, cid, s0, p0, r, s1, p1)
        } else {
            self.follows_else(ev, s0, p0, r, s1, p1)
        }
    }

    /// The machine while it decides on a creation and records it.
    pub open spec fn follows_creating(
        self,
        ev: Event,
        s0: SlotAllocator,
        p0: PortAllocator,
        r: Life,
        s1: SlotAllocator,
        p1: PortAllocator,
    ) -> bool {
        let still = s1 == s0 && p1 == p0;
        match (self, ev) {
            // A policy that would never compile is rejected before anything is
            // allocated for it.
            (Life::Rules { req, id }, Event::Rules(Ok(effective))) => still && r == (
            Life::Template { req, id, effective }),
            (Life::Rules { req, id }, Event::Rules(Err(m))) => still && r == failed(
                Error::InvalidRule(m),
            ),
            (Life::Template { req, id, effective }, Event::Template(Some(tpl))) => still && r == (
            Life::Pool { req, id, tpl, effective }),
            (Life::Template { req, id, effective }, Event::Template(None)) => still && r == failed(
                Error::UnknownTemplate(req.template),
            ),
            (Life::Pool { req, id, tpl, effective }, Event::Pool(ps)) => still && if ps.data_full
                || ps.metadata_full {
                r == failed(
                    Error::PoolFull {
                        data_percent: ps.data_percent,
                        metadata_percent: ps.metadata_percent,
                    },
                )
            } else if req.signed is Some {
                r == (Life::Claims { req, id, tpl, effective })
            } else {
                r == (Life::Vacant { req, id, tpl })
            },
            (Life::Claims { req, id, tpl, effective }, Event::Claims(Err(m))) => still && r
                == failed(Error::SignedMismatch(m)),
            (Life::Claims { req, id, tpl, effective }, Event::Claims(Ok(c))) => still && if describes(
                c,
                created_policy(req, id, effective),
            ) {
                r == (Life::Vacant { req, id, tpl })
            } else {
                &&& r matches Life::Done { result, removed }
                &&& !removed
                &&& result matches Err(e)
                &&& e matches Error::SignedMismatch(m)
                &&& m@ == joined_mismatches(c, created_policy(req, id, effective))
            },
            (Life::Vacant { req, id, tpl }, Event::Vm(Some(_))) => still && r == failed(
                Error::VmExists(id),
            ),
            (Life::Vacant { req, id, tpl }, Event::Vm(None)) => admitted(
                req,
                id,
                tpl,
                s0,
                p0,
                r,
                s1,
                p1,
            ),
            // The record is written before anything is set up, so that a crash
            // half-way is recoverable; then its forwards.
            (Life::Insert { rec, tpl }, Event::Done) => still && if rec.ingress@.len() > 0 {
                r == (Life::Forward { rec, tpl, at: 0 })
            } else {
                r == (Life::Provision { rec, tpl, goal: For::Create })
            },
            (Life::Insert { rec, tpl }, Event::Failed(e)) => bring_up_failed(
                rec,
                For::Create,
                e,
                s0,
                p0,
                r,
                s1,
                p1,
            ),
            (Life::Forward { rec, tpl, at }, Event::Done) => still && if at + 1
                < rec.ingress@.len() {
                r == (Life::Forward { rec, tpl, at: (at + 1) as usize })
            } else {
                r == (Life::Provision { rec, tpl, goal: For::Create })
            },
            (Life::Forward { rec, tpl, at }, Event::Failed(e)) => bring_up_failed(
                rec,
                For::Create,
                e,
                s0,
                p0,
                r,
                s1,
                p1,
            ),
            // In every such phase a failure ends the operation.
            (_, Event::Failed(e)) => still && r == failed(e),
            _ => true,
        }
    }

    /// The machine while it brings a placed VM up.
    pub open spec fn follows_rising(
        self,
        ev: Event,
        cid: Option<u32>,
        s0: SlotAllocator,
        p0: PortAllocator,
        r: Life,
        s1: SlotAllocator,
        p1: PortAllocator,
    ) -> bool {
        let still = s1 == s0 && p1 == p0;
        match (self, ev) {
            // Storage, then network, then the VMM.
            (Life::Provision { rec, tpl, goal }, Event::Volume(volume)) => still && r == (
            Life::Network { rec, tpl, goal, volume }),
            (Life::Provision { rec, tpl, goal }, Event::Failed(e)) => bring_up_failed(
                rec,
                goal,
                e,
                s0,
                p0,
                r,
                s1,
                p1,
            ),
            (Life::Network { rec, tpl, goal, volume }, Event::Fixture(net)) => still && r == (
            Life::Define {
                rec,
                goal,
                spec: instance_of(rec, tpl, volume, net, goal == For::Create, cid),
            }),
            (Life::Network { rec, tpl, goal, volume }, Event::Failed(e)) => bring_up_failed(
                rec,
                goal,
                e,
                s0,
                p0,
                r,
                s1,
                p1,
            ),
            (Life::Define { rec, goal, spec }, Event::Done) => still && r == (Life::Boot {
                rec,
                goal,
                spec,
            }),
            (Life::Define { rec, goal, spec }, Event::Failed(e)) => bring_up_failed(
                rec,
                goal,
                e,
                s0,
                p0,
                r,
                s1,
                p1,
            ),
            // Only a resumed guest has to be told the time.
            (Life::Boot { rec, goal, spec }, Event::Done) => still && if spec.resume_from is Some {
                r == (Life::Clock { rec, goal, spec })
            } else {
                r == (Life::Commit { rec: running_as(rec, spec), goal })
            },
            (Life::Boot { rec, goal, spec }, Event::Failed(e)) => bring_up_failed(
                rec,
                goal,
                e,
                s0,
                p0,
                r,
                s1,
                p1,
            ),
            (Life::Clock { rec, goal, spec }, _) => still && r == (Life::Commit {
                rec: running_as(rec, spec),
                goal,
            }),
            (Life::Commit { rec, goal }, Event::Done) => still && if goal == For::Retire {
                r == (Life::RetireStop { id: rec.id })
            } else {
                r == (Life::Done { result: Ok(rec.id), removed: false })
            },
            (Life::Commit { rec, goal }, Event::Failed(e)) => if goal == For::Create {
                bring_up_failed(rec, goal, e, s0, p0, r, s1, p1)
            } else {
                still && r == failed(e)
            },
            _ => true,
        }
    }

    /// The machine in all other phases.
    pub open spec fn follows_else(
        self,
        ev: Event,
        s0: SlotAllocator,
        p0: PortAllocator,
        r: Life,
        s1: SlotAllocator,
        p1: PortAllocator,
    ) -> bool {
        let still = s1 == s0 && p1 == p0;
        match (self, ev) {
            // A VM that is not there: an exit of it needs no handling.
            (Life::Lookup { id, why }, Event::Vm(None)) => still && if why is Exit {
                r == (Life::Done { result: Ok(id), removed: false })
            } else {
                r == failed(Error::UnknownVm(id))
            },
            (Life::Lookup { id, why }, Event::Vm(Some(rec))) => after_lookup(
                rec,
                why,
                s0,
                p0,
                r,
                s1,
                p1,
            ),
            // A graceful stop that the guest does not answer is forced.
            (Life::StopAsk { rec }, Event::Done) => still && r == (Life::StopWait { rec }),
            (Life::StopWait { rec }, Event::Exited(exited)) => if exited {
                finalized(rec, s0, p0, r, s1, p1)
            } else {
                still && r == (Life::StopForce { rec })
            },
            (Life::StopForce { rec }, _) => finalized(rec, s0, p0, r, s1, p1),
            (Life::HaltAsk { rec }, Event::Done) => finalized(rec, s0, p0, r, s1, p1),
            // A termination goes on only once the suspension files are gone.
            (Life::TermDestroy { rec }, Event::Done) => match rec.snapshot {
                Some(snapshot) => still && r == (Life::TermFile { rec, snapshot, second: false }),
                None => terminated(rec, s0, p0, r, s1, p1),
            },
            (Life::TermFile { rec, snapshot, second }, Event::File(FileState::Gone)) => if second {
                terminated(rec, s0, p0, r, s1, p1)
            } else {
                still && r == (Life::TermFile { rec, snapshot, second: true })
            },
            (Life::TermFile { .. }, Event::File(FileState::Present)) => still && failed_with(
                r,
                "Suspension snapshot cleanup not confirmed"@,
            ),
            (Life::TermFile { .. }, Event::File(FileState::Unreadable(m))) => still && failed_with(
                r,
                "Check suspension cleanup: "@ + m@,
            ),
            // Where the snapshot landed is kept: without it a later start would
            // fall back to the template and discard this VM's state.
            (Life::SuspendAsk { rec }, Event::Snapshot(snapshot)) => {
                let t = seq![
                    must(
                        Chore::Record(
                            Placement {
                                snapshot: Some(snapshot),
                                state: VmState::Suspended,
                                ..placement_of(rec)
                            },
                        ),
                    ),
                ];
                still && winding_up(r, t, End::Finish { id: rec.id, removed: false })
            },
            (Life::ResumeAsk { rec, goal }, Event::Done) => still && r == (Life::ResumeClock {
                rec,
                goal,
            }),
            (Life::ResumeClock { rec, goal }, _) => still && r == (Life::Commit {
                rec: VmRecord { state: VmState::Running, ..rec },
                goal,
            }),
            (Life::StartTemplate { rec, goal }, Event::Template(None)) => still && r == failed(
                Error::UnknownTemplate(rec.template),
            ),
            (Life::StartTemplate { rec, goal }, Event::Template(Some(tpl))) => replaced(
                rec,
                tpl,
                goal,
                s0,
                p0,
                r,
                s1,
                p1,
            ),
            (Life::StartPlace { rec, tpl, goal }, Event::Done) => still && r == (Life::Provision {
                rec,
                tpl,
                goal,
            }),
            // Resumed only to be shut down cleanly: never forced.
            (Life::RetireStop { id }, Event::Done) => still && r == (Life::RetireWait { id }),
            (Life::RetireWait { id }, Event::Exited(exited)) => still && if exited {
                r == (Life::Lookup { id, why: Why::Terminate })
            } else {
                failed_with(
                    r,
                    "Clean shutdown not confirmed; suspension files retained, inspect VM before recovery"@,
                )
            },
            (Life::Tail { tasks, at, end }, Event::Failed(e)) => if tasks@[at as int].required {
                still && r == failed(e)
            } else {
                let t = tasks@.subrange(at + 1, tasks@.len() as int);
                winding_up(r, t, end) && gave_back(t, s0, p0, s1, p1)
            },
            (Life::Tail { tasks, at, end }, _) => {
                let t = tasks@.subrange(at + 1, tasks@.len() as int);
                winding_up(r, t, end) && gave_back(t, s0, p0, s1, p1)
            },
            // In every other phase a failure ends the operation.
            (_, Event::Failed(e)) => still && r == failed(e),
            _ => true,
        }
    }

    /// Begins the creation of a VM under `id`.
    pub fn create(req: CreateVm, id: VmId) -> (r: Life)
        ensures
            r == (Life::Rules { req, id }),
            r.wf(),
    {
        Life::Rules { req, id }
    }

    /// Begins any other operation on the VM `id`.
    pub fn begin(id: VmId, why: Why) -> (r: Life)
        ensures
            r == (Life::Lookup { id, why }),
            r.wf(),
    {
        Life::Lookup { id, why }
    }
}

fn backend(msg: &str) -> (e: Error)
    ensures
        backend_said(e, msg@),
{
    Error::Component(ComponentError::Backend(msg.to_string()))
}

fn fail(e: Error) -> (r: Life)
    ensures
        r == failed(e),
{
    Life::Done { result: Err(e), removed: false }
}

fn refuse(rec: &VmRecord, op: &'static str) -> (r: Life)
    ensures
        refused(r, *rec, op@),
{
    Life::Done {
        result: Err(Error::InvalidState { vm: rec.id, state: rec.state.as_str(), op }),
        removed: false,
    }
}

fn give_up(
    rec: VmRecord,
    goal: For,
    e: Error,
    slots: &mut SlotAllocator,
    ports: &mut PortAllocator,
) -> (r: Life)
    requires
        rec.slot is Some,
        old(slots).wf(),
        old(ports).wf(),
    ensures
        bring_up_failed(rec, goal, e, *old(slots), *old(ports), r, *final(slots), *final(ports)),
        r.wf(),
        final(slots).wf(),
        final(ports).wf(),
{
    let slot = rec.slot.unwrap();
    if goal == For::Create {
        let t = make_rollback(rec.id, slot, rec.ingress);
        begin_tail(t, End::Fail { error: e, removed: true }, slots, ports)
    } else {
        let t = make_unplace(rec, slot);
        begin_tail(t, End::Fail { error: e, removed: false }, slots, ports)
    }
}

fn finalize(rec: VmRecord, slots: &mut SlotAllocator, ports: &mut PortAllocator) -> (r: Life)
    requires
        old(slots).wf(),
        old(ports).wf(),
    ensures
        finalized(rec, *old(slots), *old(ports), r, *final(slots), *final(ports)),
        r.wf(),
        final(slots).wf(),
        final(ports).wf(),
{
    let end = End::Finish { id: rec.id, removed: rec.lifecycle == Lifecycle::Ephemeral };
    let t = make_finalize(rec);
    begin_tail(t, end, slots, ports)
}

fn terminate(rec: VmRecord, slots: &mut SlotAllocator, ports: &mut PortAllocator) -> (r: Life)
    requires
        old(slots).wf(),
        old(ports).wf(),
    ensures
        terminated(rec, *old(slots), *old(ports), r, *final(slots), *final(ports)),
        r.wf(),
        final(slots).wf(),
        final(ports).wf(),
{
    let end = End::Finish { id: rec.id, removed: false };
    let t = make_terminate(rec);
    begin_tail(t, end, slots, ports)
}

fn start(rec: VmRecord, goal: For) -> (r: Life)
    requires
        goal != For::Create,
    ensures
        started(rec, goal, r),
        r.wf(),
{
    match rec.state {
        VmState::Suspended => Life::ResumeAsk { rec, goal },
        VmState::Stopped => Life::StartTemplate { rec, goal },
        _ => refuse(&rec, "start"),
    }
}

fn look_up(
    rec: VmRecord,
    why: Why,
    slots: &mut SlotAllocator,
    ports: &mut PortAllocator,
) -> (r: Life)
    requires
        old(slots).wf(),
        old(ports).wf(),
    ensures
        after_lookup(rec, why, *old(slots), *old(ports), r, *final(slots), *final(ports)),
        r.wf(),
        final(slots).wf(),
        final(ports).wf(),
{
    match why {
        Why::Destroy => {
            let end = End::Finish { id: rec.id, removed: true };
            let t = make_destroy(rec);
            begin_tail(t, end, slots, ports)
        },
        Why::Stop => Life::StopAsk { rec },
        Why::Halt => Life::HaltAsk { rec },
        Why::Terminate => if rec.lifecycle == Lifecycle::Durable {
            Life::TermDestroy { rec }
        } else {
            fail(backend("Terminate requires a durable workspace"))
        },
        Why::Retire => if rec.lifecycle == Lifecycle::Durable && rec.state == VmState::Suspended {
            Life::Lookup { id: rec.id, why: Why::StartToRetire }
        } else {
            fail(backend("Suspension retirement requires a suspended durable VM"))
        },
        Why::Suspend => if rec.state == VmState::Running {
            Life::SuspendAsk { rec }
        } else {
            refuse(&rec, "suspend")
        },
        Why::Start => start(rec, For::Start),
        Why::StartToRetire => start(rec, For::Retire),
        Why::Exit { failed } => {
            let again = rec.restart == RestartPolicy::Always || (failed && rec.restart
                == RestartPolicy::OnFailure);
            if again {
                let end = End::Restart(rec.id);
                let t = make_restart(rec);
                begin_tail(t, end, slots, ports)
            } else {
                finalize(rec, slots, ports)
            }
        },
    }
}

fn take_place(
    req: CreateVm,
    id: VmId,
    tpl: TemplateDef,
    slots: &mut SlotAllocator,
    ports: &mut PortAllocator,
) -> (r: Life)
    requires
        old(slots).wf(),
        old(ports).wf(),
    ensures
        admitted(req, id, tpl, *old(slots), *old(ports), r, *final(slots), *final(ports)),
        r.wf(),
        final(slots).wf(),
        final(ports).wf(),
{
    match place(req, id, slots, ports) {
        Ok(rec) => Life::Insert { rec, tpl },
        Err(e) => fail(e),
    }
}

fn replace(
    rec: VmRecord,
    tpl: TemplateDef,
    goal: For,
    slots: &mut SlotAllocator,
    ports: &mut PortAllocator,
) -> (r: Life)
    requires
        goal != For::Create,
        old(slots).wf(),
        old(ports).wf(),
    ensures
        replaced(rec, tpl, goal, *old(slots), *old(ports), r, *final(slots), *final(ports)),
        r.wf(),
{
    match slots.allocate() {
        Some(slot) => {
            let mut moved = rec;
            moved.slot = Some(slot);
            moved.state = VmState::Creating;
            Life::StartPlace { rec: moved, tpl, goal }
        },
        None => fail(Error::SlotsExhausted),
    }
}

fn commit(rec: VmRecord, goal: For, spec: InstanceSpec) -> (r: Life)
    requires
        rec.slot is Some,
    ensures
        r == (Life::Commit { rec: running_as(rec, spec), goal }),
        r.wf(),
{
    let mut up = rec;
    up.rootfs_device = Some(spec.rootfs_device);
    up.tap = Some(spec.tap);
    up.state = VmState::Running;
    Life::Commit { rec: up, goal }
}

/// The action that a chore asks for.
pub open spec fn chore_asks<'a>(c: Chore) -> Action<'a> {
    match c {
        Chore::Stop(id) => Action::Stop(id),
        Chore::Halt(id) => Action::Halt(id),
        Chore::Destroy(id) => Action::Destroy(id),
        Chore::Release(id) => Action::Release(id),
        Chore::TeardownNetwork(s) => Action::TeardownNetwork(s),
        Chore::TeardownStorage(id) => Action::TeardownStorage(id),
        Chore::Record(p) => Action::Record(p),
        Chore::Delete(id) => Action::Delete(id),
        Chore::FreeSlot(_) => Action::Nothing,
        Chore::FreePorts(_) => Action::Nothing,
    }
}

fn copy_placement(p: &Placement) -> (r: Placement)
    ensures
        r == *p,
{
    Placement {
        id: p.id,
        slot: p.slot,
        state: p.state,
        rootfs_device: p.rootfs_device.clone(),
        tap: p.tap.clone(),
        snapshot: copy_snapshot(&p.snapshot),
    }
}

impl Life {
    /// What this machine asks for next.
    pub open spec fn asks(&self) -> Action<'_> {
        match self {
            Life::Rules { req, .. } => Action::CompileRules { allow: &req.allow, rules: &req.rules },
            Life::Template { req, .. } => Action::GetTemplate(&req.template),
            Life::Pool { .. } => Action::PoolStats,
            Life::Claims { req, .. } => match &req.signed {
                Some(signed) => Action::ReadClaims(signed),
                None => Action::Nothing,
            },
            Life::Vacant { id, .. } => Action::GetVm(*id),
            Life::Insert { rec, .. } => Action::InsertVm(rec),
            Life::Forward { rec, at, .. } => Action::AddForward(rec.id, rec.ingress@[*at as int]),
            Life::Provision { rec, tpl, .. } => Action::Provision {
                vm: rec.id,
                template: &tpl.rootfs_template,
            },
            Life::Network { rec, .. } => match rec.slot {
                Some(slot) => Action::ApplyNetwork {
                    slot,
                    egress: rec.egress,
                    ingress: &rec.ingress,
                },
                None => Action::Nothing,
            },
            Life::Define { spec, .. } => Action::Create(spec),
            Life::Boot { rec, .. } => Action::Start(rec.id),
            Life::Clock { rec, .. } => Action::SyncClock(rec.id),
            Life::Commit { rec, .. } => Action::Record(placement_of(*rec)),
            Life::Lookup { id, .. } => Action::GetVm(*id),
            Life::StopAsk { rec } => Action::Stop(rec.id),
            Life::StopWait { rec } => Action::WaitExit(rec.id),
            Life::StopForce { rec } => Action::Halt(rec.id),
            Life::HaltAsk { rec } => Action::Halt(rec.id),
            Life::TermDestroy { rec } => Action::Destroy(rec.id),
            Life::TermFile { snapshot, second, .. } => if *second {
                Action::CheckFile(&snapshot.vmstate)
            } else {
                Action::CheckFile(&snapshot.mem_file)
            },
            Life::SuspendAsk { rec } => Action::Suspend(rec.id),
            Life::ResumeAsk { rec, .. } => Action::Start(rec.id),
            Life::ResumeClock { rec, .. } => Action::SyncClock(rec.id),
            Life::StartTemplate { rec, .. } => Action::GetTemplate(&rec.template),
            Life::StartPlace { rec, .. } => Action::Record(placement_of(*rec)),
            Life::RetireStop { id } => Action::Stop(*id),
            Life::RetireWait { id } => Action::WaitExit(*id),
            Life::Tail { tasks, at, .. } => chore_asks(tasks@[*at as int].chore),
            Life::Done { .. } => Action::Nothing,
        }
    }

    /// What has to be done next.
    pub fn action(&self) -> (a: Action<'_>)
        requires
            self.wf(),
        ensures
            a == self.asks(),
    {
        match self {
            Life::Rules { req, .. } => Action::CompileRules { allow: &req.allow, rules: &req.rules },
            Life::Template { req, .. } => Action::GetTemplate(&req.template),
            Life::Pool { .. } => Action::PoolStats,
            Life::Claims { req, .. } => match &req.signed {
                Some(signed) => Action::ReadClaims(signed),
                None => Action::Nothing,
            },
            Life::Vacant { id, .. } => Action::GetVm(*id),
            Life::Insert { rec, .. } => Action::InsertVm(rec),
            Life::Forward { rec, at, .. } => Action::AddForward(rec.id, rec.ingress[*at]),
            Life::Provision { rec, tpl, .. } => Action::Provision {
                vm: rec.id,
                template: &tpl.rootfs_template,
            },
            Life::Network { rec, .. } => match rec.slot {
                Some(slot) => Action::ApplyNetwork {
                    slot,
                    egress: rec.egress,
                    ingress: &rec.ingress,
                },
                None => Action::Nothing,
            },
            Life::Define { spec, .. } => Action::Create(spec),
            Life::Boot { rec, .. } => Action::Start(rec.id),
            Life::Clock { rec, .. } => Action::SyncClock(rec.id),
            Life::Commit { rec, .. } => Action::Record(placement(rec)),
            Life::Lookup { id, .. } => Action::GetVm(*id),
            Life::StopAsk { rec } => Action::Stop(rec.id),
            Life::StopWait { rec } => Action::WaitExit(rec.id),
            Life::StopForce { rec } => Action::Halt(rec.id),
            Life::HaltAsk { rec } => Action::Halt(rec.id),
            Life::TermDestroy { rec } => Action::Destroy(rec.id),
            Life::TermFile { snapshot, second, .. } => if *second {
                Action::CheckFile(&snapshot.vmstate)
            } else {
                Action::CheckFile(&snapshot.mem_file)
            },
            Life::SuspendAsk { rec } => Action::Suspend(rec.id),
            Life::ResumeAsk { rec, .. } => Action::Start(rec.id),
            Life::ResumeClock { rec, .. } => Action::SyncClock(rec.id),
            Life::StartTemplate { rec, .. } => Action::GetTemplate(&rec.template),
            Life::StartPlace { rec, .. } => Action::Record(placement(rec)),
            Life::RetireStop { id } => Action::Stop(*id),
            Life::RetireWait { id } => Action::WaitExit(*id),
            Life::Tail { tasks, at, .. } => match &tasks[*at].chore {
                Chore::Stop(id) => Action::Stop(*id),
                Chore::Halt(id) => Action::Halt(*id),
                Chore::Destroy(id) => Action::Destroy(*id),
                Chore::Release(id) => Action::Release(*id),
                Chore::TeardownNetwork(s) => Action::TeardownNetwork(*s),
                Chore::TeardownStorage(id) => Action::TeardownStorage(*id),
                Chore::Record(p) => Action::Record(copy_placement(p)),
                Chore::Delete(id) => Action::Delete(*id),
                Chore::FreeSlot(_) => Action::Nothing,
                Chore::FreePorts(_) => Action::Nothing,
            },
            Life::Done { .. } => Action::Nothing,
        }
    }

    /// Whether the operation is over.
    pub fn is_done(&self) -> (r: bool)
        ensures
            r == (self is Done),
    {
        match self {
            Life::Done { .. } => true,
            _ => false,
        }
    }

    /// Takes what came of the action that was asked for, and goes on.
    pub fn step(
        self,
        ev: Event,
        vsock_cid: Option<u32>,
        slots: &mut SlotAllocator,
        ports: &mut PortAllocator,
    ) -> (r: Life)
        requires
            self.wf(),
            self.awaits(ev),
            old(slots).wf(),
            old(ports).wf(),
        ensures
            self.follows(ev, vsock_cid, *old(slots), *old(ports), r, *final(slots), *final(ports)),
            r.wf(),
            final(slots).wf(),
            final(ports).wf(),
    {
        match &self {
            Life::Rules { .. } => self.step_creating(ev, slots, ports),
            Life::Template { .. } => self.step_creating(ev, slots, ports),
            Life::Pool { .. } => self.step_creating(ev, slots, ports),
            Life::Claims { .. } => self.step_creating(ev, slots, ports),
            Life::Vacant { .. } => self.step_creating(ev, slots, ports),
            Life::Insert { .. } => self.step_creating(ev, slots, ports),
            Life::Forward { .. } => self.step_creating(ev, slots, ports),
            Life::Provision { .. } => self.step_rising(ev, vsock_cid, slots, ports),
            Life::Network { .. } => self.step_rising(ev, vsock_cid, slots, ports),
            Life::Define { .. } => self.step_rising(ev, vsock_cid, slots, ports),
            Life::Boot { .. } => self.step_rising(ev, vsock_cid, slots, ports),
            Life::Clock { .. } => self.step_rising(ev, vsock_cid, slots, ports),
            Life::Commit { .. } => self.step_rising(ev, vsock_cid, slots, ports),
            _ => self.step_else(ev, slots, ports),
        }
    }

    fn step_creating(
        self,
        ev: Event,
        slots: &mut SlotAllocator,
        ports: &mut PortAllocator,
    ) -> (r: Life)
        requires
            self.creating(),
            self.wf(),
            self.awaits(ev),
            old(slots).wf(),
            old(ports).wf(),
        ensures
            self.follows_creating(ev, *old(slots), *old(ports), r, *final(slots), *final(ports)),
            r.wf(),
            final(slots).wf(),
            final(ports).wf(),
    {
        match self {
            Life::Rules { req, id } => match ev {
                Event::Rules(Ok(effective)) => Life::Template { req, id, effective },
                Event::Rules(Err(m)) => fail(Error::InvalidRule(m)),
                _ => vstd::pervasive::unreached(),
            },
            Life::Template { req, id, effective } => match ev {
                Event::Template(Some(tpl)) => Life::Pool { req, id, tpl, effective },
                Event::Template(None) => fail(Error::UnknownTemplate(req.template)),
                Event::Failed(e) => fail(e),
                _ => vstd::pervasive::unreached(),
            },
            Life::Pool { req, id, tpl, effective } => match ev {
                Event::Pool(ps) => if ps.data_full || ps.metadata_full {
                    fail(
                        Error::PoolFull {
                            data_percent: ps.data_percent,
                            metadata_percent: ps.metadata_percent,
                        },
                    )
                } else if req.signed.is_some() {
                    Life::Claims { req, id, tpl, effective }
                } else {
                    Life::Vacant { req, id, tpl }
                },
                Event::Failed(e) => fail(e),
                _ => vstd::pervasive::unreached(),
            },
            Life::Claims { req, id, tpl, effective } => match ev {
                Event::Claims(Ok(c)) => {
                    let d = Described {
                        vm: id,
                        policy_gen: 1,
                        egress: req.egress,
                        principal: req.principal.clone(),
                        effective,
                    };
                    match check_signed(&c, &d) {
                        Ok(_) => Life::Vacant { req, id, tpl },
                        Err(e) => fail(e),
                    }
                },
                Event::Claims(Err(m)) => fail(Error::SignedMismatch(m)),
                _ => vstd::pervasive::unreached(),
            },
            Life::Vacant { req, id, tpl } => match ev {
                Event::Vm(Some(_)) => fail(Error::VmExists(id)),
                Event::Vm(None) => take_place(req, id, tpl, slots, ports),
                Event::Failed(e) => fail(e),
                _ => vstd::pervasive::unreached(),
            },
            Life::Insert { rec, tpl } => match ev {
                Event::Failed(e) => give_up(rec, For::Create, e, slots, ports),
                _ => if rec.ingress.len() > 0 {
                    Life::Forward { rec, tpl, at: 0 }
                } else {
                    Life::Provision { rec, tpl, goal: For::Create }
                },
            },
            Life::Forward { rec, tpl, at } => match ev {
                Event::Failed(e) => give_up(rec, For::Create, e, slots, ports),
                _ => if rec.ingress.len() - at > 1 {
                    Life::Forward { rec, tpl, at: at + 1 }
                } else {
                    Life::Provision { rec, tpl, goal: For::Create }
                },
            },
            _ => vstd::pervasive::unreached(),
        }
    }

    fn step_rising(
        self,
        ev: Event,
        vsock_cid: Option<u32>,
        slots: &mut SlotAllocator,
        ports: &mut PortAllocator,
    ) -> (r: Life)
        requires
            self.rising(),
            self.wf(),
            self.awaits(ev),
            old(slots).wf(),
            old(ports).wf(),
        ensures
            self.follows_rising(ev, vsock_cid, *old(slots), *old(ports), r, *final(slots), *final(ports)),
            r.wf(),
            final(slots).wf(),
            final(ports).wf(),
    {
        match self {
            Life::Provision { rec, tpl, goal } => match ev {
                Event::Volume(volume) => Life::Network { rec, tpl, goal, volume },
                Event::Failed(e) => give_up(rec, goal, e, slots, ports),
                _ => vstd::pervasive::unreached(),
            },
            Life::Network { rec, tpl, goal, volume } => match ev {
                Event::Fixture(net) => {
                    let spec = instance(&rec, &tpl, volume, net, goal == For::Create, vsock_cid);
                    Life::Define { rec, goal, spec }
                },
                Event::Failed(e) => give_up(rec, goal, e, slots, ports),
                _ => vstd::pervasive::unreached(),
            },
            Life::Define { rec, goal, spec } => match ev {
                Event::Failed(e) => give_up(rec, goal, e, slots, ports),
                _ => Life::Boot { rec, goal, spec },
            },
            Life::Boot { rec, goal, spec } => match ev {
                Event::Failed(e) => give_up(rec, goal, e, slots, ports),
                _ => if spec.resume_from.is_some() {
                    Life::Clock { rec, goal, spec }
                } else {
                    commit(rec, goal, spec)
                },
            },
            Life::Clock { rec, goal, spec } => commit(rec, goal, spec),
            Life::Commit { rec, goal } => match ev {
                Event::Failed(e) => if goal == For::Create {
                    give_up(rec, goal, e, slots, ports)
                } else {
                    fail(e)
                },
                _ => if goal == For::Retire {
                    Life::RetireStop { id: rec.id }
                } else {
                    Life::Done { result: Ok(rec.id), removed: false }
                },
            },
            _ => vstd::pervasive::unreached(),
        }
    }

    fn step_else(
        self,
        ev: Event,
        slots: &mut SlotAllocator,
        ports: &mut PortAllocator,
    ) -> (r: Life)
        requires
            !self.creating() && !self.rising(),
            self.wf(),
            self.awaits(ev),
            old(slots).wf(),
            old(ports).wf(),
        ensures
            self.follows_else(ev, *old(slots), *old(ports), r, *final(slots), *final(ports)),
            r.wf(),
            final(slots).wf(),
            final(ports).wf(),
    {
        match self {
            Life::Lookup { id, why } => match ev {
                Event::Vm(Some(rec)) => look_up(rec, why, slots, ports),
                Event::Vm(None) => match why {
                    Why::Exit { .. } => Life::Done { result: Ok(id), removed: false },
                    _ => fail(Error::UnknownVm(id)),
                },
                Event::Failed(e) => fail(e),
                _ => vstd::pervasive::unreached(),
            },
            Life::StopAsk { rec } => match ev {
                Event::Failed(e) => fail(e),
                _ => Life::StopWait { rec },
            },
            Life::StopWait { rec } => match ev {
                Event::Exited(true) => finalize(rec, slots, ports),
                _ => Life::StopForce { rec },
            },
            Life::StopForce { rec } => finalize(rec, slots, ports),
            Life::HaltAsk { rec } => match ev {
                Event::Failed(e) => fail(e),
                _ => finalize(rec, slots, ports),
            },
            Life::TermDestroy { rec } => match ev {
                Event::Failed(e) => fail(e),
                _ => match copy_snapshot(&rec.snapshot) {
                    Some(snapshot) => Life::TermFile { rec, snapshot, second: false },
                    None => terminate(rec, slots, ports),
                },
            },
            Life::TermFile { rec, snapshot, second } => match ev {
                Event::File(FileState::Gone) => if second {
                    terminate(rec, slots, ports)
                } else {
                    Life::TermFile { rec, snapshot, second: true }
                },
                Event::File(FileState::Present) => fail(
                    backend("Suspension snapshot cleanup not confirmed"),
                ),
                Event::File(FileState::Unreadable(m)) => {
                    let said = concat2("Check suspension cleanup: ", m.as_str());
                    fail(backend(said.as_str()))
                },
                _ => vstd::pervasive::unreached(),
            },
            Life::SuspendAsk { rec } => match ev {
                Event::Snapshot(snapshot) => {
                    let id = rec.id;
                    let p = Placement {
                        id,
                        slot: rec.slot,
                        state: VmState::Suspended,
                        rootfs_device: rec.rootfs_device,
                        tap: rec.tap,
                        snapshot: Some(snapshot),
                    };
                    let mut tasks: Vec<Task> = Vec::new();
                    tasks.push(make_must(Chore::Record(p)));
                    proof {
                        assert(tasks@ =~= seq![must(Chore::Record(p))]);
                        assert(tasks@.subrange(0, 1) =~= tasks@);
                    }
                    Life::Tail { tasks, at: 0, end: End::Finish { id, removed: false } }
                },
                Event::Failed(e) => fail(e),
                _ => vstd::pervasive::unreached(),
            },
            Life::ResumeAsk { rec, goal } => match ev {
                Event::Failed(e) => fail(e),
                _ => Life::ResumeClock { rec, goal },
            },
            Life::ResumeClock { rec, goal } => {
                let mut up = rec;
                up.state = VmState::Running;
                Life::Commit { rec: up, goal }
            },
            Life::StartTemplate { rec, goal } => match ev {
                Event::Template(Some(tpl)) => replace(rec, tpl, goal, slots, ports),
                Event::Template(None) => fail(Error::UnknownTemplate(rec.template)),
                Event::Failed(e) => fail(e),
                _ => vstd::pervasive::unreached(),
            },
            Life::StartPlace { rec, tpl, goal } => match ev {
                Event::Failed(e) => fail(e),
                _ => Life::Provision { rec, tpl, goal },
            },
            Life::RetireStop { id } => match ev {
                Event::Failed(e) => fail(e),
                _ => Life::RetireWait { id },
            },
            Life::RetireWait { id } => match ev {
                Event::Exited(true) => Life::Lookup { id, why: Why::Terminate },
                _ => fail(
                    backend(
                        "Clean shutdown not confirmed; suspension files retained, inspect VM before recovery",
                    ),
                ),
            },
            Life::Tail { tasks, at, end } => {
                let n: usize = tasks.len();
                match ev {
                    Event::Failed(e) => if tasks[at].required {
                        fail(e)
                    } else {
                        wind_up(tasks, at + 1, end, slots, ports)
                    },
                    _ => wind_up(tasks, at + 1, end, slots, ports),
                }
            },
            _ => vstd::pervasive::unreached(),
        }
    }
}

} // verus!
