//! What holds of the VM lifecycle as a whole.

use crate::common::ids::{SlotId, VmId, SLOT_MAX};
use crate::common::network::PortForward;
use crate::common::runtime::SnapshotRef;
use crate::control_plane::error::Error;
use crate::control_plane::lifecycle::{
    bring_up_failed, destroy_plan, finalize_plan, gave_back, inner, leave_slot, map_without, must, outer_rest,
    placement_of, ports_after, rollback_plan, slots_after, stopped_placement, terminate_plan,
    terminated_placement, try_to, winding_up, Action, Chore, End, Event, FileState, For, Life, Placement, Task, Why,
};
use crate::control_plane::place::{host_ports, instance_of, placed, resume_point};
use crate::control_plane::port::PortAllocator;
use crate::control_plane::slot::{law_allocation_hands_out_a_free_slot, SlotAllocator};
use crate::control_plane::types::{
    egress_name, Lifecycle, RestartPolicy, TemplateDef, VmRecord, VmState,
};
use crate::text::{text_of, texts_of};
use vstd::prelude::*;

verus! {

// ---- a creation that fails gives everything back ----

/// The slots that are taken.
pub open spec fn taken_slots(m: Seq<bool>) -> Set<int> {
    Set::new(|i: int| 0 <= i < m.len() && m[i])
}

/// The slots that chores give back.
pub open spec fn freed_slots(t: Seq<Task>) -> Set<int> {
    Set::new(
        |n: int|
            exists|i: int|
                0 <= i < t.len() && (#[trigger] t[i].chore matches Chore::FreeSlot(s) && s.value()
                    == n),
    )
}

/// The ports that chores give back.
pub open spec fn freed_ports(t: Seq<Task>) -> Set<u16> {
    Set::new(
        |p: u16|
            exists|i: int|
                0 <= i < t.len() && (#[trigger] t[i].chore matches Chore::FreePorts(v)
                    && host_ports(v@).contains(p)),
    )
}

/// The chores that a machine still has ahead of it.
pub open spec fn ahead(l: Life) -> Seq<Task> {
    match l {
        Life::Tail { tasks, at, .. } => tasks@.subrange(at as int, tasks@.len() as int),
        _ => Seq::empty(),
    }
}

/// The record of the VM that a creation has placed, once it has.
pub open spec fn placed_record(l: Life) -> Option<VmRecord> {
    match l {
        Life::Insert { rec, .. } => Some(rec),
        Life::Forward { rec, .. } => Some(rec),
        Life::Provision { rec, .. } => Some(rec),
        Life::Network { rec, .. } => Some(rec),
        Life::Define { rec, .. } => Some(rec),
        Life::Boot { rec, .. } => Some(rec),
        Life::Clock { rec, .. } => Some(rec),
        Life::Commit { rec, .. } => Some(rec),
        _ => None,
    }
}

/// Whether a machine is creating a VM, or undoing its creation.
pub open spec fn creation(l: Life) -> bool {
    match l {
        Life::Provision { goal, .. } => goal == For::Create,
        Life::Network { goal, .. } => goal == For::Create,
        Life::Define { goal, .. } => goal == For::Create,
        Life::Boot { goal, .. } => goal == For::Create,
        Life::Clock { goal, .. } => goal == For::Create,
        Life::Commit { goal, .. } => goal == For::Create,
        Life::Tail { tasks, at, end } => {
            &&& end is Fail
            &&& forall|i: int| 0 <= i < tasks@.len() ==> !(#[trigger] tasks@[i]).required
        },
        _ => l.creating(),
    }
}

/// The slots that a creation holds.
pub open spec fn held_slots(l: Life) -> Set<int> {
    match placed_record(l) {
        Some(rec) => match rec.slot {
            Some(s) => set![s.value() as int],
            None => Set::empty(),
        },
        None => freed_slots(ahead(l)),
    }
}

/// The ports that a creation holds.
pub open spec fn held_ports(l: Life) -> Set<u16> {
    match placed_record(l) {
        Some(rec) => host_ports(rec.ingress@),
        None => freed_ports(ahead(l)),
    }
}

proof fn lemma_freed_of_first(t: Seq<Task>)
    requires
        t.len() > 0,
    ensures
        freed_slots(t) == (match t[0].chore {
            Chore::FreeSlot(s) => set![s.value() as int],
            _ => Set::empty(),
        }).union(freed_slots(t.subrange(1, t.len() as int))),
        freed_ports(t) == (match t[0].chore {
            Chore::FreePorts(v) => host_ports(v@),
            _ => Set::empty(),
        }).union(freed_ports(t.subrange(1, t.len() as int))),
{
    let r = t.subrange(1, t.len() as int);
    let a = (match t[0].chore {
        Chore::FreeSlot(s) => set![s.value() as int],
        _ => Set::empty(),
    }).union(freed_slots(r));
    assert forall|n: int| freed_slots(t).contains(n) <==> a.contains(n) by {
        if freed_slots(t).contains(n) {
            let i = choose|i: int|
                0 <= i < t.len() && (#[trigger] t[i].chore matches Chore::FreeSlot(s) && s.value()
                    == n);
            if i > 0 {
                assert(r[i - 1] == t[i]);
                assert(freed_slots(r).contains(n)) by {
                    assert(r[i - 1].chore matches Chore::FreeSlot(s) && s.value() == n);
                }
            }
        }
        if freed_slots(r).contains(n) {
            let i = choose|i: int|
                0 <= i < r.len() && (#[trigger] r[i].chore matches Chore::FreeSlot(s) && s.value()
                    == n);
            assert(t[i + 1].chore == r[i].chore);
        }
        if a.contains(n) && !freed_slots(r).contains(n) {
            assert(t[0].chore matches Chore::FreeSlot(s) && s.value() == n);
        }
    }
    assert(freed_slots(t) =~= a);
    let b = (match t[0].chore {
        Chore::FreePorts(v) => host_ports(v@),
        _ => Set::empty(),
    }).union(freed_ports(r));
    assert forall|p: u16| freed_ports(t).contains(p) <==> b.contains(p) by {
        if freed_ports(t).contains(p) {
            let i = choose|i: int|
                0 <= i < t.len() && (#[trigger] t[i].chore matches Chore::FreePorts(v)
                    && host_ports(v@).contains(p));
            if i > 0 {
                assert(r[i - 1] == t[i]);
                assert(freed_ports(r).contains(p)) by {
                    assert(r[i - 1].chore matches Chore::FreePorts(v) && host_ports(v@).contains(
                        p,
                    ));
                }
            }
        }
        if freed_ports(r).contains(p) {
            let i = choose|i: int|
                0 <= i < r.len() && (#[trigger] r[i].chore matches Chore::FreePorts(v)
                    && host_ports(v@).contains(p));
            assert(t[i + 1].chore == r[i].chore);
        }
        if b.contains(p) && !freed_ports(r).contains(p) {
            assert(t[0].chore matches Chore::FreePorts(v) && host_ports(v@).contains(p));
        }
    }
    assert(freed_ports(t) =~= b);
}

/// Doing the chores at the front changes nothing but what they give back.
proof fn lemma_chores_conserve(t: Seq<Task>, m: Seq<bool>, p: Set<u16>)
    ensures
        taken_slots(slots_after(t, m)).difference(freed_slots(outer_rest(t))) == taken_slots(
            m,
        ).difference(freed_slots(t)),
        ports_after(t, p).difference(freed_ports(outer_rest(t))) == p.difference(freed_ports(t)),
        slots_after(t, m).len() == m.len(),
        forall|i: int|
            0 <= i < outer_rest(t).len() ==> t.contains(#[trigger] outer_rest(t)[i]),
    decreases t.len(),
{
    if t.len() > 0 && inner(t[0].chore) {
        let r = t.subrange(1, t.len() as int);
        lemma_freed_of_first(t);
        assert forall|x: Task| r.contains(x) implies t.contains(x) by {
            let i = choose|i: int| 0 <= i < r.len() && r[i] == x;
            assert(t[i + 1] == x);
        }
        match t[0].chore {
            Chore::FreeSlot(s) => {
                let m2 = map_without(m, s);
                lemma_chores_conserve(r, m2, p);
                assert(taken_slots(m2) =~= taken_slots(m).remove(s.value() as int));
                assert(taken_slots(m2).difference(freed_slots(r)) =~= taken_slots(m).difference(
                    freed_slots(t),
                ));
                assert(p.difference(freed_ports(r)) =~= p.difference(freed_ports(t)));
            },
            Chore::FreePorts(v) => {
                let p2 = p.difference(host_ports(v@));
                lemma_chores_conserve(r, m, p2);
                assert(p2.difference(freed_ports(r)) =~= p.difference(freed_ports(t)));
                assert(taken_slots(m).difference(freed_slots(r)) =~= taken_slots(m).difference(
                    freed_slots(t),
                ));
            },
            _ => {},
        }
    } else {
        assert forall|i: int| 0 <= i < outer_rest(t).len() implies t.contains(
            #[trigger] outer_rest(t)[i],
        ) by {}
    }
}

proof fn lemma_nothing_freed()
    ensures
        freed_slots(Seq::<Task>::empty()) == Set::<int>::empty(),
        freed_ports(Seq::<Task>::empty()) == Set::<u16>::empty(),
{
    assert(freed_slots(Seq::<Task>::empty()) =~= Set::<int>::empty());
    assert(freed_ports(Seq::<Task>::empty()) =~= Set::<u16>::empty());
}

/// Winding up keeps the books: what is taken, less what is still to be given
/// back, does not change.
proof fn lemma_winding_up_conserves(
    t: Seq<Task>,
    end: End,
    s0: SlotAllocator,
    p0: PortAllocator,
    r: Life,
    s1: SlotAllocator,
    p1: PortAllocator,
)
    requires
        winding_up(r, t, end),
        gave_back(t, s0, p0, s1, p1),
        end is Fail,
        forall|i: int| 0 <= i < t.len() ==> !(#[trigger] t[i]).required,
    ensures
        taken_slots(s1.map()).difference(held_slots(r)) == taken_slots(s0.map()).difference(
            freed_slots(t),
        ),
        p1.taken().difference(held_ports(r)) == p0.taken().difference(freed_ports(t)),
        s1.map().len() == s0.map().len(),
        r matches Life::Tail { tasks, at, .. } ==> forall|i: int|
            at <= i < tasks@.len() ==> !(#[trigger] tasks@[i]).required,
        r is Done || r is Tail,
{
    lemma_chores_conserve(t, s0.map(), p0.taken());
    lemma_nothing_freed();
    let rest = outer_rest(t);
    if rest.len() == 0 {
        assert(rest =~= Seq::<Task>::empty());
    } else {
        assert(ahead(r) == rest);
        match r {
            Life::Tail { tasks, at, .. } => {
                assert forall|i: int| at <= i < tasks@.len() implies !(
                #[trigger] tasks@[i]).required by {
                    assert(tasks@[i] == rest[i - at]);
                    assert(t.contains(rest[i - at]));
                }
            },
            _ => {},
        }
    }
}

proof fn lemma_rollback_frees(id: VmId, slot: SlotId, ingress: Vec<PortForward>)
    ensures
        freed_slots(rollback_plan(id, slot, ingress)) == set![slot.value() as int],
        freed_ports(rollback_plan(id, slot, ingress)) == host_ports(ingress@),
{
    let t = rollback_plan(id, slot, ingress);
    assert(t[5].chore == Chore::FreeSlot(slot));
    assert(t[0].chore == Chore::FreePorts(ingress));
    assert(freed_slots(t) =~= set![slot.value() as int]);
    assert(freed_ports(t) =~= host_ports(ingress@));
}

/// Whether a machine that is undoing a creation has only optional chores left.
pub open spec fn undoing(l: Life) -> bool {
    l matches Life::Tail { tasks, at, end } && end is Fail && (forall|i: int|
        at <= i < tasks@.len() ==> !(#[trigger] tasks@[i]).required)
}

/// **Law.** A creation keeps the books. From its first decision to the last
/// chore of its undoing, each step leaves the slots and ports that the creation
/// does not hold as they are; it holds nothing at its beginning and nothing at
/// its end. So a creation that fails has given back all it took. (Its last step
/// in success is the one exception: there the VM keeps what it holds.)
pub proof fn law_a_creation_keeps_the_books(
    l: Life,
    ev: Event,
    cid: Option<u32>,
    s0: SlotAllocator,
    p0: PortAllocator,
    r: Life,
    s1: SlotAllocator,
    p1: PortAllocator,
)
    requires
        (creation(l) && !(l is Tail)) || undoing(l),
        l.wf(),
        l.awaits(ev),
        s0.wf(),
        p0.wf(),
        l.follows(ev, cid, s0, p0, r, s1, p1),
        !(l is Commit && ev is Done),
    ensures
        taken_slots(s1.map()).difference(held_slots(r)) == taken_slots(s0.map()).difference(
            held_slots(l),
        ),
        p1.taken().difference(held_ports(r)) == p0.taken().difference(held_ports(l)),
        (creation(r) && !(r is Tail)) || undoing(r) || r is Done,
        s1.map().len() == s0.map().len(),
        l is Rules ==> held_slots(l) == Set::<int>::empty() && held_ports(l) == Set::<u16>::empty(),
        r is Done ==> held_slots(r) == Set::<int>::empty() && held_ports(r) == Set::<u16>::empty(),
        r matches Life::Done { result, .. } ==> result is Err,
{
    lemma_nothing_freed();
    match l {
        Life::Tail { tasks, at, end } => {
            let t = tasks@.subrange(at + 1, tasks@.len() as int);
            let all = tasks@.subrange(at as int, tasks@.len() as int);
            assert(all.subrange(1, all.len() as int) =~= t);
            assert(all[0] == tasks@[at as int]);
            lemma_freed_of_first(all);
            assert(freed_slots(all) =~= freed_slots(t));
            assert(freed_ports(all) =~= freed_ports(t));
            lemma_winding_up_conserves(t, end, s0, p0, r, s1, p1);
        },
        Life::Vacant { req, id, tpl } => {
            if ev matches Event::Vm(None) {
                lemma_placing_conserves(l, ev, s0, p0, r, s1, p1);
            }
        },
        _ => {
            match placed_record(l) {
                Some(rec) => {
                    let t = rollback_plan(rec.id, rec.slot->0, rec.ingress);
                    if ev is Failed && !(l is Clock) {
                        let e = ev->Failed_0;
                        assert(bring_up_failed(rec, For::Create, e, s0, p0, r, s1, p1));
                        lemma_rollback_frees(rec.id, rec.slot->0, rec.ingress);
                        lemma_winding_up_conserves(
                            t,
                            End::Fail { error: e, removed: true },
                            s0,
                            p0,
                            r,
                            s1,
                            p1,
                        );
                    }
                },
                None => {},
            }
        },
    }
}

proof fn lemma_placing_conserves(
    l: Life,
    ev: Event,
    s0: SlotAllocator,
    p0: PortAllocator,
    r: Life,
    s1: SlotAllocator,
    p1: PortAllocator,
)
    requires
        l is Vacant,
        ev == Event::Vm(None),
        s0.wf(),
        p0.wf(),
        l.follows_creating(ev, s0, p0, r, s1, p1),
    ensures
        taken_slots(s1.map()).difference(held_slots(r)) == taken_slots(s0.map()).difference(
            held_slots(l),
        ),
        p1.taken().difference(held_ports(r)) == p0.taken().difference(held_ports(l)),
        r is Insert || r is Done,
        s1.map().len() == s0.map().len(),
        r matches Life::Done { result, .. } ==> result is Err,
{
    lemma_nothing_freed();
    crate::control_plane::slot::law_allocation_hands_out_a_free_slot(s0);
    let req = l->Vacant_req;
    let id = l->Vacant_id;
    match r {
        Life::Insert { rec, tpl } => {
            assert(placed(req, id, s0, p0, Ok(rec), s1, p1));
            let place = s0.free_place()->0;
            assert(taken_slots(s1.map()) =~= taken_slots(s0.map()).insert(place));
            assert(taken_slots(s1.map()).difference(held_slots(r)) =~= taken_slots(
                s0.map(),
            ).difference(held_slots(l)));
            assert(p1.taken().difference(held_ports(r)) =~= p0.taken().difference(held_ports(l)));
        },
        Life::Done { result, removed } => {
            let e = result->Err_0;
            assert(placed(req, id, s0, p0, Err(e), s1, p1));
            match s0.free_place() {
                Some(place) => {
                    assert(s1.map() =~= s0.map());
                },
                None => {},
            }
            assert(taken_slots(s1.map()).difference(held_slots(r)) =~= taken_slots(
                s0.map(),
            ).difference(held_slots(l)));
            assert(p1.taken().difference(held_ports(r)) =~= p0.taken().difference(held_ports(l)));
        },
        _ => {},
    }
}

// ---- what stopping keeps and what it removes ----

/// **Law.** Stopping a durable VM releases its placement and nothing else: its
/// storage, its host ports and its record stay, and with them its volume and
/// its snapshot.
pub proof fn law_a_durable_stop_keeps_the_vm(rec: VmRecord)
    requires
        rec.lifecycle == Lifecycle::Durable,
    ensures
        forall|i: int|
            0 <= i < finalize_plan(rec).len() ==> {
                let c = (#[trigger] finalize_plan(rec)[i]).chore;
                !(c is TeardownStorage) && !(c is FreePorts) && !(c is Delete) && !(c is Destroy)
            },
        finalize_plan(rec).last() == must(Chore::Record(stopped_placement(rec))),
        stopped_placement(rec).rootfs_device == rec.rootfs_device,
        stopped_placement(rec).snapshot == rec.snapshot,
        stopped_placement(rec).slot is None,
        stopped_placement(rec).state == VmState::Stopped,
        rec.slot matches Some(s) ==> finalize_plan(rec).contains(try_to(Chore::FreeSlot(s))),
{
    if rec.slot is Some {
        assert(finalize_plan(rec)[2] == try_to(Chore::FreeSlot(rec.slot->0)));
    }
}

/// **Law.** Stopping an ephemeral VM removes everything of it: its slot, its
/// ports, its storage and its record.
pub proof fn law_an_ephemeral_stop_removes_the_vm(rec: VmRecord)
    requires
        rec.lifecycle == Lifecycle::Ephemeral,
    ensures
        finalize_plan(rec).contains(try_to(Chore::FreePorts(rec.ingress))),
        finalize_plan(rec).contains(try_to(Chore::TeardownStorage(rec.id))),
        finalize_plan(rec).last() == must(Chore::Delete(rec.id)),
        rec.slot matches Some(s) ==> finalize_plan(rec).contains(try_to(Chore::FreeSlot(s))),
{
    let t = finalize_plan(rec);
    let n = t.len() as int;
    assert(t[n - 3] == try_to(Chore::FreePorts(rec.ingress)));
    assert(t[n - 2] == try_to(Chore::TeardownStorage(rec.id)));
    if rec.slot is Some {
        assert(t[2] == try_to(Chore::FreeSlot(rec.slot->0)));
    }
}

/// **Law.** Destroying a VM removes everything of it, whatever its lifecycle.
pub proof fn law_destroying_removes_the_vm(rec: VmRecord)
    ensures
        destroy_plan(rec).contains(try_to(Chore::FreePorts(rec.ingress))),
        destroy_plan(rec).contains(try_to(Chore::TeardownStorage(rec.id))),
        destroy_plan(rec).last() == must(Chore::Delete(rec.id)),
        rec.slot matches Some(s) ==> destroy_plan(rec).contains(try_to(Chore::FreeSlot(s))),
{
    let t = destroy_plan(rec);
    let n = t.len() as int;
    assert(t[n - 3] == try_to(Chore::FreePorts(rec.ingress)));
    assert(t[n - 2] == try_to(Chore::TeardownStorage(rec.id)));
    if rec.slot is Some {
        assert(t[4] == try_to(Chore::FreeSlot(rec.slot->0)));
    }
}

/// **Law.** A durable VM that suspended and then stopped comes back as itself:
/// its snapshot survives the stop, and a start resumes from it.
pub proof fn law_suspended_then_stopped_resumes_itself(
    rec: VmRecord,
    later: VmRecord,
    tpl: TemplateDef,
)
    requires
        rec.lifecycle == Lifecycle::Durable,
        rec.snapshot is Some,
        placement_of(later) == stopped_placement(rec),
        later.vcpus is None,
        later.mem_mib is None,
    ensures
        resume_point(later, tpl, false) == rec.snapshot,
{
    assert(placement_of(later).snapshot == rec.snapshot);
}

/// **Law.** Terminating a VM discards its execution state and keeps its disk,
/// and doing it again changes nothing: the second time there is only the same
/// placement to record.
pub proof fn law_termination_is_idempotent(rec: VmRecord, later: VmRecord)
    requires
        placement_of(later) == terminated_placement(rec),
    ensures
        terminated_placement(rec).snapshot is None,
        terminated_placement(rec).slot is None,
        terminated_placement(rec).state == VmState::Stopped,
        terminated_placement(rec).rootfs_device == rec.rootfs_device,
        terminate_plan(later) == seq![must(Chore::Record(terminated_placement(rec)))],
        forall|i: int|
            0 <= i < terminate_plan(rec).len() ==> !((
            #[trigger] terminate_plan(rec)[i]).chore is TeardownStorage),
{
    assert(later.slot == placement_of(later).slot);
    assert(later.rootfs_device == placement_of(later).rootfs_device);
    assert(later.id == placement_of(later).id);
    assert(terminated_placement(later) == terminated_placement(rec));
    assert(terminate_plan(later) =~= seq![must(Chore::Record(terminated_placement(rec)))]);
}

// ---- the order of things ----

/// **Law.** A VM is brought up in one order: its volume, its network, the
/// definition of its instance, its start; and a resumed guest is told the time
/// before the VM counts as running.
pub proof fn law_bring_up_is_ordered(
    l: Life,
    ev: Event,
    cid: Option<u32>,
    s0: SlotAllocator,
    p0: PortAllocator,
    r: Life,
    s1: SlotAllocator,
    p1: PortAllocator,
)
    requires
        l.wf(),
        l.awaits(ev),
        l.follows(ev, cid, s0, p0, r, s1, p1),
    ensures
        r is Network ==> l is Provision && ev is Volume,
        r is Define ==> l is Network && ev is Fixture,
        r is Boot ==> l is Define && ev is Done,
        r is Clock ==> l is Boot && ev is Done && l->Boot_spec.resume_from is Some,
        r is Commit ==> l is Boot || l is Clock || l is ResumeClock,
        r is Commit && l is Boot ==> l->Boot_spec.resume_from is None,
{
}

/// Whether a machine is retiring a suspension: resuming a VM only to ask for a
/// clean shutdown.
pub open spec fn retiring(l: Life) -> bool {
    match l {
        Life::Lookup { why, .. } => why == Why::Retire || why == Why::StartToRetire,
        Life::ResumeAsk { goal, .. } => goal == For::Retire,
        Life::ResumeClock { goal, .. } => goal == For::Retire,
        Life::Commit { goal, .. } => goal == For::Retire,
        Life::RetireStop { .. } => true,
        Life::RetireWait { .. } => true,
        _ => false,
    }
}

/// **Law.** Retiring a suspended VM never forces it: no step of it asks to halt
/// or destroy the VM, and only a confirmed exit leads on to the termination
/// that discards the suspension.
pub proof fn law_retirement_never_forces(
    l: Life,
    ev: Event,
    cid: Option<u32>,
    s0: SlotAllocator,
    p0: PortAllocator,
    r: Life,
    s1: SlotAllocator,
    p1: PortAllocator,
)
    requires
        retiring(l),
        l.wf(),
        l.awaits(ev),
        l.follows(ev, cid, s0, p0, r, s1, p1),
        ev matches Event::Vm(Some(rec)) ==> rec.state == VmState::Suspended || l
            == (Life::Lookup { id: rec.id, why: Why::Retire }),
    ensures
        !(l.asks() is Halt),
        !(l.asks() is Destroy),
        retiring(r) || r is Done || (ev == Event::Exited(true) && r is Lookup && r->Lookup_why
            == Why::Terminate),
        ev == Event::Exited(false) ==> r is Done,
        s1 == s0,
        p1 == p0,
{
}

// ---- what a creation asks for, and when it goes on ----

/// **Law.** A creation goes through its checks one by one, and is refused by the
/// first that fails, with that check's error and nothing taken: its rules, its
/// template, the pool, its signature, its id.
pub proof fn law_a_creation_is_checked_before_anything_is_taken(
    l: Life,
    ev: Event,
    cid: Option<u32>,
    s0: SlotAllocator,
    p0: PortAllocator,
    r: Life,
    s1: SlotAllocator,
    p1: PortAllocator,
)
    requires
        l is Rules || l is Template || l is Pool || l is Claims || l is Vacant,
        l.wf(),
        l.awaits(ev),
        l.follows(ev, cid, s0, p0, r, s1, p1),
    ensures
        !(l is Vacant && ev == Event::Vm(None)) ==> s1 == s0 && p1 == p0,
        ev matches Event::Failed(e) ==> r == (Life::Done { result: Err(e), removed: false }),
        l is Rules ==> match ev {
            Event::Rules(Err(m)) => r == (Life::Done {
                result: Err(Error::InvalidRule(m)),
                removed: false,
            }),
            _ => r is Template && r->Template_req == l->Rules_req && r->Template_id
                == l->Rules_id,
        },
        l is Template && ev == Event::Template(None) ==> r == (Life::Done {
            result: Err(Error::UnknownTemplate(l->Template_req.template)),
            removed: false,
        }),
        l is Template && ev is Template && ev->Template_0 is Some ==> r is Pool && r->Pool_req
            == l->Template_req && r->Pool_id == l->Template_id && Some(r->Pool_tpl)
            == ev->Template_0,
        l is Pool && ev is Pool ==> if ev->Pool_0.data_full || ev->Pool_0.metadata_full {
            r is Done && r->Done_result is Err && r->Done_result->Err_0 is PoolFull
        } else {
            (r is Claims <==> l->Pool_req.signed is Some) && (r is Vacant
                <==> l->Pool_req.signed is None)
        },
        l is Claims && r is Vacant ==> (ev matches Event::Claims(Ok(c)) && c.vm@
            == l->Claims_id.text() && c.policy_gen == 1 && c.egress@ == egress_name(
            l->Claims_req.egress,
        ) && text_of(c.principal) == text_of(l->Claims_req.principal) && texts_of(c.rules@)
            == texts_of(l->Claims_effective@)),
        l is Claims && !(r is Vacant) ==> r is Done && r->Done_result is Err
            && r->Done_result->Err_0 is SignedMismatch,
        l is Vacant && ev is Vm && ev->Vm_0 is Some ==> r == (Life::Done {
            result: Err(Error::VmExists(l->Vacant_id)),
            removed: false,
        }),
        r is Vacant ==> l is Pool || l is Claims,
        r is Insert ==> l is Vacant && ev == Event::Vm(None) && r->Insert_tpl == l->Vacant_tpl
            && placed(l->Vacant_req, l->Vacant_id, s0, p0, Ok(r->Insert_rec), s1, p1),
        r is Done ==> r->Done_result is Err,
{
}

/// **Law.** A VM's record is written before its forwards, and each of its forwards
/// once and in order before anything of it is set up.
pub proof fn law_a_vm_is_recorded_before_it_is_set_up(
    l: Life,
    ev: Event,
    cid: Option<u32>,
    s0: SlotAllocator,
    p0: PortAllocator,
    r: Life,
    s1: SlotAllocator,
    p1: PortAllocator,
)
    requires
        l is Insert || l is Forward,
        l.wf(),
        l.awaits(ev),
        l.follows(ev, cid, s0, p0, r, s1, p1),
        ev is Done,
    ensures
        s1 == s0 && p1 == p0,
        l is Insert ==> l.asks() == Action::InsertVm(&l->Insert_rec),
        l is Forward ==> l.asks() == Action::AddForward(
            l->Forward_rec.id,
            l->Forward_rec.ingress@[l->Forward_at as int],
        ),
        l is Insert ==> if l->Insert_rec.ingress@.len() == 0 {
            r == (Life::Provision {
                rec: l->Insert_rec,
                tpl: l->Insert_tpl,
                goal: For::Create,
            })
        } else {
            r == (Life::Forward { rec: l->Insert_rec, tpl: l->Insert_tpl, at: 0 })
        },
        l is Forward && l->Forward_at + 1 == l->Forward_rec.ingress@.len() ==> r == (
        Life::Provision { rec: l->Forward_rec, tpl: l->Forward_tpl, goal: For::Create }),
        l is Forward && l->Forward_at + 1 < l->Forward_rec.ingress@.len() ==> r is Forward
            && r->Forward_at == l->Forward_at + 1 && r->Forward_rec == l->Forward_rec
            && r->Forward_tpl == l->Forward_tpl,
{
    if l is Forward {
        assert(l->Forward_rec.ingress.len() as int == l->Forward_rec.ingress@.len());
    }
}

/// **Law.** A VM is set up with what is its own: its volume from its template, its
/// network with its egress mode and its forwards; and once it runs, its record
/// says so, and where its volume and its tap are, and is otherwise unchanged.
pub proof fn law_a_vm_is_set_up_as_recorded(
    l: Life,
    ev: Event,
    cid: Option<u32>,
    s0: SlotAllocator,
    p0: PortAllocator,
    r: Life,
    s1: SlotAllocator,
    p1: PortAllocator,
)
    requires
        l.rising(),
        l.wf(),
        l.awaits(ev),
        l.follows(ev, cid, s0, p0, r, s1, p1),
        !(ev is Failed) || l is Clock,
    ensures
        s1 == s0 && p1 == p0,
        l is Provision ==> l.asks() == (Action::Provision {
            vm: l->Provision_rec.id,
            template: &l->Provision_tpl.rootfs_template,
        }) && r is Network && r->Network_rec == l->Provision_rec && r->Network_tpl
            == l->Provision_tpl && r->Network_goal == l->Provision_goal && ev == Event::Volume(
            r->Network_volume,
        ),
        l is Network ==> l.asks() == (Action::ApplyNetwork {
            slot: l->Network_rec.slot->0,
            egress: l->Network_rec.egress,
            ingress: &l->Network_rec.ingress,
        }) && r is Define && r->Define_rec == l->Network_rec && r->Define_goal == l->Network_goal
            && r->Define_spec == instance_of(
            l->Network_rec,
            l->Network_tpl,
            l->Network_volume,
            ev->Fixture_0,
            l->Network_goal == For::Create,
            cid,
        ),
        l is Define ==> l.asks() == Action::Create(&l->Define_spec) && r is Boot && r->Boot_spec
            == l->Define_spec && r->Boot_rec == l->Define_rec && r->Boot_goal == l->Define_goal,
        l is Boot ==> l.asks() == Action::Start(l->Boot_rec.id),
        l is Boot && r is Clock ==> r->Clock_spec == l->Boot_spec && r->Clock_rec == l->Boot_rec
            && r->Clock_goal == l->Boot_goal,
        l is Clock ==> l.asks() == Action::SyncClock(l->Clock_rec.id) && r is Commit,
        l is Boot && !(r is Clock) ==> r is Commit,
        (l is Boot || l is Clock) && r is Commit ==> {
            let before = if l is Boot {
                l->Boot_rec
            } else {
                l->Clock_rec
            };
            let spec = if l is Boot {
                l->Boot_spec
            } else {
                l->Clock_spec
            };
            let after = r->Commit_rec;
            &&& after.state == VmState::Running
            &&& after.rootfs_device == Some(spec.rootfs_device)
            &&& after.tap == Some(spec.tap)
            &&& after.id == before.id && after.slot == before.slot
            &&& after.snapshot == before.snapshot && after.ingress == before.ingress
            &&& after.egress == before.egress && after.lifecycle == before.lifecycle
            &&& r->Commit_goal == (if l is Boot {
                l->Boot_goal
            } else {
                l->Clock_goal
            })
        },
        l is Commit ==> l.asks() is Record && l.asks()->Record_0.id == l->Commit_rec.id
            && l.asks()->Record_0.slot == l->Commit_rec.slot && l.asks()->Record_0.state
            == l->Commit_rec.state && l.asks()->Record_0.rootfs_device
            == l->Commit_rec.rootfs_device && l.asks()->Record_0.tap == l->Commit_rec.tap
            && l.asks()->Record_0.snapshot == l->Commit_rec.snapshot,
        l is Commit && l->Commit_goal != For::Retire ==> r == (Life::Done {
            result: Ok(l->Commit_rec.id),
            removed: false,
        }),
        l is Commit && l->Commit_goal == For::Retire ==> r == (Life::RetireStop {
            id: l->Commit_rec.id,
        }),
{
}

// ---- chores ----

/// Whether a chore gives a port back.
pub open spec fn gives_port(c: Chore, q: u16) -> bool {
    c matches Chore::FreePorts(v) && host_ports(v@).contains(q)
}

/// What is done of chores at their front that the machine does itself.
proof fn lemma_front(t: Seq<Task>, m: Seq<bool>, p: Set<u16>)
    ensures
        ({
            let k = t.len() - outer_rest(t).len();
            &&& 0 <= k <= t.len()
            &&& outer_rest(t) == t.skip(k)
            &&& k < t.len() ==> !inner(t[k].chore)
            &&& forall|i: int| 0 <= i < k ==> inner(#[trigger] t[i].chore)
            &&& slots_after(t, m).len() == m.len()
            &&& forall|n: int|
                0 <= n < m.len() && #[trigger] slots_after(t, m)[n] ==> m[n]
            &&& forall|q: u16| #[trigger] ports_after(t, p).contains(q) ==> p.contains(q)
            &&& forall|i: int|
                0 <= i < k ==> ((#[trigger] t[i].chore) matches Chore::FreeSlot(s) ==> s.value()
                    < m.len() ==> !slots_after(t, m)[s.value() as int])
            &&& forall|i: int, q: u16|
                0 <= i < k && #[trigger] gives_port(t[i].chore, q) ==> !ports_after(t, p).contains(q)
        }),
    decreases t.len(),
{
    if t.len() > 0 && inner(t[0].chore) {
        let u = t.subrange(1, t.len() as int);
        let m2 = match t[0].chore {
            Chore::FreeSlot(s) => map_without(m, s),
            _ => m,
        };
        let p2 = match t[0].chore {
            Chore::FreePorts(v) => p.difference(host_ports(v@)),
            _ => p,
        };
        lemma_front(u, m2, p2);
        let k = u.len() - outer_rest(u).len();
        assert(u.skip(k) =~= t.skip(k + 1));
        assert forall|i: int| 0 <= i < k + 1 implies inner(#[trigger] t[i].chore) by {
            if i > 0 {
                assert(u[i - 1] == t[i]);
                assert(inner(u[i - 1].chore));
            }
        }
        assert forall|i: int| 0 <= i < k + 1 implies ((
        #[trigger] t[i].chore) matches Chore::FreeSlot(s) ==> s.value() < m.len() ==> !slots_after(
            t,
            m,
        )[s.value() as int]) by {
            if i > 0 {
                assert(u[i - 1].chore == t[i].chore);
            }
        }
        assert forall|i: int, q: u16|
            0 <= i < k + 1 && #[trigger] gives_port(t[i].chore, q) implies !ports_after(
            t,
            p,
        ).contains(q) by {
            if i > 0 {
                assert(gives_port(u[i - 1].chore, q));
            }
        }
        if k + 1 < t.len() {
            assert(t[k + 1] == u[k]);
        }
        assert forall|q: u16| #[trigger] ports_after(t, p).contains(q) implies p.contains(q) by {
            assert(ports_after(u, p2).contains(q));
            assert(p2.contains(q));
        }
    } else {
        assert(t.skip(0) =~= t);
    }
}

/// Whether a machine is on its way to starting a VM again.
pub open spec fn comes_back(r: Life, id: VmId) -> bool {
    ||| r == (Life::Lookup { id, why: Why::Start })
    ||| r matches Life::Tail { end, .. } && end == End::Restart(id)
}

/// Whether a machine is on its way to a good end, with the VM gone or not.
pub open spec fn ends_well(r: Life, id: VmId, removed: bool) -> bool {
    ||| r == (Life::Done { result: Ok(id), removed })
    ||| r matches Life::Tail { end, .. } && end == (End::Finish { id, removed })
}

/// **Law.** Chores are done one after another, none left out: each is asked for by
/// its own action; the slots and ports among them are given back when it is their
/// turn; one that has to succeed and fails ends the operation there, and only
/// after the last comes the end that was meant.
pub proof fn law_chores_are_done_in_order(
    l: Life,
    ev: Event,
    cid: Option<u32>,
    s0: SlotAllocator,
    p0: PortAllocator,
    r: Life,
    s1: SlotAllocator,
    p1: PortAllocator,
)
    requires
        l is Tail,
        l.wf(),
        l.awaits(ev),
        l.follows(ev, cid, s0, p0, r, s1, p1),
    ensures
        ({
            let first = ahead(l)[0];
            let rest = ahead(l).skip(1);
            &&& match first.chore {
                Chore::Stop(id) => l.asks() == Action::Stop(id),
                Chore::Halt(id) => l.asks() == Action::Halt(id),
                Chore::Destroy(id) => l.asks() == Action::Destroy(id),
                Chore::Release(id) => l.asks() == Action::Release(id),
                Chore::TeardownNetwork(s) => l.asks() == Action::TeardownNetwork(s),
                Chore::TeardownStorage(id) => l.asks() == Action::TeardownStorage(id),
                Chore::Record(p) => l.asks() == Action::Record(p),
                Chore::Delete(id) => l.asks() == Action::Delete(id),
                _ => false,
            }
            &&& first.required && ev is Failed ==> s1 == s0 && p1 == p0 && r == (Life::Done {
                result: Err(ev->Failed_0),
                removed: false,
            })
            &&& !(first.required && ev is Failed) ==> {
                let k = rest.len() - ahead(r).len();
                &&& 0 <= k <= rest.len()
                &&& ahead(r) == rest.skip(k)
                &&& forall|i: int|
                    0 <= i < k ==> (#[trigger] rest[i].chore is FreeSlot || rest[i].chore is FreePorts)
                &&& forall|i: int|
                    0 <= i < k ==> ((#[trigger] rest[i].chore) matches Chore::FreeSlot(s)
                        ==> !s1.holds(s))
                &&& forall|i: int, q: u16|
                    0 <= i < k && #[trigger] gives_port(rest[i].chore, q) ==> !p1.taken().contains(q)
                &&& r is Tail ==> k < rest.len() && r->Tail_end == l->Tail_end
                &&& !(r is Tail) ==> k == rest.len() && match l->Tail_end {
                    End::Finish { id, removed } => r == (Life::Done { result: Ok(id), removed }),
                    End::Fail { error, removed } => r == (Life::Done {
                        result: Err(error),
                        removed,
                    }),
                    End::Restart(id) => r == (Life::Lookup { id, why: Why::Start }),
                }
            }
        }),
{
    let tasks = l->Tail_tasks;
    let at = l->Tail_at;
    let t = tasks@.subrange(at + 1, tasks@.len() as int);
    assert(ahead(l).skip(1) =~= t);
    assert(ahead(l)[0] == tasks@[at as int]);
    lemma_front(t, s0.map(), p0.taken());
    if !(tasks@[at as int].required && ev is Failed) {
        if outer_rest(t).len() == 0 {
            assert(ahead(r) =~= t.skip(t.len() as int));
        } else {
            assert(ahead(r) =~= outer_rest(t));
        }
    }
}

proof fn lemma_whole_plan(t: Seq<Task>, end: End, r: Life)
    requires
        t.len() > 0,
        !inner(t[0].chore),
        winding_up(r, t, end),
    ensures
        ahead(r) == t,
        r is Tail && r->Tail_end == end,
{
    assert(outer_rest(t) == t);
    assert(ahead(r) =~= t);
}

// ---- exits ----

/// **Law.** What a VM's exit comes to is decided by its restart policy: `always` is
/// started again after every exit; `on_failure` exactly when the exit was a
/// failure; `never` not at all. What is not started again is finalized.
pub proof fn law_exits_follow_the_restart_policy(
    id: VmId,
    failed: bool,
    rec: VmRecord,
    cid: Option<u32>,
    s0: SlotAllocator,
    p0: PortAllocator,
    r: Life,
    s1: SlotAllocator,
    p1: PortAllocator,
)
    requires
        rec.id == id,
        (Life::Lookup { id, why: Why::Exit { failed } }).follows(
            Event::Vm(Some(rec)),
            cid,
            s0,
            p0,
            r,
            s1,
            p1,
        ),
    ensures
        rec.restart == RestartPolicy::Always ==> comes_back(r, id),
        rec.restart == RestartPolicy::OnFailure && failed ==> comes_back(r, id),
        rec.restart == RestartPolicy::OnFailure && !failed ==> ends_well(
            r,
            id,
            rec.lifecycle == Lifecycle::Ephemeral,
        ) && ahead(r) == finalize_plan(rec),
        rec.restart == RestartPolicy::Never ==> ends_well(
            r,
            id,
            rec.lifecycle == Lifecycle::Ephemeral,
        ) && ahead(r) == finalize_plan(rec),
        comes_back(r, id) ==> {
            &&& rec.slot matches Some(s) ==> ahead(r)[0].chore == Chore::TeardownNetwork(s)
                && ahead(r)[1].chore == Chore::FreeSlot(s)
            &&& ahead(r).last().required
            &&& ahead(r).last().chore matches Chore::Record(p) && p.id == id && p.slot is None
                && p.state == VmState::Stopped && p.rootfs_device == rec.rootfs_device
                && p.snapshot == rec.snapshot
            &&& ahead(r).len() == (if rec.slot is Some {
                3int
            } else {
                1
            })
        },
{
    if comes_back(r, id) || rec.restart == RestartPolicy::Always {
        let t = leave_slot(rec.slot) + seq![
            must(
                Chore::Record(
                    Placement { slot: None, state: VmState::Stopped, ..placement_of(rec) },
                ),
            ),
        ];
        lemma_whole_plan(t, End::Restart(id), r);
    } else {
        lemma_finalize(rec);
        lemma_whole_plan(
            finalize_plan(rec),
            End::Finish { id, removed: rec.lifecycle == Lifecycle::Ephemeral },
            r,
        );
    }
}

proof fn lemma_finalize(rec: VmRecord)
    ensures
        finalize_plan(rec).len() > 0,
        !inner(finalize_plan(rec)[0].chore),
{
}

// ---- operations ----

/// **Law.** An operation on a VM that is not there is refused; an exit of one needs
/// no handling.
pub proof fn law_an_unknown_vm_is_refused(
    id: VmId,
    why: Why,
    cid: Option<u32>,
    s0: SlotAllocator,
    p0: PortAllocator,
    r: Life,
    s1: SlotAllocator,
    p1: PortAllocator,
)
    requires
        (Life::Lookup { id, why }).follows(Event::Vm(None), cid, s0, p0, r, s1, p1),
    ensures
        s1 == s0 && p1 == p0,
        why is Exit ==> r == (Life::Done { result: Ok(id), removed: false }),
        !(why is Exit) ==> r == (Life::Done { result: Err(Error::UnknownVm(id)), removed: false }),
{
}

/// **Law.** Each operation begins with its own action on the VM, where the VM's
/// state and lifecycle admit it, and is refused where they do not.
pub proof fn law_operations_begin_where_the_vm_is(
    id: VmId,
    why: Why,
    rec: VmRecord,
    cid: Option<u32>,
    s0: SlotAllocator,
    p0: PortAllocator,
    r: Life,
    s1: SlotAllocator,
    p1: PortAllocator,
)
    requires
        rec.id == id,
        !(why is Exit),
        (Life::Lookup { id, why }).follows(Event::Vm(Some(rec)), cid, s0, p0, r, s1, p1),
    ensures
        why == Why::Stop ==> r.asks() == Action::Stop(id),
        why == Why::Halt ==> r.asks() == Action::Halt(id),
        why == Why::Terminate && rec.lifecycle == Lifecycle::Durable ==> r.asks()
            == Action::Destroy(id),
        why == Why::Terminate && rec.lifecycle == Lifecycle::Ephemeral ==> r is Done
            && r->Done_result is Err,
        why == Why::Retire && rec.lifecycle == Lifecycle::Durable && rec.state
            == VmState::Suspended ==> r == (Life::Lookup { id, why: Why::StartToRetire }),
        why == Why::Retire && !(rec.lifecycle == Lifecycle::Durable && rec.state
            == VmState::Suspended) ==> r is Done && r->Done_result is Err,
        why == Why::Suspend && rec.state == VmState::Running ==> r.asks() == Action::Suspend(id),
        why == Why::Suspend && rec.state != VmState::Running ==> r is Done && r->Done_result is Err
            && r->Done_result->Err_0 is InvalidState,
        (why == Why::Start || why == Why::StartToRetire) && rec.state == VmState::Suspended
            ==> r.asks() == Action::Start(id) && r is ResumeAsk,
        (why == Why::Start || why == Why::StartToRetire) && rec.state == VmState::Stopped
            ==> r.asks() == Action::GetTemplate(&rec.template),
        (why == Why::Start || why == Why::StartToRetire) && rec.state != VmState::Suspended
            && rec.state != VmState::Stopped ==> r is Done && r->Done_result is Err
            && r->Done_result->Err_0 is InvalidState,
        why == Why::Destroy ==> ahead(r) == destroy_plan(rec) && ends_well(r, id, true),
        why != Why::Destroy ==> s1 == s0 && p1 == p0,
        r is Done ==> !r->Done_removed,
{
    if why == Why::Destroy {
        let t = destroy_plan(rec);
        assert(t[0].chore == Chore::Stop(rec.id));
        lemma_whole_plan(t, End::Finish { id, removed: true }, r);
    }
}

/// **Law.** Destroying a VM stops it, then halts it, then lets its VMM go, before
/// its network, its ports and its storage go, and its record last of all.
pub proof fn law_destroying_goes_from_the_inside_out(rec: VmRecord)
    ensures
        destroy_plan(rec)[0].chore == Chore::Stop(rec.id),
        destroy_plan(rec)[1].chore == Chore::Halt(rec.id),
        destroy_plan(rec)[2].chore == Chore::Destroy(rec.id),
        rec.slot matches Some(s) ==> destroy_plan(rec)[3].chore == Chore::TeardownNetwork(s)
            && destroy_plan(rec)[4].chore == Chore::FreeSlot(s),
        destroy_plan(rec).len() == 6 + (if rec.slot is Some {
            2int
        } else {
            0
        }),
        forall|i: int|
            0 <= i < destroy_plan(rec).len() - 1 ==> !(#[trigger] destroy_plan(rec)[i]).required,
{
}

/// **Law.** Finalizing a VM lets go of its VMM and of its network, in that order,
/// before anything else: a durable one is released, so that it can be had again,
/// and an ephemeral one destroyed.
pub proof fn law_finalizing_lets_go_of_the_vmm(rec: VmRecord)
    ensures
        rec.lifecycle == Lifecycle::Durable ==> finalize_plan(rec)[0].chore == Chore::Release(
            rec.id,
        ),
        rec.lifecycle == Lifecycle::Ephemeral ==> finalize_plan(rec)[0].chore == Chore::Destroy(
            rec.id,
        ),
        rec.slot matches Some(s) ==> finalize_plan(rec)[1].chore == Chore::TeardownNetwork(s)
            && finalize_plan(rec)[2].chore == Chore::FreeSlot(s),
        rec.slot is None ==> forall|i: int|
            0 <= i < finalize_plan(rec).len() ==> !(#[trigger] finalize_plan(rec)[i].chore is FreeSlot)
                && !(finalize_plan(rec)[i].chore is TeardownNetwork),
        finalize_plan(rec).last().required,
        forall|i: int|
            0 <= i < finalize_plan(rec).len() - 1 ==> !(#[trigger] finalize_plan(rec)[i]).required,
        rec.lifecycle == Lifecycle::Durable ==> (finalize_plan(rec).last().chore matches Chore::Record(
            p,
        ) && p.id == rec.id && p.slot is None && p.tap is None && p.state == VmState::Stopped
            && p.rootfs_device == rec.rootfs_device && p.snapshot == rec.snapshot),
{
}

/// **Law.** A stop asks the guest first and waits for it; only a guest that does
/// not answer is forced, and then the VM is finalized all the same.
pub proof fn law_a_stop_asks_before_it_forces(
    l: Life,
    ev: Event,
    cid: Option<u32>,
    s0: SlotAllocator,
    p0: PortAllocator,
    r: Life,
    s1: SlotAllocator,
    p1: PortAllocator,
)
    requires
        l is StopAsk || l is StopWait || l is StopForce || l is HaltAsk,
        l.wf(),
        l.awaits(ev),
        l.follows(ev, cid, s0, p0, r, s1, p1),
    ensures
        ({
            let rec = match l {
                Life::StopAsk { rec } => rec,
                Life::StopWait { rec } => rec,
                Life::StopForce { rec } => rec,
                _ => l->HaltAsk_rec,
            };
            let over = ahead(r) == finalize_plan(rec) && ends_well(
                r,
                rec.id,
                rec.lifecycle == Lifecycle::Ephemeral,
            );
            &&& l is StopAsk && ev is Done ==> r == (Life::StopWait { rec }) && r.asks()
                == Action::WaitExit(rec.id)
            &&& l is StopWait && ev == Event::Exited(false) ==> r.asks() == Action::Halt(rec.id)
                && r is StopForce && r->StopForce_rec == rec
            &&& l is StopWait && ev == Event::Exited(true) ==> over
            &&& l is StopForce ==> over
            &&& l is HaltAsk && ev is Done ==> over
            &&& (l is StopAsk || l is HaltAsk) && ev is Failed ==> r == (Life::Done {
                result: Err(ev->Failed_0),
                removed: false,
            })
        }),
{
    let rec = match l {
        Life::StopAsk { rec } => rec,
        Life::StopWait { rec } => rec,
        Life::StopForce { rec } => rec,
        _ => l->HaltAsk_rec,
    };
    lemma_finalize(rec);
    let end = End::Finish { id: rec.id, removed: rec.lifecycle == Lifecycle::Ephemeral };
    if winding_up(r, finalize_plan(rec), end) {
        lemma_whole_plan(finalize_plan(rec), end, r);
    }
}

/// **Law.** A termination goes on to give the placement back only once both files
/// of the suspension are known to be gone; then the network has to come down and
/// the record be written, without slot, tap and snapshot but with its volume,
/// before the slot is free.
pub proof fn law_a_termination_confirms_before_it_forgets(
    l: Life,
    ev: Event,
    cid: Option<u32>,
    s0: SlotAllocator,
    p0: PortAllocator,
    r: Life,
    s1: SlotAllocator,
    p1: PortAllocator,
)
    requires
        l is TermDestroy || l is TermFile,
        l.wf(),
        l.awaits(ev),
        l.follows(ev, cid, s0, p0, r, s1, p1),
    ensures
        l is TermDestroy && l->TermDestroy_rec.snapshot is Some && ev is Done ==> r.asks()
            == Action::CheckFile(&l->TermDestroy_rec.snapshot->0.mem_file) && r is TermFile
            && r->TermFile_rec == l->TermDestroy_rec && r->TermFile_snapshot
            == l->TermDestroy_rec.snapshot->0,
        l is TermFile && ev == Event::File(FileState::Gone) && !l->TermFile_second ==> r.asks()
            == Action::CheckFile(&l->TermFile_snapshot.vmstate) && r is TermFile
            && r->TermFile_second && r->TermFile_rec == l->TermFile_rec,
        l is TermFile && ev != Event::File(FileState::Gone) ==> r is Done && r->Done_result is Err,
        r is Tail || (r is Done && r->Done_result is Ok) ==> {
            let rec = if l is TermDestroy {
                l->TermDestroy_rec
            } else {
                l->TermFile_rec
            };
            let n = ahead(r).len();
            &&& l is TermDestroy ==> rec.snapshot is None
            &&& l is TermFile ==> l->TermFile_second && ev == Event::File(FileState::Gone)
            &&& ends_well(r, rec.id, false)
            &&& rec.slot matches Some(s) ==> {
                &&& n == 3
                &&& ahead(r)[0].chore == Chore::TeardownNetwork(s) && ahead(r)[0].required
                &&& ahead(r)[2].chore == Chore::FreeSlot(s)
            }
            &&& rec.slot is None ==> n == 1
            &&& ({
                let record = ahead(r)[if rec.slot is Some {
                    1int
                } else {
                    0
                }];
                &&& record.required
                &&& record.chore matches Chore::Record(p) && p.id == rec.id && p.slot is None
                    && p.tap is None && p.snapshot is None && p.state == VmState::Stopped
                    && p.rootfs_device == rec.rootfs_device
            })
        },
{
    let rec = if l is TermDestroy {
        l->TermDestroy_rec
    } else {
        l->TermFile_rec
    };
    let end = End::Finish { id: rec.id, removed: false };
    if winding_up(r, terminate_plan(rec), end) {
        lemma_whole_plan(terminate_plan(rec), end, r);
    }
}

/// **Law.** A VM that suspends keeps its place, and its record keeps where its
/// snapshot is.
pub proof fn law_a_suspension_is_recorded(
    rec: VmRecord,
    snapshot: SnapshotRef,
    cid: Option<u32>,
    s0: SlotAllocator,
    p0: PortAllocator,
    r: Life,
    s1: SlotAllocator,
    p1: PortAllocator,
)
    requires
        (Life::SuspendAsk { rec }).follows(Event::Snapshot(snapshot), cid, s0, p0, r, s1, p1),
    ensures
        s1 == s0 && p1 == p0,
        ends_well(r, rec.id, false),
        ahead(r).len() == 1 && ahead(r)[0].required,
        ahead(r)[0].chore matches Chore::Record(p) && p.id == rec.id && p.snapshot == Some(snapshot)
            && p.state == VmState::Suspended && p.slot == rec.slot && p.tap == rec.tap
            && p.rootfs_device == rec.rootfs_device,
{
    let t = seq![
        must(
            Chore::Record(
                Placement {
                    snapshot: Some(snapshot),
                    state: VmState::Suspended,
                    ..placement_of(rec)
                },
            ),
        ),
    ];
    if winding_up(r, t, End::Finish { id: rec.id, removed: false }) {
        lemma_whole_plan(t, End::Finish { id: rec.id, removed: false }, r);
    }
}

/// **Law.** A suspended VM resumes in place: it is started, told the time, and
/// recorded as running where it was.
pub proof fn law_a_resumed_vm_is_told_the_time(
    l: Life,
    ev: Event,
    cid: Option<u32>,
    s0: SlotAllocator,
    p0: PortAllocator,
    r: Life,
    s1: SlotAllocator,
    p1: PortAllocator,
)
    requires
        l is ResumeAsk || l is ResumeClock,
        l.wf(),
        l.awaits(ev),
        l.follows(ev, cid, s0, p0, r, s1, p1),
    ensures
        s1 == s0 && p1 == p0,
        l is ResumeAsk && ev is Done ==> r.asks() == Action::SyncClock(l->ResumeAsk_rec.id)
            && r is ResumeClock && r->ResumeClock_rec == l->ResumeAsk_rec && r->ResumeClock_goal
            == l->ResumeAsk_goal,
        l is ResumeAsk && ev is Failed ==> r == (Life::Done {
            result: Err(ev->Failed_0),
            removed: false,
        }),
        l is ResumeClock ==> {
            let before = l->ResumeClock_rec;
            &&& r is Commit && r->Commit_goal == l->ResumeClock_goal
            &&& r.asks() is Record
            &&& r.asks()->Record_0.id == before.id
            &&& r.asks()->Record_0.state == VmState::Running
            &&& r.asks()->Record_0.slot == before.slot
            &&& r.asks()->Record_0.tap == before.tap
            &&& r.asks()->Record_0.rootfs_device == before.rootfs_device
            &&& r.asks()->Record_0.snapshot == before.snapshot
        },
{
}

/// **Law.** A stopped VM is placed again on a slot that was free, and that is
/// recorded before anything of it is set up; with no slot free, or its template
/// gone, it stays as it is.
pub proof fn law_a_stopped_vm_is_placed_again(
    l: Life,
    ev: Event,
    cid: Option<u32>,
    s0: SlotAllocator,
    p0: PortAllocator,
    r: Life,
    s1: SlotAllocator,
    p1: PortAllocator,
)
    requires
        l is StartTemplate || l is StartPlace,
        l.wf(),
        l.awaits(ev),
        s0.wf(),
        l.follows(ev, cid, s0, p0, r, s1, p1),
    ensures
        p1 == p0,
        l is StartTemplate && ev == Event::Template(None) ==> s1 == s0 && r == (Life::Done {
            result: Err(Error::UnknownTemplate(l->StartTemplate_rec.template)),
            removed: false,
        }),
        l is StartTemplate && ev is Template && ev->Template_0 is Some ==> if forall|p: int|
            0 <= p < s0.map().len() && p <= SLOT_MAX ==> #[trigger] s0.map()[p] {
            s1 == s0 && r == (Life::Done { result: Err(Error::SlotsExhausted), removed: false })
        } else {
            let before = l->StartTemplate_rec;
            &&& r is StartPlace && r->StartPlace_goal == l->StartTemplate_goal
            &&& Some(r->StartPlace_tpl) == ev->Template_0
            &&& r->StartPlace_rec.slot matches Some(s) && !s0.holds(s) && s1.holds(s) && forall|
                t: SlotId,
            |
                t.value() != s.value() ==> s1.holds(t) == s0.holds(t)
            &&& r.asks() is Record
            &&& r.asks()->Record_0.id == before.id
            &&& r.asks()->Record_0.slot == r->StartPlace_rec.slot
            &&& r.asks()->Record_0.state == VmState::Creating
            &&& r.asks()->Record_0.snapshot == before.snapshot
            &&& r.asks()->Record_0.rootfs_device == before.rootfs_device
            &&& r->StartPlace_rec.ingress == before.ingress && r->StartPlace_rec.egress
                == before.egress && r->StartPlace_rec.vcpus == before.vcpus
                && r->StartPlace_rec.mem_mib == before.mem_mib && r->StartPlace_rec.snapshot
                == before.snapshot
        },
        l is StartPlace && ev is Done ==> s1 == s0 && r == (Life::Provision {
            rec: l->StartPlace_rec,
            tpl: l->StartPlace_tpl,
            goal: l->StartPlace_goal,
        }),
{
    law_allocation_hands_out_a_free_slot(s0);
}

/// **Law.** When bringing a VM up fails, a creation is undone whole: whatever may
/// run of it is halted and let go, its network and storage torn down, its slot and
/// ports given back, its record deleted. A start only gives its placement back,
/// and keeps the volume and the snapshot.
pub proof fn law_a_failed_bring_up_is_undone(
    l: Life,
    e: Error,
    cid: Option<u32>,
    s0: SlotAllocator,
    p0: PortAllocator,
    r: Life,
    s1: SlotAllocator,
    p1: PortAllocator,
)
    requires
        l is Provision || l is Network || l is Define || l is Boot || l is Insert || l is Forward || (
        l is Commit && l->Commit_goal == For::Create),
        l.wf(),
        s0.wf(),
        p0.wf(),
        l.follows(Event::Failed(e), cid, s0, p0, r, s1, p1),
    ensures
        ({
            let rec = placed_record(l)->0;
            let id = rec.id;
            let slot = rec.slot->0;
            &&& r is Tail && r->Tail_end is Fail && r->Tail_end->Fail_error == e
            &&& forall|i: int| 0 <= i < ahead(r).len() ==> !(#[trigger] ahead(r)[i]).required
            &&& creation(l) ==> {
                &&& r->Tail_end->Fail_removed
                &&& forall|q: u16| host_ports(rec.ingress@).contains(q) ==> !p1.taken().contains(q)
                &&& ahead(r).len() == 6
                &&& ahead(r)[0].chore == Chore::Halt(id)
                &&& ahead(r)[1].chore == Chore::Destroy(id)
                &&& ahead(r)[2].chore == Chore::TeardownNetwork(slot)
                &&& ahead(r)[3].chore == Chore::TeardownStorage(id)
                &&& ahead(r)[4].chore == Chore::FreeSlot(slot)
                &&& ahead(r)[5].chore == Chore::Delete(id)
            }
            &&& !creation(l) ==> {
                &&& !r->Tail_end->Fail_removed
                &&& !s1.holds(slot)
                &&& p1.taken() == p0.taken()
                &&& ahead(r).len() == 1
                &&& ahead(r)[0].chore matches Chore::Record(p) && p.id == id && p.slot is None
                    && p.state == VmState::Stopped && p.rootfs_device == rec.rootfs_device
                    && p.snapshot == rec.snapshot
            }
        }),
{
    let rec = placed_record(l)->0;
    let t = if creation(l) {
        rollback_plan(rec.id, rec.slot->0, rec.ingress)
    } else {
        seq![
            try_to(Chore::FreeSlot(rec.slot->0)),
            try_to(
                Chore::Record(
                    Placement { slot: None, state: VmState::Stopped, ..placement_of(rec) },
                ),
            ),
        ]
    };
    reveal_with_fuel(outer_rest, 3);
    reveal_with_fuel(slots_after, 3);
    reveal_with_fuel(ports_after, 3);
    let u = t.subrange(1, t.len() as int);
    assert(inner(t[0].chore));
    assert(u[0] == t[1]);
    assert(outer_rest(t) =~= u);
    assert(ahead(r) =~= u);
}

} // verus!
