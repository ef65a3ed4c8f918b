//! One pass of the sync loop over one host: what it has is held against what the
//! fleet recorded. Three disagreements are settled: a VM the fleet has and the
//! host does not (lost), a VM the host has and the fleet did not place (an
//! orphan, counted), and a delete the host has not confirmed (retried).

use crate::common::identify::PolicyClaims;
use crate::fleet::hosts::{success, CallError};
use crate::fleet::signing::{due, renewal_due};
use crate::fleet::store::{FleetState, VmRow};
use crate::text::{same, text_of};
use vstd::prelude::*;
use vstd::string::*;

verus! {

/// A VM as its host reports it: its id, where the report has one, and what this
/// fleet signed on it, where it carries a signature of this fleet's. Whether
/// that has expired does not matter: what matters is whether to renew it.
#[derive(Debug)]
pub struct HostVm {
    pub id: Option<String>,
    pub claims: Option<PolicyClaims>,
}

/// What a host said of itself.
#[derive(Debug)]
pub struct Observation {
    pub slots_total: Option<u64>,
    pub slots_used: Option<u64>,
    pub vms: Vec<HostVm>,
}

/// What is to be done about the signature on a VM's policy.
#[derive(Clone, Copy, Debug, PartialEq, Eq, Structural)]
pub enum Renewal {
    /// It has little of its life left: sign the same claims afresh.
    Due,
    Fresh,
    /// There is none of this fleet's: the policy was changed behind the fleet's
    /// back. It is not blessed here; a tier that verifies refuses the VM until
    /// the policy is set through the fleet again.
    Unsigned,
}

/// What a pass does about one recorded VM.
#[derive(Clone, Copy, Debug, PartialEq, Eq, Structural)]
pub enum Verdict {
    /// The host still has a VM that is to go: ask it again.
    RetryDelete,
    /// The host has it: keep the report at this place, and record it as placed.
    Report { at: usize, renewal: Renewal },
    /// A VM that was to go is gone: drop the record.
    Forget,
    /// Nothing, this time.
    Leave,
    /// It never appeared in the time it had: record it as failed.
    WriteOff,
    /// It is gone from its host: record it as lost.
    Lose,
}

/// Where a host reports a VM; the last of its reports where there are several.
pub open spec fn reported_at(vms: Seq<HostVm>, id: Seq<char>) -> Option<int>
    decreases vms.len(),
{
    if vms.len() == 0 {
        None
    } else if text_of(vms.last().id) == Some(id) {
        Some(vms.len() - 1)
    } else {
        reported_at(vms.drop_last(), id)
    }
}

/// What is to be done about a signature.
pub open spec fn renewal(claims: Option<PolicyClaims>, now: int, ttl: int) -> Renewal {
    match claims {
        None => Renewal::Unsigned,
        Some(c) => if due(c.expires as int, now, ttl) {
            Renewal::Due
        } else {
            Renewal::Fresh
        },
    }
}

/// What a pass does about one recorded VM.
pub open spec fn verdict(row: VmRow, vms: Seq<HostVm>, now: int, grace: int, ttl: int) -> Verdict {
    match reported_at(vms, row.id@) {
        Some(at) => if row.fleet_state == FleetState::Deleting {
            Verdict::RetryDelete
        } else {
            Verdict::Report { at: at as usize, renewal: renewal(vms[at].claims, now, ttl) }
        },
        None => match row.fleet_state {
            FleetState::Deleting => Verdict::Forget,
            FleetState::Creating => if now - row.created_at < grace {
                Verdict::Leave
            } else {
                Verdict::WriteOff
            },
            FleetState::Lost => Verdict::Leave,
            FleetState::Failed => Verdict::Leave,
            _ => Verdict::Lose,
        },
    }
}

proof fn lemma_reported_at(vms: Seq<HostVm>, id: Seq<char>)
    ensures
        match reported_at(vms, id) {
            Some(at) => {
                &&& 0 <= at < vms.len()
                &&& text_of(vms[at].id) == Some(id)
                &&& forall|k: int| at < k < vms.len() ==> text_of((#[trigger] vms[k]).id) != Some(id)
            },
            None => forall|k: int|
                0 <= k < vms.len() ==> text_of((#[trigger] vms[k]).id) != Some(id),
        },
    decreases vms.len(),
{
    if vms.len() > 0 && text_of(vms.last().id) != Some(id) {
        let w = vms.drop_last();
        lemma_reported_at(w, id);
        match reported_at(w, id) {
            Some(at) => {
                assert forall|k: int| at < k < vms.len() implies text_of((#[trigger] vms[k]).id)
                    != Some(id) by {
                    if k < w.len() {
                        assert(w[k] == vms[k]);
                    }
                }
            },
            None => {
                assert forall|k: int| 0 <= k < vms.len() implies text_of((#[trigger] vms[k]).id)
                    != Some(id) by {
                    if k < w.len() {
                        assert(w[k] == vms[k]);
                    }
                }
            },
        }
    }
}

fn has_id(vm: &HostVm, id: &str) -> (r: bool)
    ensures
        r == (text_of(vm.id) == Some(id@)),
{
    match &vm.id {
        Some(s) => same(s.as_str(), id),
        None => false,
    }
}

fn find(vms: &Vec<HostVm>, id: &str) -> (r: Option<usize>)
    ensures
        match r {
            Some(at) => reported_at(vms@, id@) == Some(at as int) && at < vms.len(),
            None => reported_at(vms@, id@) is None,
        },
{
    let mut n: usize = vms.len();
    assert(vms@.take(n as int) =~= vms@);
    while n > 0
        invariant
            n <= vms.len(),
            reported_at(vms@, id@) == reported_at(vms@.take(n as int), id@),
        decreases n,
    {
        let ghost w = vms@.take(n as int);
        proof {
            assert(w.last() == vms@[n - 1]);
            assert(w.drop_last() =~= vms@.take(n - 1));
        }
        n -= 1;
        if has_id(&vms[n], id) {
            return Some(n);
        }
    }
    None
}

/// What a pass does about one recorded VM, given what its host has.
pub fn settle(row: &VmRow, vms: &Vec<HostVm>, now: i64, grace: u64, ttl: u64) -> (r: Verdict)
    requires
        0 <= now,
        grace <= i64::MAX,
    ensures
        r == verdict(*row, vms@, now as int, grace as int, ttl as int),
{
    match find(vms, row.id.as_str()) {
        Some(at) => match row.fleet_state {
            FleetState::Deleting => Verdict::RetryDelete,
            _ => {
                let renewal = match &vms[at].claims {
                    None => Renewal::Unsigned,
                    Some(c) => if renewal_due(c.expires, now as u64, ttl) {
                        Renewal::Due
                    } else {
                        Renewal::Fresh
                    },
                };
                Verdict::Report { at, renewal }
            },
        },
        None => match row.fleet_state {
            FleetState::Deleting => Verdict::Forget,
            FleetState::Creating => {
                let age: i128 = now as i128 - row.created_at as i128;
                if age < grace as i128 {
                    Verdict::Leave
                } else {
                    Verdict::WriteOff
                }
            },
            FleetState::Lost => Verdict::Leave,
            FleetState::Failed => Verdict::Leave,
            _ => Verdict::Lose,
        },
    }
}

/// The ids that a host reports.
pub open spec fn reported(vms: Seq<HostVm>) -> Set<Seq<char>>
    decreases vms.len(),
{
    if vms.len() == 0 {
        Set::empty()
    } else {
        let before = reported(vms.drop_last());
        match vms.last().id {
            Some(s) => before.insert(s@),
            None => before,
        }
    }
}

/// How many records the host reports.
pub open spec fn placed(rows: Seq<VmRow>, vms: Seq<HostVm>) -> nat
    decreases rows.len(),
{
    if rows.len() == 0 {
        0
    } else {
        placed(rows.drop_last(), vms) + if reported_at(vms, rows.last().id@) is Some {
            1nat
        } else {
            0
        }
    }
}

/// How many VMs a host has that the fleet did not place there.
pub open spec fn orphans(rows: Seq<VmRow>, vms: Seq<HostVm>) -> int {
    let n = reported(vms).len() - placed(rows, vms);
    if n > 0 {
        n
    } else {
        0
    }
}

proof fn lemma_reported(vms: Seq<HostVm>, id: Seq<char>)
    ensures
        reported(vms).finite(),
        reported(vms).len() <= vms.len(),
        reported(vms).contains(id) == (reported_at(vms, id) is Some),
    decreases vms.len(),
{
    if vms.len() > 0 {
        lemma_reported(vms.drop_last(), id);
    }
}

fn count_reported(vms: &Vec<HostVm>) -> (r: usize)
    ensures
        r == reported(vms@).len(),
        r <= vms.len(),
{
    let mut n: usize = 0;
    let mut i: usize = 0;
    assert(vms@.take(0) =~= Seq::<HostVm>::empty());
    while i < vms.len()
        invariant
            i <= vms.len(),
            n <= i,
            n == reported(vms@.take(i as int)).len(),
        decreases vms.len() - i,
    {
        let ghost w = vms@.take(i + 1);
        proof {
            assert(w.drop_last() =~= vms@.take(i as int));
            assert(w.last() == vms@[i as int]);
        }
        if let Some(s) = &vms[i].id {
            let mut seen = false;
            let mut k: usize = 0;
            while k < i
                invariant
                    k <= i < vms.len(),
                    seen == (reported_at(vms@.take(k as int), s@) is Some),
                decreases i - k,
            {
                let ghost u = vms@.take(k + 1);
                proof {
                    assert(u.drop_last() =~= vms@.take(k as int));
                    assert(u.last() == vms@[k as int]);
                }
                if has_id(&vms[k], s.as_str()) {
                    seen = true;
                }
                k += 1;
            }
            proof {
                lemma_reported(vms@.take(i as int), s@);
            }
            if !seen {
                n += 1;
            }
        }
        i += 1;
    }
    proof {
        assert(vms@.take(i as int) =~= vms@);
    }
    n
}

/// Whether a row loses its standing when its host cannot be reached.
pub open spec fn stranded(row: VmRow) -> bool {
    row.fleet_state == FleetState::Placed || row.fleet_state == FleetState::Creating
}

/// The places of the rows that do, in order.
pub open spec fn strands(rows: Seq<VmRow>) -> Seq<int>
    decreases rows.len(),
{
    if rows.len() == 0 {
        Seq::empty()
    } else if stranded(rows.last()) {
        strands(rows.drop_last()).push(rows.len() - 1)
    } else {
        strands(rows.drop_last())
    }
}

/// What a pass settled.
#[derive(Debug)]
pub struct Settled {
    /// One for each recorded VM, in order.
    pub verdicts: Vec<Verdict>,
    pub orphans: u32,
}

/// What a pass comes to.
#[derive(Debug)]
pub enum Pass {
    /// The host is recorded as unreachable with this error, and so is each of
    /// its VMs at these places; what is known of them is kept.
    Unreachable { error: String, marked: Vec<usize> },
    /// The host is recorded as healthy with these slots. Without its records
    /// nothing more is done.
    Seen { slots_free: u32, slots_total: u32, settled: Option<Settled> },
}

/// A number of slots as a host gives it: absent ones are none, and only the low
/// 32 bits count.
pub open spec fn slots(n: Option<u64>) -> int {
    match n {
        Some(x) => x as int % 0x1_0000_0000,
        None => 0,
    }
}

fn slot_count(n: Option<u64>) -> (r: u32)
    ensures
        r == slots(n),
{
    match n {
        Some(x) => (x % 0x1_0000_0000) as u32,
        None => 0,
    }
}

/// Whether `p` is what a pass over a host comes to.
pub open spec fn passes(
    observed: Result<Observation, CallError>,
    rows: Option<Seq<VmRow>>,
    now: int,
    grace: int,
    ttl: int,
    p: Pass,
) -> bool {
    match observed {
        Err(e) => {
            &&& p matches Pass::Unreachable { error, marked }
            &&& error@ == e.said()
            &&& marked@.map_values(|i: usize| i as int) == match rows {
                Some(v) => strands(v),
                None => Seq::empty(),
            }
        },
        Ok(o) => {
            &&& p matches Pass::Seen { slots_free, slots_total, settled }
            &&& slots_total == slots(o.slots_total)
            &&& slots_free == if slots(o.slots_total) > slots(o.slots_used) {
                slots(o.slots_total) - slots(o.slots_used)
            } else {
                0
            }
            &&& match rows {
                None => settled is None,
                Some(v) => {
                    &&& settled is Some
                    &&& settles(v, o.vms@, now, grace, ttl, settled->0)
                },
            }
        },
    }
}

/// Whether `s` settles each record of a host, given what it has.
pub open spec fn settles(
    rows: Seq<VmRow>,
    vms: Seq<HostVm>,
    now: int,
    grace: int,
    ttl: int,
    s: Settled,
) -> bool {
    &&& s.verdicts@.len() == rows.len()
    &&& forall|i: int|
        0 <= i < rows.len() ==> (#[trigger] s.verdicts@[i]) == verdict(
            rows[i],
            vms,
            now,
            grace,
            ttl,
        )
    &&& s.orphans == orphans(rows, vms)
}

fn settle_all(rows: &Vec<VmRow>, vms: &Vec<HostVm>, now: i64, grace: u64, ttl: u64) -> (r: Settled)
    requires
        0 <= now,
        grace <= i64::MAX,
        vms.len() <= u32::MAX,
    ensures
        settles(rows@, vms@, now as int, grace as int, ttl as int, r),
{
    let mut verdicts: Vec<Verdict> = Vec::new();
    let mut known: usize = 0;
    let mut i: usize = 0;
    assert(rows@.take(0) =~= Seq::<VmRow>::empty());
    while i < rows.len()
        invariant
            i <= rows.len(),
            0 <= now,
            grace <= i64::MAX,
            known <= i,
            known == placed(rows@.take(i as int), vms@),
            verdicts.len() == i,
            forall|k: int|
                0 <= k < i ==> (#[trigger] verdicts@[k]) == verdict(
                    rows@[k],
                    vms@,
                    now as int,
                    grace as int,
                    ttl as int,
                ),
        decreases rows.len() - i,
    {
        proof {
            let w = rows@.take(i + 1);
            assert(w.drop_last() =~= rows@.take(i as int));
            assert(w.last() == rows@[i as int]);
        }
        let v = settle(&rows[i], vms, now, grace, ttl);
        match v {
            Verdict::RetryDelete => {
                known += 1;
            },
            Verdict::Report { .. } => {
                known += 1;
            },
            _ => {},
        }
        verdicts.push(v);
        i += 1;
    }
    let n: usize = count_reported(vms);
    proof {
        assert(rows@.take(i as int) =~= rows@);
    }
    let orphans: u32 = if n > known {
        (n - known) as u32
    } else {
        0
    };
    Settled { verdicts, orphans }
}

/// One pass over one host: `observed` is what the host said of itself, `rows`
/// what the fleet recorded on it, where that could be read.
pub fn sync_host(
    observed: &Result<Observation, CallError>,
    rows: &Option<Vec<VmRow>>,
    now: i64,
    grace: u64,
    ttl: u64,
) -> (p: Pass)
    requires
        0 <= now,
        grace <= i64::MAX,
        observed matches Ok(o) ==> o.vms@.len() <= u32::MAX,
    ensures
        passes(
            *observed,
            match rows {
                Some(v) => Some(v@),
                None => None,
            },
            now as int,
            grace as int,
            ttl as int,
            p,
        ),
{
    match observed {
        Err(e) => {
            let mut marked: Vec<usize> = Vec::new();
            proof {
                assert(marked@.map_values(|i: usize| i as int) =~= Seq::<int>::empty());
            }
            if let Some(v) = rows {
                let mut i: usize = 0;
                assert(v@.take(0) =~= Seq::<VmRow>::empty());
                while i < v.len()
                    invariant
                        i <= v.len(),
                        marked@.map_values(|i: usize| i as int) == strands(v@.take(i as int)),
                    decreases v.len() - i,
                {
                    let ghost had = marked@;
                    proof {
                        let w = v@.take(i + 1);
                        assert(w.drop_last() =~= v@.take(i as int));
                        assert(w.last() == v@[i as int]);
                    }
                    if v[i].fleet_state == FleetState::Placed || v[i].fleet_state
                        == FleetState::Creating {
                        marked.push(i);
                        proof {
                            assert(marked@.map_values(|i: usize| i as int) =~= had.map_values(
                                |i: usize| i as int,
                            ).push(i as int));
                        }
                    }
                    i += 1;
                }
                assert(v@.take(i as int) =~= v@);
            }
            Pass::Unreachable { error: e.to_string(), marked }
        },
        Ok(o) => {
            let total: u32 = slot_count(o.slots_total);
            let used: u32 = slot_count(o.slots_used);
            let free: u32 = if total > used {
                total - used
            } else {
                0
            };
            let settled = match rows {
                Some(v) => Some(settle_all(v, &o.vms, now, grace, ttl)),
                None => None,
            };
            Pass::Seen { slots_free: free, slots_total: total, settled }
        },
    }
}

/// Whether a host confirmed that a VM is gone.
pub open spec fn confirmed(outcome: Result<u16, CallError>) -> bool {
    outcome matches Ok(s) && (success(s) || s == 404)
}

/// Whether a retried delete is done: the record is dropped and a slot is free.
pub fn delete_confirmed(outcome: &Result<u16, CallError>) -> (r: bool)
    ensures
        r == confirmed(*outcome),
{
    match outcome {
        Ok(s) => (200 <= *s && *s <= 299) || *s == 404,
        Err(_) => false,
    }
}

/// What is recorded of a VM after a verdict, where something is.
pub open spec fn written(v: Verdict) -> Option<(FleetState, Option<Seq<char>>)> {
    match v {
        Verdict::Report { .. } => Some((FleetState::Placed, None)),
        Verdict::WriteOff => Some((FleetState::Failed, Some("host never reported it"@))),
        Verdict::Lose => Some((FleetState::Lost, Some("host no longer has it"@))),
        _ => None,
    }
}

/// What is recorded of a VM after a verdict, where something is: its state and
/// its error.
pub fn recorded(v: Verdict) -> (r: Option<(FleetState, Option<&'static str>)>)
    ensures
        match r {
            Some((s, None)) => written(v) == Some((s, None::<Seq<char>>)),
            Some((s, Some(e))) => written(v) == Some((s, Some(e@))),
            None => written(v) is None,
        },
{
    match v {
        Verdict::Report { .. } => Some((FleetState::Placed, None)),
        Verdict::WriteOff => Some((FleetState::Failed, Some("host never reported it"))),
        Verdict::Lose => Some((FleetState::Lost, Some("host no longer has it"))),
        _ => None,
    }
}

/// The state of a record after a pass; nothing where it was dropped.
/// `confirmed` is what came of a delete, where one was retried.
pub open spec fn after_pass(s: FleetState, v: Verdict, confirmed: bool) -> Option<FleetState> {
    match v {
        Verdict::Forget => None,
        Verdict::RetryDelete => if confirmed {
            None
        } else {
            Some(s)
        },
        _ => match written(v) {
            Some(w) => Some(w.0),
            None => Some(s),
        },
    }
}

/// **Law.** A pass drops a record only where its deletion was asked for; every
/// other record is kept, whatever the host says.
pub proof fn law_only_deleted_vms_are_forgotten(
    row: VmRow,
    vms: Seq<HostVm>,
    now: int,
    grace: int,
    ttl: int,
    confirmed: bool,
)
    requires
        after_pass(row.fleet_state, verdict(row, vms, now, grace, ttl), confirmed) is None,
    ensures
        row.fleet_state == FleetState::Deleting,
        reported_at(vms, row.id@) is None || confirmed,
{
}

/// **Law.** A deletion that was asked for is never undone: until the host has
/// confirmed it, the record says so, whatever the host reports.
pub proof fn law_a_deletion_is_never_undone(
    row: VmRow,
    vms: Seq<HostVm>,
    now: int,
    grace: int,
    ttl: int,
    confirmed: bool,
)
    requires
        row.fleet_state == FleetState::Deleting,
    ensures
        ({
            let after = after_pass(row.fleet_state, verdict(row, vms, now, grace, ttl), confirmed);
            after is None || after == Some(FleetState::Deleting)
        }),
{
}

/// **Law.** A VM that its host reports comes back as placed, from whatever state
/// (unless it is to go): a host that returns brings its VMs with it.
pub proof fn law_a_reported_vm_is_placed(
    row: VmRow,
    vms: Seq<HostVm>,
    now: int,
    grace: int,
    ttl: int,
    confirmed: bool,
    k: int,
)
    requires
        row.fleet_state != FleetState::Deleting,
        0 <= k < vms.len(),
        text_of(vms[k].id) == Some(row.id@),
    ensures
        after_pass(row.fleet_state, verdict(row, vms, now, grace, ttl), confirmed) == Some(
            FleetState::Placed,
        ),
{
    lemma_reported_at(vms, row.id@);
}

/// **Law.** A VM that was placed and that its reachable host does not report is
/// lost; one still being created is left alone inside the grace period and
/// written off after it.
pub proof fn law_an_absent_vm_is_settled(
    row: VmRow,
    vms: Seq<HostVm>,
    now: int,
    grace: int,
    ttl: int,
    confirmed: bool,
)
    requires
        forall|k: int| 0 <= k < vms.len() ==> text_of((#[trigger] vms[k]).id) != Some(row.id@),
    ensures
        ({
            let after = after_pass(row.fleet_state, verdict(row, vms, now, grace, ttl), confirmed);
            match row.fleet_state {
                FleetState::Placed => after == Some(FleetState::Lost),
                FleetState::Unreachable => after == Some(FleetState::Lost),
                FleetState::Creating => after == Some(
                    if now - row.created_at < grace {
                        FleetState::Creating
                    } else {
                        FleetState::Failed
                    },
                ),
                FleetState::Deleting => after is None,
                FleetState::Lost => after == Some(FleetState::Lost),
                FleetState::Failed => after == Some(FleetState::Failed),
            }
        }),
{
    lemma_reported_at(vms, row.id@);
}

/// **Law.** A pass signs nothing that this fleet had not signed: a signature is
/// renewed only where one of the fleet's is there.
pub proof fn law_nothing_is_blessed_behind_the_fleet(
    row: VmRow,
    vms: Seq<HostVm>,
    now: int,
    grace: int,
    ttl: int,
)
    requires
        vms.len() <= usize::MAX,
        verdict(row, vms, now, grace, ttl) matches Verdict::Report { renewal: Renewal::Due, .. },
    ensures
        ({
            let at = reported_at(vms, row.id@)->0;
            &&& 0 <= at < vms.len()
            &&& vms[at].claims is Some
            &&& due(vms[at].claims->0.expires as int, now, ttl)
        }),
{
    lemma_reported_at(vms, row.id@);
}

/// Whether the records of a host have ids of their own.
pub open spec fn distinct(rows: Seq<VmRow>) -> bool {
    forall|i: int, j: int|
        0 <= i < j < rows.len() ==> (#[trigger] rows[i]).id@ != (#[trigger] rows[j]).id@
}

/// The ids that the fleet recorded.
pub open spec fn recorded_ids(rows: Seq<VmRow>) -> Set<Seq<char>>
    decreases rows.len(),
{
    if rows.len() == 0 {
        Set::empty()
    } else {
        recorded_ids(rows.drop_last()).insert(rows.last().id@)
    }
}

/// **Law.** The orphans of a host are the VMs that it reports and the fleet did
/// not record on it, each counted once.
pub proof fn law_orphans_are_what_the_fleet_did_not_place(rows: Seq<VmRow>, vms: Seq<HostVm>)
    requires
        distinct(rows),
    ensures
        orphans(rows, vms) == reported(vms).difference(recorded_ids(rows)).len(),
{
    lemma_placed(rows, vms);
    lemma_reported(vms, Seq::empty());
    let a = reported(vms);
    let b = recorded_ids(rows);
    vstd::set_lib::lemma_set_difference_len(a, b);
}

proof fn lemma_recorded(rows: Seq<VmRow>, id: Seq<char>)
    ensures
        recorded_ids(rows).finite(),
        recorded_ids(rows).contains(id) ==> exists|i: int|
            0 <= i < rows.len() && (#[trigger] rows[i]).id@ == id,
    decreases rows.len(),
{
    if rows.len() > 0 {
        let w = rows.drop_last();
        lemma_recorded(w, id);
        if recorded_ids(rows).contains(id) {
            if recorded_ids(w).contains(id) {
                let i = choose|i: int| 0 <= i < w.len() && (#[trigger] w[i]).id@ == id;
                assert(rows[i].id@ == id);
            } else {
                assert(rows[rows.len() - 1].id@ == id);
            }
        }
    }
}

proof fn lemma_placed(rows: Seq<VmRow>, vms: Seq<HostVm>)
    requires
        distinct(rows),
    ensures
        recorded_ids(rows).finite(),
        placed(rows, vms) == reported(vms).intersect(recorded_ids(rows)).len(),
    decreases rows.len(),
{
    let a = reported(vms);
    lemma_reported(vms, Seq::empty());
    if rows.len() == 0 {
        assert(a.intersect(recorded_ids(rows)) =~= Set::empty());
    } else {
        let w = rows.drop_last();
        assert(distinct(w)) by {
            assert forall|i: int, j: int| 0 <= i < j < w.len() implies (#[trigger] w[i]).id@ != (
            #[trigger] w[j]).id@ by {
                assert(w[i] == rows[i] && w[j] == rows[j]);
            }
        }
        lemma_placed(w, vms);
        let id = rows.last().id@;
        lemma_recorded(w, id);
        if recorded_ids(w).contains(id) {
            let i = choose|i: int| 0 <= i < w.len() && (#[trigger] w[i]).id@ == id;
            assert(rows[i].id@ == rows[rows.len() - 1].id@);
        }
        lemma_reported(vms, id);
        let before = a.intersect(recorded_ids(w));
        if a.contains(id) {
            assert(a.intersect(recorded_ids(rows)) =~= before.insert(id));
        } else {
            assert(a.intersect(recorded_ids(rows)) =~= before);
        }
    }
}

/// **Law.** A report is kept as the host gave it, the last one where it gave
/// several, and what is done about the signature follows from the claims in it:
/// without one of this fleet's it is left alone, and renewed where it has no
/// more than a third of its life left.
pub proof fn law_the_last_report_counts(
    row: VmRow,
    vms: Seq<HostVm>,
    now: int,
    grace: int,
    ttl: int,
)
    requires
        vms.len() <= usize::MAX,
    ensures
        verdict(row, vms, now, grace, ttl) matches Verdict::Report { at, renewal } ==> {
            &&& at < vms.len()
            &&& text_of(vms[at as int].id) == Some(row.id@)
            &&& forall|k: int| at < k < vms.len() ==> text_of((#[trigger] vms[k]).id) != Some(row.id@)
            &&& renewal == Renewal::Unsigned <==> vms[at as int].claims is None
            &&& renewal == Renewal::Due <==> vms[at as int].claims is Some && 3 * (
            vms[at as int].claims->0.expires - now) <= ttl
        },
        verdict(row, vms, now, grace, ttl) is RetryDelete <==> row.fleet_state
            == FleetState::Deleting && exists|k: int|
            0 <= k < vms.len() && text_of((#[trigger] vms[k]).id) == Some(row.id@),
{
    lemma_reported_at(vms, row.id@);
    if let Some(at) = reported_at(vms, row.id@) {
        assert(text_of(vms[at].id) == Some(row.id@));
    }
}

proof fn lemma_strands(rows: Seq<VmRow>, i: int)
    ensures
        strands(rows).contains(i) <==> 0 <= i < rows.len() && stranded(rows[i]),
    decreases rows.len(),
{
    let s = strands(rows);
    if rows.len() > 0 {
        let w = rows.drop_last();
        lemma_strands(w, i);
        let t = strands(w);
        if stranded(rows.last()) {
            assert(s =~= t.push(rows.len() - 1));
            assert(s[s.len() - 1] == rows.len() - 1);
            if t.contains(i) {
                let k = choose|k: int| 0 <= k < t.len() && t[k] == i;
                assert(s[k] == i);
            }
        }
    }
}

/// **Law.** Where a host cannot be reached, exactly those of its VMs lose their
/// standing that were thought to be on it; one that is to go, or is written
/// off already, stays as it is. Nothing is settled then.
pub proof fn law_an_unreachable_host_strands_its_vms(
    e: CallError,
    rows: Seq<VmRow>,
    now: int,
    grace: int,
    ttl: int,
    p: Pass,
    i: int,
)
    requires
        passes(Err(e), Some(rows), now, grace, ttl, p),
        0 <= i < rows.len() <= usize::MAX,
    ensures
        p is Unreachable,
        p->Unreachable_marked@.contains(i as usize) <==> rows[i].fleet_state == FleetState::Placed
            || rows[i].fleet_state == FleetState::Creating,
{
    lemma_strands(rows, i);
    let m = p->Unreachable_marked@;
    let n = m.map_values(|i: usize| i as int);
    if n.contains(i) {
        let k = choose|k: int| 0 <= k < n.len() && n[k] == i;
        assert(m[k] == i as usize);
    }
    if m.contains(i as usize) {
        let k = choose|k: int| 0 <= k < m.len() && m[k] == i as usize;
        assert(n[k] == i);
    }
}

/// **Law.** A host that answers has the slots that it says: what is used and what
/// is free make up the total, and one that says it uses more than it has has
/// none free.
pub proof fn law_free_and_used_slots_make_up_the_total(
    o: Observation,
    rows: Option<Seq<VmRow>>,
    now: int,
    grace: int,
    ttl: int,
    p: Pass,
)
    requires
        passes(Ok(o), rows, now, grace, ttl, p),
        o.slots_total matches Some(t) && t <= u32::MAX,
        o.slots_used matches Some(u) && u <= u32::MAX,
    ensures
        p is Seen,
        p->Seen_slots_total == o.slots_total->0,
        o.slots_used->0 <= o.slots_total->0 ==> p->Seen_slots_free + o.slots_used->0
            == o.slots_total->0,
        o.slots_used->0 > o.slots_total->0 ==> p->Seen_slots_free == 0,
        p->Seen_settled is Some <==> rows is Some,
{
}

/// **Law.** A host confirms a delete with a success, or by not knowing the VM; no
/// other answer does, and no answer does not.
pub proof fn law_a_delete_is_confirmed_by_the_host(outcome: Result<u16, CallError>)
    ensures
        outcome is Err ==> !confirmed(outcome),
        outcome matches Ok(s) ==> (confirmed(outcome) <==> 200 <= s < 300 || s == 404),
{
}

} // verus!
