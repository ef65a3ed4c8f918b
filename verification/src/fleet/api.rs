//! The fleet API's decisions: the host admin API with the host removed. Reads
//! come from the fleet's record, and everything under a VM is forwarded to its
//! host as it came.

use crate::common::api::ApiError;
use crate::common::network::Bind;
use crate::fleet::hosts::CallError;
use crate::fleet::store::{FleetState, HostRow, VmRow};
use crate::text::{concat2, concat3, text_of, texts_of};
use vstd::prelude::*;
use vstd::string::*;

verus! {

/// What the fleet adds to a host's record of a VM: where it is and what the
/// fleet knows.
#[derive(Debug)]
pub struct Annotations<'a> {
    pub host: &'a String,
    pub fleet_state: &'static str,
    pub fleet_error: Option<&'a String>,
}

/// A VM as the fleet describes it where its host did not answer.
#[derive(Debug)]
pub struct VmView<'a> {
    pub id: &'a String,
    pub template: &'a String,
    pub state: Option<&'a String>,
    pub added: Annotations<'a>,
}

/// Whether `r` is what the fleet adds to a host's record of a VM.
pub open spec fn annotates(r: Annotations<'_>, row: VmRow) -> bool {
    &&& *r.host == row.host
    &&& r.fleet_state@ == row.fleet_state.name()
    &&& match r.fleet_error {
        Some(e) => row.last_error == Some(*e),
        None => row.last_error is None,
    }
}

/// Whether `r` is a VM as the fleet's own record describes it.
pub open spec fn views(r: VmView<'_>, row: VmRow) -> bool {
    &&& *r.id == row.id
    &&& *r.template == row.template
    &&& match r.state {
        Some(s) => row.host_state == Some(*s),
        None => row.host_state is None,
    }
    &&& annotates(r.added, row)
}

/// What the fleet adds to a host's record of a VM.
pub fn annotations(row: &VmRow) -> (r: Annotations<'_>)
    ensures
        annotates(r, *row),
{
    Annotations {
        host: &row.host,
        fleet_state: row.fleet_state.as_str(),
        fleet_error: row.last_error.as_ref(),
    }
}

/// A VM as the fleet's own record describes it.
pub fn describe(row: &VmRow) -> (r: VmView<'_>)
    ensures
        views(r, *row),
{
    VmView {
        id: &row.id,
        template: &row.template,
        state: row.host_state.as_ref(),
        added: annotations(row),
    }
}

/// Whether a VM's host can be asked about it.
pub open spec fn askable(row: VmRow) -> bool {
    row.fleet_state == FleetState::Placed || row.fleet_state == FleetState::Creating
}

/// Whether a VM's host can be asked about it.
pub fn ask_host(row: &VmRow) -> (r: bool)
    ensures
        r == askable(*row),
{
    row.fleet_state == FleetState::Placed || row.fleet_state == FleetState::Creating
}

fn no_such_vm() -> (e: ApiError)
    ensures
        e.says(404, "no such vm"@),
{
    ApiError { status: 404, message: "no such vm".to_string() }
}

/// How a delete goes on.
#[derive(Clone, Copy, Debug, PartialEq, Eq, Structural)]
pub enum Deleting {
    /// The record is dropped: there is nothing to ask a host for.
    Forget,
    /// The host is asked.
    AskHost,
}

/// Whether `r` is what a delete does first: a VM that is written off, or whose
/// host is no longer configured, is only forgotten.
pub open spec fn deletes(
    row: Option<VmRow>,
    configured: bool,
    r: Result<Deleting, ApiError>,
) -> bool {
    match row {
        None => r matches Err(e) && e.says(404, "no such vm"@),
        Some(v) => r == Ok::<Deleting, ApiError>(
            if v.fleet_state == FleetState::Lost || v.fleet_state == FleetState::Failed
                || !configured {
                Deleting::Forget
            } else {
                Deleting::AskHost
            },
        ),
    }
}

/// What a delete does first.
pub fn delete_one(row: &Option<VmRow>, configured: bool) -> (r: Result<Deleting, ApiError>)
    ensures
        deletes(*row, configured, r),
{
    match row {
        None => Err(no_such_vm()),
        Some(v) => Ok(
            if v.fleet_state == FleetState::Lost || v.fleet_state == FleetState::Failed
                || !configured {
                Deleting::Forget
            } else {
                Deleting::AskHost
            },
        ),
    }
}

/// What came of asking the host.
#[derive(Debug)]
pub enum Deleted {
    /// It is gone: the record is dropped.
    Gone,
    /// The host could not be asked: the record says that it is to go, with this
    /// error, and the sync loop asks again.
    Deferred { error: String },
}

/// Whether `r` is what the host's answer to a delete comes to.
pub open spec fn host_deletes(
    host: Seq<char>,
    outcome: Result<u16, CallError>,
    r: Result<Deleted, ApiError>,
) -> bool {
    match outcome {
        Ok(s) => if s == 204 || s == 404 {
            r matches Ok(d) && d is Gone
        } else {
            r matches Err(e) && e.says(s, host + ": refused the delete"@)
        },
        Err(e) => r matches Ok(d) && (d matches Deleted::Deferred { error } && error@ == e.said()),
    }
}

/// What the host's answer to a delete comes to.
pub fn host_deleted(host: &str, outcome: Result<u16, CallError>) -> (r: Result<Deleted, ApiError>)
    ensures
        host_deletes(host@, outcome, r),
{
    match outcome {
        Ok(s) => if s == 204 || s == 404 {
            Ok(Deleted::Gone)
        } else {
            Err(ApiError { status: s, message: concat2(host, ": refused the delete") })
        },
        Err(e) => Ok(Deleted::Deferred { error: e.to_string() }),
    }
}

/// The path and query that a call under a VM is forwarded to.
pub open spec fn forwarded_path(id: Seq<char>, rest: Seq<char>, query: Option<Seq<char>>) -> Seq<
    char,
> {
    "/vms/"@ + id + "/"@ + rest + match query {
        Some(q) => "?"@ + q,
        None => Seq::empty(),
    }
}

/// Whether `r` is where a call under a VM is forwarded to, path and query as they
/// came, or why it is not.
pub open spec fn forwards(
    row: Option<VmRow>,
    configured: bool,
    id: Seq<char>,
    rest: Seq<char>,
    query: Option<Seq<char>>,
    r: Result<String, ApiError>,
) -> bool {
    match row {
        None => r matches Err(e) && e.says(404, "no such vm"@),
        Some(v) => if !askable(v) {
            r matches Err(e) && e.says(409, "vm is "@ + v.fleet_state.name() + " on "@ + v.host@)
        } else if !configured {
            r matches Err(e) && e.says(409, "host "@ + v.host@ + " is no longer configured"@)
        } else {
            r matches Ok(p) && p@ == forwarded_path(id, rest, query)
        },
    }
}

/// Where a call under a VM is forwarded to.
pub fn forward(
    row: &Option<VmRow>,
    configured: bool,
    id: &str,
    rest: &str,
    query: &Option<String>,
) -> (r: Result<String, ApiError>)
    ensures
        forwards(*row, configured, id@, rest@, text_of(*query), r),
{
    match row {
        None => Err(no_such_vm()),
        Some(v) => {
            if !ask_host(v) {
                let mut m = concat3("vm is ", v.fleet_state.as_str(), " on ");
                m.append(v.host.as_str());
                return Err(ApiError { status: 409, message: m });
            }
            if !configured {
                let m = concat3("host ", v.host.as_str(), " is no longer configured");
                return Err(ApiError { status: 409, message: m });
            }
            let mut p = concat3("/vms/", id, "/");
            p.append(rest);
            match query {
                Some(q) => {
                    let with = concat2("?", q.as_str());
                    p.append(with.as_str());
                },
                None => {
                    proof {
                        assert(p@ =~= forwarded_path(id@, rest@, None));
                    }
                },
            }
            Ok(p)
        },
    }
}

/// A forwarded call that brought no answer. The host is recorded as unreachable
/// with the error's own text.
pub fn bad_gateway(host: &str, e: &CallError) -> (r: ApiError)
    ensures
        r.says(502, host@ + ": "@ + e.said()),
{
    ApiError { status: 502, message: concat3(host, ": ", e.to_string().as_str()) }
}

// ---- stats ----

/// A sum over hosts.
pub open spec fn sum(hosts: Seq<HostRow>, of: spec_fn(HostRow) -> nat) -> nat
    decreases hosts.len(),
{
    if hosts.len() == 0 {
        0
    } else {
        sum(hosts.drop_last(), of) + of(hosts.last())
    }
}

pub open spec fn free_where_healthy() -> spec_fn(HostRow) -> nat {
    |h: HostRow|
        if h.healthy {
            h.slots_free as nat
        } else {
            0
        }
}

pub open spec fn all_slots() -> spec_fn(HostRow) -> nat {
    |h: HostRow| h.slots_total as nat
}

pub open spec fn all_orphans() -> spec_fn(HostRow) -> nat {
    |h: HostRow| h.orphans as nat
}

pub open spec fn one_if_healthy() -> spec_fn(HostRow) -> nat {
    |h: HostRow|
        if h.healthy {
            1
        } else {
            0
        }
}

/// How many VMs are in a state.
pub open spec fn in_state(vms: Seq<VmRow>, s: FleetState) -> nat
    decreases vms.len(),
{
    if vms.len() == 0 {
        0
    } else {
        in_state(vms.drop_last(), s) + if vms.last().fleet_state == s {
            1nat
        } else {
            0
        }
    }
}

/// How many VMs are in each state.
#[derive(Debug)]
pub struct ByState {
    pub creating: usize,
    pub deleting: usize,
    pub failed: usize,
    pub lost: usize,
    pub placed: usize,
    pub unreachable: usize,
}

impl ByState {
    pub open spec fn counts(self, vms: Seq<VmRow>) -> bool {
        &&& self.creating == in_state(vms, FleetState::Creating)
        &&& self.deleting == in_state(vms, FleetState::Deleting)
        &&& self.failed == in_state(vms, FleetState::Failed)
        &&& self.lost == in_state(vms, FleetState::Lost)
        &&& self.placed == in_state(vms, FleetState::Placed)
        &&& self.unreachable == in_state(vms, FleetState::Unreachable)
    }
}

/// The fleet in numbers.
#[derive(Debug)]
pub struct FleetStats {
    pub hosts: usize,
    pub hosts_healthy: usize,
    /// Free slots on healthy hosts.
    pub slots_free: u32,
    pub slots_total: u32,
    pub vms: usize,
    pub by_state: ByState,
    pub orphans: u32,
}

proof fn lemma_sum_grows(hosts: Seq<HostRow>, of: spec_fn(HostRow) -> nat, n: int)
    requires
        0 <= n <= hosts.len(),
    ensures
        sum(hosts.take(n), of) <= sum(hosts, of),
    decreases hosts.len(),
{
    if n == hosts.len() {
        assert(hosts.take(n) =~= hosts);
    } else {
        lemma_sum_grows(hosts.drop_last(), of, n);
        assert(hosts.drop_last().take(n) =~= hosts.take(n));
    }
}

fn count_states(vms: &Vec<VmRow>) -> (r: ByState)
    ensures
        r.counts(vms@),
{
    let mut r = ByState { creating: 0, deleting: 0, failed: 0, lost: 0, placed: 0, unreachable: 0 };
    let mut i: usize = 0;
    assert(vms@.take(0) =~= Seq::<VmRow>::empty());
    while i < vms.len()
        invariant
            i <= vms.len(),
            r.counts(vms@.take(i as int)),
            r.creating <= i,
            r.deleting <= i,
            r.failed <= i,
            r.lost <= i,
            r.placed <= i,
            r.unreachable <= i,
        decreases vms.len() - i,
    {
        proof {
            let w = vms@.take(i + 1);
            assert(w.drop_last() =~= vms@.take(i as int));
            assert(w.last() == vms@[i as int]);
        }
        match vms[i].fleet_state {
            FleetState::Creating => {
                r.creating = r.creating + 1;
            },
            FleetState::Deleting => {
                r.deleting = r.deleting + 1;
            },
            FleetState::Failed => {
                r.failed = r.failed + 1;
            },
            FleetState::Lost => {
                r.lost = r.lost + 1;
            },
            FleetState::Placed => {
                r.placed = r.placed + 1;
            },
            FleetState::Unreachable => {
                r.unreachable = r.unreachable + 1;
            },
        }
        i += 1;
    }
    assert(vms@.take(i as int) =~= vms@);
    r
}

/// The fleet in numbers.
pub fn stats(hosts: &Vec<HostRow>, vms: &Vec<VmRow>) -> (r: FleetStats)
    requires
        sum(hosts@, free_where_healthy()) <= u32::MAX,
        sum(hosts@, all_slots()) <= u32::MAX,
        sum(hosts@, all_orphans()) <= u32::MAX,
    ensures
        r.hosts == hosts@.len(),
        r.hosts_healthy == sum(hosts@, one_if_healthy()),
        r.slots_free == sum(hosts@, free_where_healthy()),
        r.slots_total == sum(hosts@, all_slots()),
        r.vms == vms@.len(),
        r.by_state.counts(vms@),
        r.orphans == sum(hosts@, all_orphans()),
{
    let mut healthy: usize = 0;
    let mut free: u32 = 0;
    let mut total: u32 = 0;
    let mut orphans: u32 = 0;
    let mut i: usize = 0;
    assert(hosts@.take(0) =~= Seq::<HostRow>::empty());
    while i < hosts.len()
        invariant
            i <= hosts.len(),
            sum(hosts@, free_where_healthy()) <= u32::MAX,
            sum(hosts@, all_slots()) <= u32::MAX,
            sum(hosts@, all_orphans()) <= u32::MAX,
            healthy <= i,
            healthy == sum(hosts@.take(i as int), one_if_healthy()),
            free == sum(hosts@.take(i as int), free_where_healthy()),
            total == sum(hosts@.take(i as int), all_slots()),
            orphans == sum(hosts@.take(i as int), all_orphans()),
        decreases hosts.len() - i,
    {
        proof {
            let w = hosts@.take(i + 1);
            assert(w.drop_last() =~= hosts@.take(i as int));
            assert(w.last() == hosts@[i as int]);
            lemma_sum_grows(hosts@, free_where_healthy(), i + 1);
            lemma_sum_grows(hosts@, all_slots(), i + 1);
            lemma_sum_grows(hosts@, all_orphans(), i + 1);
        }
        if hosts[i].healthy {
            healthy += 1;
            free += hosts[i].slots_free;
        }
        total += hosts[i].slots_total;
        orphans += hosts[i].orphans;
        i += 1;
    }
    assert(hosts@.take(i as int) =~= hosts@);
    FleetStats {
        hosts: hosts.len(),
        hosts_healthy: healthy,
        slots_free: free,
        slots_total: total,
        vms: vms.len(),
        by_state: count_states(vms),
        orphans,
    }
}

/// The names that the fleet's server certificate is dialled by.
pub open spec fn dialled_by(listen: Bind, extra: Seq<Seq<char>>) -> Seq<Seq<char>> {
    seq!["localhost"@, "127.0.0.1"@] + match listen.dialled() {
        Some(ip) => seq![ip],
        None => Seq::empty(),
    } + extra
}

/// The names that the fleet's server certificate is dialled by: this machine,
/// the address it listens on unless that is unspecified, and those configured.
pub fn server_sans(listen: Bind, extra: Vec<String>) -> (r: Vec<String>)
    ensures
        texts_of(r@) == dialled_by(listen, texts_of(extra@)),
{
    let mut v: Vec<String> = Vec::new();
    v.push("localhost".to_string());
    v.push("127.0.0.1".to_string());
    let ghost dialled = listen.dialled();
    if !listen.unspecified {
        v.push(listen.ip);
    }
    let mut more = extra;
    v.append(&mut more);
    proof {
        assert(texts_of(v@) =~= seq!["localhost"@, "127.0.0.1"@] + match dialled {
            Some(ip) => seq![ip],
            None => Seq::empty(),
        } + texts_of(extra@));
    }
    v
}

/// **Law.** A VM that is not on its host is not forwarded to.
pub proof fn law_only_standing_vms_are_forwarded_to(row: VmRow)
    requires
        row.fleet_state == FleetState::Lost || row.fleet_state == FleetState::Failed
            || row.fleet_state == FleetState::Unreachable || row.fleet_state
            == FleetState::Deleting,
    ensures
        !askable(row),
{
}

/// **Law.** A call under a VM reaches its host only where the fleet has the VM,
/// thinks it is there, and has the host configured: it is not found without a
/// record, and in conflict otherwise. What reaches it came as it is.
pub proof fn law_a_call_is_forwarded_as_it_came(
    row: Option<VmRow>,
    configured: bool,
    id: Seq<char>,
    rest: Seq<char>,
    query: Option<Seq<char>>,
    r: Result<String, ApiError>,
)
    requires
        forwards(row, configured, id, rest, query, r),
    ensures
        r is Ok <==> row is Some && configured && (row->0.fleet_state == FleetState::Placed
            || row->0.fleet_state == FleetState::Creating),
        row is None ==> (r matches Err(e) && e.status == 404),
        row is Some && r is Err ==> (r matches Err(e) && e.status == 409),
        r is Ok && query is None ==> r->Ok_0@ == "/vms/"@ + id + "/"@ + rest,
        r is Ok && query is Some ==> r->Ok_0@ == "/vms/"@ + id + "/"@ + rest + ("?"@ + query->0),
{
    assert("/vms/"@ + id + "/"@ + rest + Seq::<char>::empty() =~= "/vms/"@ + id + "/"@ + rest);
}

/// **Law.** A host is asked to delete every VM that it may have: only one that is
/// written off, or whose host is not configured any more, is forgotten without.
pub proof fn law_a_host_that_may_have_a_vm_is_asked(
    row: Option<VmRow>,
    configured: bool,
    r: Result<Deleting, ApiError>,
)
    requires
        deletes(row, configured, r),
    ensures
        row is None <==> r is Err,
        r matches Err(e) ==> e.status == 404,
        row matches Some(v) ==> (r->Ok_0 is AskHost <==> configured && (v.fleet_state
            == FleetState::Creating || v.fleet_state == FleetState::Placed || v.fleet_state
            == FleetState::Unreachable || v.fleet_state == FleetState::Deleting)),
{
}

/// **Law.** A record goes only where the host said that the VM is gone or that it
/// never knew it. Without an answer the delete is put off, never given up; a
/// refusal is passed on with its status.
pub proof fn law_a_record_goes_once_the_vm_has(
    host: Seq<char>,
    outcome: Result<u16, CallError>,
    r: Result<Deleted, ApiError>,
)
    requires
        host_deletes(host, outcome, r),
    ensures
        (r matches Ok(d) && d is Gone) <==> (outcome matches Ok(s) && (s == 204 || s == 404)),
        (r matches Ok(d) && d is Deferred) <==> outcome is Err,
        r matches Err(e) ==> outcome == Ok::<u16, CallError>(e.status),
{
}

proof fn lemma_states_add_up(vms: Seq<VmRow>)
    ensures
        in_state(vms, FleetState::Creating) + in_state(vms, FleetState::Deleting) + in_state(
            vms,
            FleetState::Failed,
        ) + in_state(vms, FleetState::Lost) + in_state(vms, FleetState::Placed) + in_state(
            vms,
            FleetState::Unreachable,
        ) == vms.len(),
    decreases vms.len(),
{
    if vms.len() > 0 {
        lemma_states_add_up(vms.drop_last());
    }
}

/// **Law.** Every VM is counted once, in its own state: the counts add up to how
/// many there are, and one more VM in a state is one more in that count.
pub proof fn law_every_vm_is_counted_once(vms: Seq<VmRow>, v: VmRow, a: ByState, b: ByState)
    requires
        a.counts(vms),
        b.counts(vms.push(v)),
    ensures
        a.creating + a.deleting + a.failed + a.lost + a.placed + a.unreachable == vms.len(),
        b.creating - a.creating == (if v.fleet_state == FleetState::Creating {
            1int
        } else {
            0
        }),
        b.deleting - a.deleting == (if v.fleet_state == FleetState::Deleting {
            1int
        } else {
            0
        }),
        b.failed - a.failed == (if v.fleet_state == FleetState::Failed {
            1int
        } else {
            0
        }),
        b.lost - a.lost == (if v.fleet_state == FleetState::Lost {
            1int
        } else {
            0
        }),
        b.placed - a.placed == (if v.fleet_state == FleetState::Placed {
            1int
        } else {
            0
        }),
        b.unreachable - a.unreachable == (if v.fleet_state == FleetState::Unreachable {
            1int
        } else {
            0
        }),
{
    lemma_states_add_up(vms);
    assert(vms.push(v).drop_last() =~= vms);
}

/// **Law.** One more host adds its slots and its orphans to those of the fleet,
/// and its free slots only while it is healthy.
pub proof fn law_only_healthy_hosts_have_free_slots(hosts: Seq<HostRow>, h: HostRow)
    ensures
        sum(hosts.push(h), all_slots()) == sum(hosts, all_slots()) + h.slots_total,
        sum(hosts.push(h), all_orphans()) == sum(hosts, all_orphans()) + h.orphans,
        h.healthy ==> sum(hosts.push(h), free_where_healthy()) == sum(hosts, free_where_healthy())
            + h.slots_free && sum(hosts.push(h), one_if_healthy()) == sum(hosts, one_if_healthy())
            + 1,
        !h.healthy ==> sum(hosts.push(h), free_where_healthy()) == sum(hosts, free_where_healthy())
            && sum(hosts.push(h), one_if_healthy()) == sum(hosts, one_if_healthy()),
        sum(Seq::empty(), all_slots()) == 0,
{
    assert(hosts.push(h).drop_last() =~= hosts);
}

/// **Law.** The fleet's certificate names this machine, the address it listens on
/// unless that is unspecified, and every name that was configured.
pub proof fn law_the_fleet_is_dialled_by_its_names(listen: Bind, extra: Seq<Seq<char>>, i: int)
    requires
        0 <= i < extra.len(),
    ensures
        dialled_by(listen, extra).contains(extra[i]),
        dialled_by(listen, extra).contains("localhost"@),
        dialled_by(listen, extra).contains("127.0.0.1"@),
        !listen.unspecified ==> dialled_by(listen, extra).contains(listen.ip@),
        listen.unspecified ==> dialled_by(listen, extra).len() == 2 + extra.len(),
{
    let v = dialled_by(listen, extra);
    assert(v[0] == "localhost"@ && v[1] == "127.0.0.1"@);
    if !listen.unspecified {
        assert(v[2] == listen.ip@);
    }
    assert(v[v.len() - extra.len() + i] == extra[i]);
}

/// **Law.** What is said of a VM without asking its host is what the record has:
/// the host's own state as it was last reported, and beside it where the fleet
/// thinks the VM stands.
pub proof fn law_a_vm_is_described_from_the_record(r: VmView<'_>, row: VmRow)
    requires
        views(r, row),
    ensures
        *r.id == row.id,
        *r.template == row.template,
        *r.added.host == row.host,
        r.state is Some <==> row.host_state is Some,
        r.state is Some ==> *r.state->0 == row.host_state->0,
        r.added.fleet_state@ == row.fleet_state.name(),
        r.added.fleet_error is Some <==> row.last_error is Some,
        r.added.fleet_error is Some ==> *r.added.fleet_error->0 == row.last_error->0,
{
}

} // verus!
