//! The fleet's record of hosts and of where every VM is.

use crate::text::{list_has, same, texts_of};
use vstd::prelude::*;
use vstd::string::*;

verus! {

/// Where the fleet thinks a VM stands, beside what its host last reported.
#[derive(Clone, Copy, Debug, PartialEq, Eq, Structural)]
pub enum FleetState {
    /// Recorded, the host has not confirmed it yet.
    Creating,
    /// On its host, which reports it.
    Placed,
    /// Its host cannot be reached; the record is kept.
    Unreachable,
    /// Its host is reachable and does not have it.
    Lost,
    /// A delete was asked for and the host has not confirmed it.
    Deleting,
    /// Never came up.
    Failed,
}

impl FleetState {
    /// The name under which a state is stored and reported.
    pub open spec fn name(self) -> Seq<char> {
        match self {
            FleetState::Creating => "creating"@,
            FleetState::Placed => "placed"@,
            FleetState::Unreachable => "unreachable"@,
            FleetState::Lost => "lost"@,
            FleetState::Deleting => "deleting"@,
            FleetState::Failed => "failed"@,
        }
    }

    /// The name under which a state is stored and reported.
    pub fn as_str(self) -> (r: &'static str)
        ensures
            r@ == self.name(),
    {
        match self {
            FleetState::Creating => "creating",
            FleetState::Placed => "placed",
            FleetState::Unreachable => "unreachable",
            FleetState::Lost => "lost",
            FleetState::Deleting => "deleting",
            FleetState::Failed => "failed",
        }
    }

    /// The state of a name.
    pub fn parse(s: &str) -> (r: Option<FleetState>)
        ensures
            match r {
                Some(f) => s@ == f.name(),
                None => forall|f: FleetState| s@ != #[trigger] f.name(),
            },
    {
        if same(s, "creating") {
            Some(FleetState::Creating)
        } else if same(s, "placed") {
            Some(FleetState::Placed)
        } else if same(s, "unreachable") {
            Some(FleetState::Unreachable)
        } else if same(s, "lost") {
            Some(FleetState::Lost)
        } else if same(s, "deleting") {
            Some(FleetState::Deleting)
        } else if same(s, "failed") {
            Some(FleetState::Failed)
        } else {
            None
        }
    }
}

/// **Law.** A stored state reads back as itself.
pub proof fn law_a_stored_state_reads_back(a: FleetState, b: FleetState)
    requires
        a.name() == b.name(),
    ensures
        a == b,
{
    reveal_strlit("creating");
    reveal_strlit("placed");
    reveal_strlit("unreachable");
    reveal_strlit("lost");
    reveal_strlit("deleting");
    reveal_strlit("failed");
    if a != b {
        assert("creating"@[0] == 'c');
        assert("placed"@[0] == 'p');
        assert("unreachable"@[0] == 'u');
        assert("lost"@[0] == 'l');
        assert("deleting"@[0] == 'd');
        assert("failed"@[0] == 'f');
        assert(a.name()[0] != b.name()[0]);
    }
}

/// A host as the fleet last saw it.
#[derive(Debug)]
pub struct HostRow {
    pub name: String,
    pub url: String,
    pub healthy: bool,
    pub last_seen: Option<i64>,
    pub slots_free: u32,
    pub slots_total: u32,
    /// How full the host's pool is, as the host wrote it.
    pub pool_data_percent: String,
    pub templates: Vec<String>,
    /// VMs the host has that the fleet did not place.
    pub orphans: u32,
    pub last_error: Option<String>,
}

/// A VM as the fleet recorded it.
#[derive(Debug)]
pub struct VmRow {
    pub id: String,
    pub host: String,
    pub template: String,
    pub fleet_state: FleetState,
    pub host_state: Option<String>,
    pub created_at: i64,
    pub updated_at: i64,
    pub last_error: Option<String>,
}

/// The free slots of a host after a placement, so the next placement in the same
/// sync window does not pile onto the same host.
pub open spec fn less_one_slot(free: int) -> int {
    if free > 0 {
        free - 1
    } else {
        0
    }
}

/// The free slots of a host after a placement.
pub fn took_slot(free: u32) -> (r: u32)
    ensures
        r == less_one_slot(free as int),
{
    if free > 0 {
        free - 1
    } else {
        0
    }
}

/// The free slots of a host after one of its VMs went.
pub open spec fn one_slot_more(free: int, total: int) -> int {
    if free < total {
        free + 1
    } else {
        free
    }
}

/// The free slots of a host after one of its VMs went.
pub fn freed_slot(free: u32, total: u32) -> (r: u32)
    ensures
        r == one_slot_more(free as int, total as int),
{
    if free < total {
        free + 1
    } else {
        free
    }
}

/// Which recorded hosts are no longer configured, so are forgotten. Their VM
/// records stay.
pub open spec fn forgotten(existing: Seq<Seq<char>>, names: Seq<Seq<char>>) -> Seq<Seq<char>>
    decreases existing.len(),
{
    if existing.len() == 0 {
        Seq::empty()
    } else {
        let before = forgotten(existing.drop_last(), names);
        if names.contains(existing.last()) {
            before
        } else {
            before.push(existing.last())
        }
    }
}

/// Which recorded hosts are no longer configured.
pub fn retain_hosts(existing: &Vec<String>, names: &Vec<String>) -> (r: Vec<String>)
    ensures
        texts_of(r@) == forgotten(texts_of(existing@), texts_of(names@)),
{
    let mut out: Vec<String> = Vec::new();
    let mut i: usize = 0;
    proof {
        assert(texts_of(existing@).take(0) =~= Seq::empty());
        assert(texts_of(out@) =~= Seq::empty());
    }
    while i < existing.len()
        invariant
            i <= existing.len(),
            texts_of(out@) == forgotten(texts_of(existing@).take(i as int), texts_of(names@)),
        decreases existing.len() - i,
    {
        let ghost t = texts_of(existing@).take(i + 1);
        let ghost out0 = out@;
        proof {
            assert(t.drop_last() =~= texts_of(existing@).take(i as int));
            assert(t.last() == existing@[i as int]@);
        }
        if !list_has(names, existing[i].as_str()) {
            out.push(existing[i].clone());
            proof {
                assert(texts_of(out@) =~= texts_of(out0).push(t.last()));
            }
        }
        i += 1;
    }
    proof {
        assert(texts_of(existing@).take(i as int) =~= texts_of(existing@));
    }
    out
}

/// What a VM's state becomes when its host is forgotten: a VM that is written
/// off stays so, every other is unreachable.
pub open spec fn without_host(s: FleetState) -> FleetState {
    if s == FleetState::Lost || s == FleetState::Failed {
        s
    } else {
        FleetState::Unreachable
    }
}

/// What a VM's state becomes when its host is forgotten.
pub fn host_forgotten(s: FleetState) -> (r: FleetState)
    ensures
        r == without_host(s),
{
    if s == FleetState::Lost || s == FleetState::Failed {
        s
    } else {
        FleetState::Unreachable
    }
}

/// `SystemTime::now` of std and its `duration_since` the Unix epoch, in whole
/// seconds; nothing where the clock stands before it. Nothing is claimed of the
/// time.
#[verifier::external_body]
fn since_epoch() -> (r: Option<u64>) {
    std::time::SystemTime::now().duration_since(std::time::UNIX_EPOCH).ok().map(|d| d.as_secs())
}

/// A time of the clock, in the signed seconds that the record uses. A clock
/// before the epoch reads as the epoch.
pub open spec fn signed_seconds(t: Option<u64>) -> int {
    match t {
        Some(s) => if s <= i64::MAX {
            s as int
        } else {
            s - 0x1_0000_0000_0000_0000
        },
        None => 0,
    }
}

/// **Law.** A time that fits is recorded as it is, and a clock without one as the
/// epoch.
pub proof fn law_a_time_is_recorded_as_it_is(t: Option<u64>)
    ensures
        t matches Some(s) ==> (s <= 0x7fff_ffff_ffff_ffff ==> signed_seconds(t) == s),
        t is None ==> signed_seconds(t) == 0,
{
}

/// A time of the clock, in the signed seconds that the record uses.
pub fn seconds(t: Option<u64>) -> (r: i64)
    ensures
        r == signed_seconds(t),
{
    match t {
        Some(s) => if s <= i64::MAX as u64 {
            s as i64
        } else {
            let down: u64 = u64::MAX - s;
            -1 - (down as i64)
        },
        None => 0,
    }
}

/// Seconds since the Unix epoch.
pub fn now() -> (r: i64) {
    seconds(since_epoch())
}

/// **Law.** A slot that was taken and given back is free again: between none and
/// all, the two are undone by each other, and neither leaves that range.
pub proof fn law_a_slot_given_back_is_free_again(free: int, total: int)
    requires
        0 <= free <= total,
    ensures
        0 <= less_one_slot(free) <= total,
        0 <= one_slot_more(free, total) <= total,
        free > 0 ==> less_one_slot(free) < free && one_slot_more(less_one_slot(free), total) == free,
        free < total ==> one_slot_more(free, total) > free && less_one_slot(
            one_slot_more(free, total),
        ) == free,
{
}

/// **Law.** A host that is forgotten takes no VM with it: what was written off
/// stays so, and everything else cannot be reached.
pub proof fn law_a_forgotten_host_leaves_its_vms(s: FleetState)
    ensures
        without_host(s) == FleetState::Lost <==> s == FleetState::Lost,
        without_host(s) == FleetState::Failed <==> s == FleetState::Failed,
        s != FleetState::Lost && s != FleetState::Failed ==> without_host(s)
            == FleetState::Unreachable,
{
}

/// **Law.** A recorded host is forgotten exactly where it is configured no more.
pub proof fn law_only_unconfigured_hosts_are_forgotten(
    existing: Seq<Seq<char>>,
    names: Seq<Seq<char>>,
    h: Seq<char>,
)
    ensures
        forgotten(existing, names).contains(h) <==> existing.contains(h) && !names.contains(h),
    decreases existing.len(),
{
    let f = forgotten(existing, names);
    if existing.len() > 0 {
        let w = existing.drop_last();
        law_only_unconfigured_hosts_are_forgotten(w, names, h);
        let g = forgotten(w, names);
        if existing.contains(h) && !w.contains(h) {
            let k = choose|k: int| 0 <= k < existing.len() && existing[k] == h;
            if k < w.len() {
                assert(w[k] == h);
            }
        }
        if w.contains(h) {
            let k = choose|k: int| 0 <= k < w.len() && w[k] == h;
            assert(existing[k] == h);
        }
        assert(existing[existing.len() - 1] == existing.last());
        if !names.contains(existing.last()) {
            assert(f =~= g.push(existing.last()));
            assert(f[f.len() - 1] == existing.last());
            if g.contains(h) {
                let k = choose|k: int| 0 <= k < g.len() && g[k] == h;
                assert(f[k] == h);
            }
        }
    }
}

} // verus!
