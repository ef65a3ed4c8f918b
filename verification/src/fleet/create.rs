//! Creating a VM somewhere in the fleet, as a machine: the record is written
//! before any host is asked, so a lost reply is settled by the sync loop rather
//! than becoming a second VM; then the candidates are asked in order.

use crate::common::api::ApiError;
use crate::fleet::hosts::{success, CallError};
use crate::fleet::placement::{
    candidates, fits, known, pinned, ranks, taken_from, template_known,
};
use crate::fleet::store::{FleetState, HostRow};
use crate::text::{concat2, concat3, contains, holds, quote, quoted, text_of, texts_of};
use vstd::prelude::*;
use vstd::string::*;

verus! {

/// What a create asks for, as far as the fleet decides on it: the template it
/// names, and the host that it is pinned to.
#[derive(Debug)]
pub struct Ask {
    pub template: Option<String>,
    pub host: Option<String>,
}

/// Whether an ask names a template.
pub open spec fn named(ask: Ask) -> bool {
    ask.template matches Some(t) && t@.len() > 0
}

/// Whether `r` is where a VM can go: the names of the hosts to ask, best first,
/// or why there is none.
pub open spec fn placeable(ask: Ask, hosts: Seq<HostRow>, r: Result<Vec<String>, ApiError>) -> bool {
    let template = ask.template->0@;
    if !named(ask) {
        r matches Err(e) && e.says(400, "template is required"@)
    } else {
        match r {
            Ok(v) => v@.len() > 0 && exists|at: Seq<int>| #[trigger]
                ranks(hosts, template, text_of(ask.host), at) && names_at(hosts, at, v@),
            Err(e) => {
                &&& ranks(hosts, template, text_of(ask.host), Seq::empty())
                &&& if known(hosts, template) {
                    e.says(
                        409,
                        "no healthy host with a free slot has template "@ + quoted(template),
                    )
                } else {
                    e.says(404, "no host has template "@ + quoted(template))
                }
            },
        }
    }
}

/// Whether `v` holds the names of the hosts at the places `at`.
pub open spec fn names_at(hosts: Seq<HostRow>, at: Seq<int>, v: Seq<String>) -> bool {
    &&& v.len() == at.len()
    &&& forall|k: int| 0 <= k < v.len() ==> (#[trigger] v[k]) == hosts[at[k]].name
}

/// Where a VM can go.
pub fn place(ask: &Ask, hosts: &Vec<HostRow>) -> (r: Result<Vec<String>, ApiError>)
    ensures
        placeable(*ask, hosts@, r),
{
    let template = match &ask.template {
        Some(t) if !t.as_str().is_empty() => t,
        _ => return Err(
            ApiError { status: 400, message: "template is required".to_string() },
        ),
    };
    let pin: Option<&str> = match &ask.host {
        Some(h) => Some(h.as_str()),
        None => None,
    };
    assert(pinned(pin) == text_of(ask.host));
    let found = candidates(hosts, template.as_str(), pin);
    let ghost at = choose|at: Seq<int>| #[trigger]
        ranks(hosts@, template@, pinned(pin), at) && taken_from(hosts@, at, found@);
    if found.len() == 0 {
        assert(at =~= Seq::empty());
        let q = quote(template.as_str());
        return Err(
            if !template_known(hosts, template.as_str()) {
                ApiError { status: 404, message: concat2("no host has template ", q.as_str()) }
            } else {
                ApiError {
                    status: 409,
                    message: concat2(
                        "no healthy host with a free slot has template ",
                        q.as_str(),
                    ),
                }
            },
        );
    }
    let mut names: Vec<String> = Vec::new();
    let mut i: usize = 0;
    while i < found.len()
        invariant
            i <= found.len(),
            found.len() == at.len(),
            forall|k: int| 0 <= k < found.len() ==> *(#[trigger] found@[k]) == hosts@[at[k]],
            names.len() == i,
            forall|k: int| 0 <= k < i ==> (#[trigger] names@[k]) == hosts@[at[k]].name,
        decreases found.len() - i,
    {
        assert(*found@[i as int] == hosts@[at[i as int]]);
        names.push(found[i].name.clone());
        i += 1;
    }
    proof {
        assert(names_at(hosts@, at, names@));
    }
    Ok(names)
}

/// A search for a host: the VM's id, the hosts to ask, the one that it is the
/// turn of, and what the last one said.
#[derive(Debug)]
pub struct Search {
    pub id: String,
    pub hosts: Vec<String>,
    pub at: usize,
    pub last: String,
}

impl Search {
    pub open spec fn wf(self) -> bool {
        self.at < self.hosts@.len()
    }

    /// The host that it is the turn of.
    pub open spec fn host(self) -> Seq<char> {
        self.hosts@[self.at as int]@
    }
}

/// Where a VM went.
#[derive(Debug)]
pub struct Placement {
    pub id: String,
    pub host: String,
}

/// A creation in progress. Each phase but the last awaits one result.
#[derive(Debug)]
pub enum Placing {
    /// The record is to be written.
    Record { s: Search },
    /// The record is to name the host that it is the turn of.
    Assign { s: Search },
    /// That host is to be asked.
    Asking { s: Search },
    /// It took the VM: that is to be recorded. `fresh` tells a VM that the host
    /// just took from one that it turned out to have already.
    Confirm { s: Search, placement: Placement, fresh: bool },
    /// One slot fewer is free there.
    Count { placement: Placement },
    /// It could not be reached: that is to be recorded.
    Note { s: Search, why: String },
    /// Nobody will take the VM: the record is to go.
    Withdraw { id: String, error: ApiError },
    /// It may have taken the VM: the record is to stay as it is, with what
    /// happened.
    Park { id: String, note: String, error: ApiError },
    /// The end. `recorded` says whether there is a record of the VM.
    Done { result: Result<Placement, ApiError>, recorded: bool },
}

/// What a [`Placing`] asks its caller to do.
#[derive(Debug)]
pub enum PlaceAction<'a> {
    /// Write the record, in state `creating`, on this host.
    Insert { id: &'a String, host: &'a String },
    SetHost { id: &'a String, host: &'a String },
    /// Sign the policy for this host, and ask it to create the VM.
    Create { id: &'a String, host: &'a String },
    SetState { id: &'a String, state: FleetState, host_state: Option<&'static str>, note: Option<&'a String> },
    TookSlot { host: &'a String },
    HostUnreachable { host: &'a String, why: &'a String },
    Delete { id: &'a String },
    Nothing,
}

/// What came of it.
#[derive(Debug)]
pub enum PlaceEvent {
    /// The store did or did not do as asked.
    Stored(Result<(), String>),
    /// An action whose result does not matter was tried.
    Tried,
    /// The host answered: its status, and the id and the error in its answer.
    Answer { status: u16, id: Option<String>, error: Option<String> },
    /// The call brought no answer.
    Unanswered(CallError),
    /// The host is not configured any more.
    Vanished,
    /// The policy that was asked for cannot be read, so cannot be signed.
    BadPolicy(String),
}

/// Whether `r` ends a creation with a refusal.
pub open spec fn refused(r: Placing, status: u16, message: Seq<char>, recorded: bool) -> bool {
    &&& r matches Placing::Done { result, recorded: rec }
    &&& rec == recorded
    &&& result matches Err(e)
    &&& e.says(status, message)
}

/// Whether `r` withdraws the record, to end with a refusal.
pub open spec fn withdrawn(r: Placing, id: String, status: u16, message: Seq<char>) -> bool {
    &&& r matches Placing::Withdraw { id: i, error }
    &&& i == id
    &&& error.says(status, message)
}

/// Whether `r` is what follows when the host whose turn it is did not take the
/// VM, with what it said: the next is asked, or nobody is left.
pub open spec fn passed_on(s: Search, said: Seq<char>, r: Placing) -> bool {
    if s.at + 1 < s.hosts@.len() {
        &&& r matches Placing::Assign { s: t }
        &&& t.id == s.id
        &&& t.hosts == s.hosts
        &&& t.at == s.at + 1
        &&& t.last@ == said
    } else {
        withdrawn(r, s.id, 409, "no host could take vm ("@ + said + ")"@)
    }
}

/// The text where there is one, or another.
pub open spec fn or_text(o: Option<String>, other: Seq<char>) -> Seq<char> {
    match o {
        Some(s) => s@,
        None => other,
    }
}

/// Whether `r` follows when a host answered.
pub open spec fn answered(
    s: Search,
    status: u16,
    id: Option<String>,
    error: Option<String>,
    r: Placing,
) -> bool {
    if success(status) {
        &&& r matches Placing::Confirm { s: t, placement, fresh }
        &&& t == s
        &&& fresh
        &&& placement.id@ == or_text(id, s.id@)
        &&& placement.host@ == s.host()
    } else if status == 409 && holds(or_text(error, "conflict"@), "already exists"@) {
        &&& r matches Placing::Confirm { s: t, placement, fresh }
        &&& t == s
        &&& !fresh
        &&& placement.id@ == s.id@
        &&& placement.host@ == s.host()
    } else if status == 409 {
        passed_on(s, s.host() + ": "@ + or_text(error, "conflict"@), r)
    } else {
        withdrawn(r, s.id, status, s.host() + ": "@ + or_text(error, "host error"@))
    }
}

impl Placing {
    pub open spec fn wf(self) -> bool {
        match self {
            Placing::Record { s } => s.wf() && s.at == 0,
            Placing::Assign { s } => s.wf(),
            Placing::Asking { s } => s.wf(),
            Placing::Confirm { s, .. } => s.wf(),
            Placing::Note { s, .. } => s.wf(),
            _ => true,
        }
    }

    /// Whether an event answers what this machine asks for.
    pub open spec fn awaits(self, ev: PlaceEvent) -> bool {
        match self {
            Placing::Record { .. } => ev is Stored,
            Placing::Assign { .. } => ev is Stored,
            Placing::Asking { .. } => ev is Answer || ev is Unanswered || ev is Vanished
                || ev is BadPolicy,
            Placing::Confirm { .. } => ev is Stored,
            Placing::Count { .. } => ev is Tried,
            Placing::Note { .. } => ev is Tried,
            Placing::Withdraw { .. } => ev is Stored,
            Placing::Park { .. } => ev is Stored,
            Placing::Done { .. } => false,
        }
    }

    /// The whole machine: what `ev` turns this one into.
    pub open spec fn follows(self, ev: PlaceEvent, r: Placing) -> bool {
        match (self, ev) {
            (Placing::Record { .. }, PlaceEvent::Stored(Err(e))) => refused(
                r,
                500,
                "store: "@ + e@,
                false,
            ),
            (Placing::Record { s }, _) => r == (Placing::Assign { s }),
            (Placing::Assign { .. }, PlaceEvent::Stored(Err(e))) => refused(
                r,
                500,
                "store: "@ + e@,
                true,
            ),
            (Placing::Assign { s }, _) => r == (Placing::Asking { s }),
            (Placing::Asking { s }, PlaceEvent::Answer { status, id, error }) => answered(
                s,
                status,
                id,
                error,
                r,
            ),
            (Placing::Asking { s }, PlaceEvent::Unanswered(CallError::Unreachable(e))) => r == (
            Placing::Note { s, why: e }),
            (Placing::Asking { s }, PlaceEvent::Unanswered(CallError::Ambiguous(e))) => {
                &&& r matches Placing::Park { id, note, error }
                &&& id == s.id
                &&& note == e
                &&& error.says(
                    502,
                    s.host() + ": no reply ("@ + e@ + "); vm "@ + s.id@
                        + " will be reconciled, check GET /vms/"@ + s.id@,
                )
            },
            (Placing::Asking { .. }, PlaceEvent::Vanished) => refused(
                r,
                500,
                "host vanished"@,
                true,
            ),
            (Placing::Asking { s }, PlaceEvent::BadPolicy(e)) => withdrawn(r, s.id, 400, e@),
            (Placing::Confirm { .. }, PlaceEvent::Stored(Err(e))) => refused(
                r,
                500,
                "store: "@ + e@,
                true,
            ),
            (Placing::Confirm { placement, fresh, .. }, _) => r == if fresh {
                Placing::Count { placement }
            } else {
                Placing::Done { result: Ok(placement), recorded: true }
            },
            (Placing::Count { placement }, _) => r == (Placing::Done {
                result: Ok(placement),
                recorded: true,
            }),
            (Placing::Note { s, why }, _) => passed_on(s, s.host() + ": "@ + why@, r),
            (Placing::Withdraw { .. }, PlaceEvent::Stored(Err(e))) => refused(
                r,
                500,
                "store: "@ + e@,
                true,
            ),
            (Placing::Withdraw { error, .. }, _) => r == (Placing::Done {
                result: Err(error),
                recorded: false,
            }),
            (Placing::Park { .. }, PlaceEvent::Stored(Err(e))) => refused(
                r,
                500,
                "store: "@ + e@,
                true,
            ),
            (Placing::Park { error, .. }, _) => r == (Placing::Done {
                result: Err(error),
                recorded: true,
            }),
            _ => true,
        }
    }

    /// Whether `a` is what is to be done now.
    pub open spec fn asks(self, a: PlaceAction<'_>) -> bool {
        match self {
            Placing::Record { s } => a matches PlaceAction::Insert { id, host } && *id == s.id
                && *host == s.hosts@[s.at as int],
            Placing::Assign { s } => a matches PlaceAction::SetHost { id, host } && *id == s.id
                && *host == s.hosts@[s.at as int],
            Placing::Asking { s } => a matches PlaceAction::Create { id, host } && *id == s.id
                && *host == s.hosts@[s.at as int],
            Placing::Confirm { s, fresh, .. } => {
                &&& a matches PlaceAction::SetState { id, state, host_state, note }
                &&& *id == s.id
                &&& state == FleetState::Placed
                &&& fresh ==> (host_state matches Some(h) && h@ == "creating"@)
                &&& !fresh ==> host_state is None
                &&& note is None
            },
            Placing::Count { placement } => a matches PlaceAction::TookSlot { host } && *host
                == placement.host,
            Placing::Note { s, why } => {
                &&& a matches PlaceAction::HostUnreachable { host, why: e }
                &&& *host == s.hosts@[s.at as int]
                &&& *e == why
            },
            Placing::Withdraw { id, .. } => a matches PlaceAction::Delete { id: i } && *i == id,
            Placing::Park { id, note, .. } => {
                &&& a matches PlaceAction::SetState { id: i, state, host_state, note: n }
                &&& *i == id
                &&& state == FleetState::Creating
                &&& host_state is None
                &&& n matches Some(e)
                &&& *e == note
            },
            Placing::Done { .. } => a is Nothing,
        }
    }

    /// A creation of the VM `id` on one of some hosts.
    pub fn begin(id: String, hosts: Vec<String>) -> (r: Placing)
        requires
            hosts@.len() > 0,
        ensures
            r.wf(),
            r matches Placing::Record { s } && s.id == id && s.hosts == hosts && s.at == 0 && s.last@
                == "no candidate"@,
    {
        Placing::Record { s: Search { id, hosts, at: 0, last: "no candidate".to_string() } }
    }

    /// What is to be done now.
    pub fn action(&self) -> (a: PlaceAction<'_>)
        requires
            self.wf(),
        ensures
            self.asks(a),
    {
        match self {
            Placing::Record { s } => PlaceAction::Insert { id: &s.id, host: &s.hosts[s.at] },
            Placing::Assign { s } => PlaceAction::SetHost { id: &s.id, host: &s.hosts[s.at] },
            Placing::Asking { s } => PlaceAction::Create { id: &s.id, host: &s.hosts[s.at] },
            Placing::Confirm { s, fresh, .. } => PlaceAction::SetState {
                id: &s.id,
                state: FleetState::Placed,
                host_state: if *fresh {
                    Some("creating")
                } else {
                    None
                },
                note: None,
            },
            Placing::Count { placement } => PlaceAction::TookSlot { host: &placement.host },
            Placing::Note { s, why } => PlaceAction::HostUnreachable { host: &s.hosts[s.at], why },
            Placing::Withdraw { id, .. } => PlaceAction::Delete { id },
            Placing::Park { id, note, .. } => PlaceAction::SetState {
                id,
                state: FleetState::Creating,
                host_state: None,
                note: Some(note),
            },
            Placing::Done { .. } => PlaceAction::Nothing,
        }
    }

    /// What `ev` turns this creation into.
    pub fn step(self, ev: PlaceEvent) -> (r: Placing)
        requires
            self.wf(),
            self.awaits(ev),
        ensures
            r.wf(),
            self.follows(ev, r),
    {
        match (self, ev) {
            (Placing::Record { s }, PlaceEvent::Stored(w)) => match w {
                Ok(_) => Placing::Assign { s },
                Err(e) => store_failed(e, false),
            },
            (Placing::Assign { s }, PlaceEvent::Stored(w)) => match w {
                Ok(_) => Placing::Asking { s },
                Err(e) => store_failed(e, true),
            },
            (Placing::Asking { s }, PlaceEvent::Answer { status, id, error }) => answer(
                s,
                status,
                id,
                error,
            ),
            (Placing::Asking { s }, PlaceEvent::Unanswered(e)) => match e {
                CallError::Unreachable(e) => Placing::Note { s, why: e },
                CallError::Ambiguous(e) => {
                    let mut m = concat3(s.hosts[s.at].as_str(), ": no reply (", e.as_str());
                    m.append("); vm ");
                    m.append(s.id.as_str());
                    m.append(" will be reconciled, check GET /vms/");
                    m.append(s.id.as_str());
                    Placing::Park { id: s.id, note: e, error: ApiError { status: 502, message: m } }
                },
            },
            (Placing::Asking { .. }, PlaceEvent::Vanished) => Placing::Done {
                result: Err(ApiError { status: 500, message: "host vanished".to_string() }),
                recorded: true,
            },
            (Placing::Asking { s }, PlaceEvent::BadPolicy(e)) => Placing::Withdraw {
                id: s.id,
                error: ApiError { status: 400, message: e },
            },
            (Placing::Confirm { placement, fresh, .. }, PlaceEvent::Stored(w)) => match w {
                Ok(_) => if fresh {
                    Placing::Count { placement }
                } else {
                    Placing::Done { result: Ok(placement), recorded: true }
                },
                Err(e) => store_failed(e, true),
            },
            (Placing::Count { placement }, PlaceEvent::Tried) => Placing::Done {
                result: Ok(placement),
                recorded: true,
            },
            (Placing::Note { s, why }, PlaceEvent::Tried) => {
                let said = concat3(s.hosts[s.at].as_str(), ": ", why.as_str());
                pass_on(s, said)
            },
            (Placing::Withdraw { error, .. }, PlaceEvent::Stored(w)) => match w {
                Ok(_) => Placing::Done { result: Err(error), recorded: false },
                Err(e) => store_failed(e, true),
            },
            (Placing::Park { error, .. }, PlaceEvent::Stored(w)) => match w {
                Ok(_) => Placing::Done { result: Err(error), recorded: true },
                Err(e) => store_failed(e, true),
            },
            (p, _) => p,
        }
    }
}

fn store_failed(e: String, recorded: bool) -> (r: Placing)
    ensures
        refused(r, 500, "store: "@ + e@, recorded),
        r.wf(),
{
    let message = concat2("store: ", e.as_str());
    Placing::Done { result: Err(ApiError { status: 500, message }), recorded }
}

fn pass_on(s: Search, said: String) -> (r: Placing)
    requires
        s.wf(),
    ensures
        passed_on(s, said@, r),
        r.wf(),
{
    if s.at < s.hosts.len() - 1 {
        Placing::Assign { s: Search { id: s.id, hosts: s.hosts, at: s.at + 1, last: said } }
    } else {
        let message = concat3("no host could take vm (", said.as_str(), ")");
        Placing::Withdraw { id: s.id, error: ApiError { status: 409, message } }
    }
}

fn answer(s: Search, status: u16, id: Option<String>, error: Option<String>) -> (r: Placing)
    requires
        s.wf(),
    ensures
        answered(s, status, id, error, r),
        r.wf(),
{
    let host = s.hosts[s.at].clone();
    if 200 <= status && status <= 299 {
        let id = match id {
            Some(i) => i,
            None => s.id.clone(),
        };
        return Placing::Confirm { s, placement: Placement { id, host }, fresh: true };
    }
    if status == 409 {
        let said = match error {
            Some(e) => e,
            None => "conflict".to_string(),
        };
        if contains(said.as_str(), "already exists") {
            let id = s.id.clone();
            return Placing::Confirm { s, placement: Placement { id, host }, fresh: false };
        }
        let line = concat3(host.as_str(), ": ", said.as_str());
        return pass_on(s, line);
    }
    let said = match error {
        Some(e) => e,
        None => "host error".to_string(),
    };
    let message = concat3(host.as_str(), ": ", said.as_str());
    Placing::Withdraw { id: s.id, error: ApiError { status, message } }
}

/// **Law.** A host is asked only when there is a record that names it, and
/// hosts are asked one after the other, each once: the record is there first,
/// and then one place further each time.
pub proof fn law_the_record_comes_before_the_host(p: Placing, ev: PlaceEvent, r: Placing)
    requires
        p.wf(),
        p.awaits(ev),
        p.follows(ev, r),
    ensures
        r matches Placing::Asking { s } ==> p == (Placing::Assign { s }) && ev == PlaceEvent::Stored(
            Ok(()),
        ),
        r matches Placing::Assign { s } ==> match p {
            Placing::Record { s: t } => s == t && s.at == 0 && ev == PlaceEvent::Stored(Ok(())),
            Placing::Asking { s: t } => s.hosts == t.hosts && s.id == t.id && s.at == t.at + 1,
            Placing::Note { s: t, .. } => s.hosts == t.hosts && s.id == t.id && s.at == t.at + 1,
            _ => false,
        },
        !(r is Record),
{
    assert(ev matches PlaceEvent::Stored(Ok(u)) ==> u == ());
}

/// **Law.** A reply that was lost never leads to a second VM: no other host is
/// asked, the caller is told, and the record stays for the sync loop.
pub proof fn law_an_unclear_answer_ends_the_search(
    p: Placing,
    e: String,
    q: Placing,
    ev: PlaceEvent,
    r: Placing,
)
    requires
        p.wf(),
        p is Asking,
        p.follows(PlaceEvent::Unanswered(CallError::Ambiguous(e)), q),
        q.awaits(ev),
        q.follows(ev, r),
    ensures
        q is Park,
        r matches Placing::Done { result, recorded } && result is Err && recorded,
        ev == PlaceEvent::Stored(Ok(())) ==> (r matches Placing::Done { result: Err(x), .. }
            && x.status == 502),
{
    assert(ev matches PlaceEvent::Stored(Ok(u)) ==> u == ());
}

/// **Law.** A creation that succeeds is recorded. One that fails leaves no record
/// behind unless the host may have the VM, the store failed, or the host was
/// taken from the configuration meanwhile.
pub proof fn law_a_failed_creation_leaves_no_record(p: Placing, ev: PlaceEvent, r: Placing)
    requires
        p.wf(),
        p.awaits(ev),
        p.follows(ev, r),
        r is Done,
    ensures
        r matches Placing::Done { result: Ok(_), recorded } ==> recorded,
        r matches Placing::Done { result: Err(_), recorded } ==> (recorded ==> p is Park
            || ev is Vanished || (ev matches PlaceEvent::Stored(Err(_)))),
{
}

/// **Law.** Where no host takes a VM, its record is withdrawn and the caller is
/// told what the last host said.
pub proof fn law_a_vm_that_nobody_takes_is_withdrawn(p: Placing, ev: PlaceEvent, r: Placing)
    requires
        p.wf(),
        match p {
            Placing::Asking { s } => s.at + 1 == s.hosts@.len() && (ev matches PlaceEvent::Answer { status, error, .. } && status == 409
                && !holds(or_text(error, "conflict"@), "already exists"@)),
            Placing::Note { s, .. } => s.at + 1 == s.hosts@.len() && ev is Tried,
            _ => false,
        },
        p.follows(ev, r),
    ensures
        r matches Placing::Withdraw { error, .. } && error.status == 409,
{
}

/// **Law.** Everything that a creation does is about its own VM and the host
/// whose turn it is: the record is written and handed on under the VM's id, the
/// same host is recorded and asked, a VM that was taken is recorded as placed,
/// one that may have been taken stays in creation with what happened, and only
/// one that nobody has is deleted from the record.
pub proof fn law_a_creation_speaks_of_its_own_vm(p: Placing, a: PlaceAction<'_>)
    requires
        p.wf(),
        p.asks(a),
    ensures
        p matches Placing::Record { s } ==> (a matches PlaceAction::Insert { id, host } && *id == s.id
            && host@ == s.host()),
        p matches Placing::Assign { s } ==> (a matches PlaceAction::SetHost { id, host } && *id
            == s.id && host@ == s.host()),
        p matches Placing::Asking { s } ==> (a matches PlaceAction::Create { id, host } && *id == s.id
            && host@ == s.host()),
        p matches Placing::Note { s, why } ==> (a matches PlaceAction::HostUnreachable {
            host,
            why: e,
        } && host@ == s.host() && *e == why),
        p matches Placing::Count { placement } ==> (a matches PlaceAction::TookSlot { host } && *host
            == placement.host),
        a matches PlaceAction::SetState { id, state, host_state, note } ==> {
            ||| (p matches Placing::Confirm { s, fresh, .. } && *id == s.id && state
                == FleetState::Placed && note is None && (host_state is Some <==> fresh))
            ||| (p matches Placing::Park { id: i, note: n, .. } && *id == i && state
                == FleetState::Creating && note is Some && *note->0 == n && host_state is None)
        },
        a matches PlaceAction::Delete { id } ==> (p matches Placing::Withdraw { id: i, .. } && *id
            == i),
{
}

/// **Law.** What a host answers decides what follows. A success is its word that
/// it has the VM, and so is a conflict that says it exists already; any other
/// conflict is passed on to the next host, where one is left; any other status
/// ends the search with that status. Nobody else is asked about a policy that
/// cannot be read.
pub proof fn law_the_answer_of_a_host_decides(s: Search, ev: PlaceEvent, r: Placing)
    requires
        s.wf(),
        (Placing::Asking { s }).awaits(ev),
        (Placing::Asking { s }).follows(ev, r),
    ensures
        r is Confirm <==> (ev matches PlaceEvent::Answer { status, error, .. } && (200 <= status
            < 300 || (status == 409 && holds(or_text(error, "conflict"@), "already exists"@)))),
        r matches Placing::Confirm { s: t, placement, fresh } ==> {
            &&& t == s
            &&& placement.host@ == s.host()
            &&& fresh <==> 200 <= ev->Answer_status < 300
            &&& placement.id@ == s.id@ || (fresh && ev->Answer_id is Some && placement.id@
                == ev->Answer_id->0@)
            &&& fresh && ev->Answer_id is Some ==> placement.id@ == ev->Answer_id->0@
        },
        r is Assign ==> ev is Answer && ev->Answer_status == 409 && s.at + 1 < s.hosts@.len(),
        r matches Placing::Withdraw { id, error } ==> {
            &&& id == s.id
            &&& ev is Answer ==> error.status == ev->Answer_status
            &&& ev is BadPolicy ==> error.status == 400
            &&& ev is Answer || ev is BadPolicy
        },
        ev is BadPolicy ==> r is Withdraw,
        ev matches PlaceEvent::Answer { status, .. } ==> (!(200 <= status < 300) && status != 409
            ==> r is Withdraw),
        ev matches PlaceEvent::Unanswered(e) ==> (e is Unreachable ==> r is Note
            && r->Note_s == s) && (e is Ambiguous ==> r is Park && r->Park_id == s.id),
{
}

/// **Law.** A creation succeeds only where a host took the VM and that was
/// recorded, with the place it was taken at; a slot is counted exactly once, and
/// only for a VM that the host just took.
pub proof fn law_a_creation_succeeds_where_it_was_taken(p: Placing, ev: PlaceEvent, r: Placing)
    requires
        p.wf(),
        p.awaits(ev),
        p.follows(ev, r),
    ensures
        r matches Placing::Done { result: Ok(x), .. } ==> (p == (Placing::Count { placement: x }) || (
        p matches Placing::Confirm { placement, fresh, .. } && !fresh && placement == x
            && ev->Stored_0 is Ok)),
        r matches Placing::Count { placement } ==> (p matches Placing::Confirm {
            placement: x,
            fresh,
            ..
        } && fresh && x == placement && ev->Stored_0 is Ok),
        p matches Placing::Confirm { placement, fresh, .. } ==> (ev == PlaceEvent::Stored(Ok(())) ==> (
        if fresh {
            r == (Placing::Count { placement })
        } else {
            r == (Placing::Done { result: Ok(placement), recorded: true })
        })),
        p matches Placing::Note { s, .. } ==> (r is Assign <==> s.at + 1 < s.hosts@.len()),
        p is Withdraw && ev == PlaceEvent::Stored(Ok(())) ==> r == (Placing::Done {
            result: Err(p->Withdraw_error),
            recorded: false,
        }),
        ev matches PlaceEvent::Stored(Err(_)) ==> (r matches Placing::Done { result: Err(e), .. }
            && e.status == 500),
{
}

/// Whether a host can take what is asked for.
pub open spec fn takes(h: HostRow, ask: Ask) -> bool {
    &&& h.healthy
    &&& h.slots_free > 0
    &&& ask.template is Some && texts_of(h.templates@).contains(ask.template->0@)
    &&& ask.host is Some ==> ask.host->0@ == h.name@
}

/// Whether some host of this name can take what is asked for.
pub open spec fn one_takes(hosts: Seq<HostRow>, name: String, ask: Ask) -> bool {
    exists|i: int| 0 <= i < hosts.len() && takes(#[trigger] hosts[i], ask) && hosts[i].name == name
}

/// **Law.** The hosts that are asked are those that are healthy, have the
/// template and a free slot, and are the one that was asked for where one was,
/// and all of them. Without one the refusal says whether any host has the
/// template at all.
pub proof fn law_only_hosts_that_can_take_a_vm_are_asked(
    ask: Ask,
    hosts: Seq<HostRow>,
    r: Result<Vec<String>, ApiError>,
)
    requires
        placeable(ask, hosts, r),
    ensures
        !(ask.template matches Some(t) && t@.len() > 0) ==> (r matches Err(e) && e.status == 400),
        ask.template is Some && ask.template->0@.len() > 0 && r is Err ==> {
            &&& forall|i: int| 0 <= i < hosts.len() ==> !takes(#[trigger] hosts[i], ask)
            &&& r->Err_0.status == 409 <==> exists|i: int|
                0 <= i < hosts.len() && texts_of((#[trigger] hosts[i]).templates@).contains(
                    ask.template->0@,
                )
            &&& r->Err_0.status == 409 || r->Err_0.status == 404
        },
        r matches Ok(v) ==> {
            &&& v@.len() > 0
            &&& forall|k: int| 0 <= k < v@.len() ==> one_takes(hosts, #[trigger] v@[k], ask)
            &&& forall|i: int|
                0 <= i < hosts.len() && takes(#[trigger] hosts[i], ask) ==> v@.contains(
                    hosts[i].name,
                )
        },
{
    if named(ask) {
        let t = ask.template->0@;
        match r {
            Err(e) => {
                assert forall|i: int| 0 <= i < hosts.len() implies !takes(
                    #[trigger] hosts[i],
                    ask,
                ) by {
                    if fits(hosts[i], t, text_of(ask.host)) {
                        assert(Seq::<int>::empty().contains(i));
                    }
                }
            },
            Ok(v) => {
                let at = choose|at: Seq<int>| #[trigger]
                    ranks(hosts, t, text_of(ask.host), at) && names_at(hosts, at, v@);
                assert forall|k: int| 0 <= k < v@.len() implies one_takes(
                    hosts,
                    #[trigger] v@[k],
                    ask,
                ) by {
                    assert(fits(hosts[at[k]], t, text_of(ask.host)));
                    assert(hosts[at[k]].name == v@[k]);
                    assert(takes(hosts[at[k]], ask));
                }
                assert forall|i: int| 0 <= i < hosts.len() && takes(
                    #[trigger] hosts[i],
                    ask,
                ) implies v@.contains(hosts[i].name) by {
                    assert(fits(hosts[i], t, text_of(ask.host)));
                    let k = choose|k: int| 0 <= k < at.len() && at[k] == i;
                    assert(v@[k] == hosts[i].name);
                }
            },
        }
    }
}

} // verus!
