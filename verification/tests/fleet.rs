//! One API over many hosts.

use iso::common::api::ApiError;
use iso::common::identify::PolicyClaims;
use iso::common::ids::VmId;
use iso::common::network::{Bind, EgressMode};
use iso::control_plane::policy::{check_signed, Described};
use iso::fleet::api::{
    annotations, ask_host, bad_gateway, delete_one, describe, forward, host_deleted, server_sans,
    stats, Deleted, Deleting,
};
use iso::fleet::config::{
    default_db, default_grace, default_listen, default_pki, default_policy_ttl, default_sync, Config,
    HostConfig, TlsFiles,
};
use iso::fleet::create::{place, Ask, PlaceAction, PlaceEvent, Placing};
use iso::fleet::hosts::{accept, CallError, HostAddress};
use iso::fleet::placement::{candidates, template_known};
use iso::control_plane::edit::Outcome;
use iso::fleet::signing::{after_change, at_creation, renewal_due, resign, sign_policy};
use iso::fleet::store::{
    freed_slot, host_forgotten, now, retain_hosts, seconds, took_slot, FleetState, HostRow, VmRow,
};
use iso::fleet::sync::{
    delete_confirmed, recorded, settle, sync_host, HostVm, Observation, Pass, Renewal, Verdict,
};

fn host(name: &str, healthy: bool, free: u32, total: u32, templates: &[&str]) -> HostRow {
    HostRow {
        name: name.to_string(),
        url: String::new(),
        healthy,
        last_seen: None,
        slots_free: free,
        slots_total: total,
        pool_data_percent: "0".to_string(),
        templates: templates.iter().map(|s| s.to_string()).collect(),
        orphans: 0,
        last_error: None,
    }
}

fn names(v: Vec<&HostRow>) -> Vec<&str> {
    v.iter().map(|h| h.name.as_str()).collect()
}

#[test]
fn least_loaded_host_with_the_template_first() {
    let hosts = vec![
        host("a", true, 2, 8, &["base"]),
        host("b", true, 6, 8, &["base", "debian"]),
        host("c", false, 8, 8, &["base"]),
        host("d", true, 0, 8, &["base"]),
    ];
    assert_eq!(
        names(candidates(&hosts, "base", None)),
        vec!["b", "a"],
        "unhealthy and full hosts are skipped"
    );
    assert_eq!(names(candidates(&hosts, "debian", None)), vec!["b"]);
    assert_eq!(names(candidates(&hosts, "base", Some("a"))), vec!["a"]);
    assert!(candidates(&hosts, "nope", None).is_empty());
    assert!(template_known(&hosts, "debian"));
    assert!(!template_known(&hosts, "nope"));
}

#[test]
fn equal_loads_go_by_name_and_shares_not_counts_are_compared() {
    let hosts = vec![
        host("z", true, 4, 8, &["t"]),
        host("a", true, 1, 2, &["t"]),
        host("m", true, 3, 4, &["t"]),
        host("odd", true, 5, 0, &["t"]),
    ];
    assert_eq!(names(candidates(&hosts, "t", None)), vec!["m", "a", "z", "odd"]);
}

fn ask(template: &str) -> Ask {
    Ask { template: Some(template.to_string()), host: None }
}

#[test]
fn a_create_needs_a_template_that_someone_can_take() {
    let hosts = vec![host("a", true, 1, 8, &["base"]), host("b", false, 8, 8, &["debian"])];
    let refused = |a: &Ask| {
        let e = place(a, &hosts).unwrap_err();
        (e.status, e.message)
    };
    assert_eq!(place(&ask("base"), &hosts).unwrap(), vec!["a"]);
    assert_eq!(refused(&Ask { template: None, host: None }), (400, "template is required".to_string()));
    assert_eq!(refused(&ask("")), (400, "template is required".to_string()));
    assert_eq!(refused(&ask("nope")), (404, "no host has template \"nope\"".to_string()));
    assert_eq!(
        refused(&ask("debian")),
        (409, "no healthy host with a free slot has template \"debian\"".to_string())
    );
    let pinned = Ask { template: Some("base".to_string()), host: Some("b".to_string()) };
    assert_eq!(refused(&pinned).0, 409);
}

/// A fleet whose hosts answer as they are told to.
struct Fleet {
    hosts: Vec<HostRow>,
    records: Vec<(String, String, FleetState)>,
    answers: Vec<(String, PlaceEvent)>,
    asked: Vec<String>,
    down: Vec<String>,
}

impl Fleet {
    fn new(hosts: Vec<HostRow>) -> Fleet {
        Fleet { hosts, records: Vec::new(), answers: Vec::new(), asked: Vec::new(), down: Vec::new() }
    }

    fn answer(&mut self, host: &str, status: u16, error: Option<&str>) {
        let ev = PlaceEvent::Answer { status, id: None, error: error.map(str::to_string) };
        self.answers.push((host.to_string(), ev));
    }

    fn create(&mut self, a: &Ask) -> Result<String, ApiError> {
        let names = place(a, &self.hosts)?;
        let mut p = Placing::begin("vm-1".to_string(), names);
        loop {
            let ev = match p.action() {
                PlaceAction::Insert { id, host } => {
                    self.records.push((id.clone(), host.clone(), FleetState::Creating));
                    PlaceEvent::Stored(Ok(()))
                }
                PlaceAction::SetHost { id, host } => {
                    self.records.iter_mut().find(|r| r.0 == *id).unwrap().1 = host.clone();
                    PlaceEvent::Stored(Ok(()))
                }
                PlaceAction::Create { id, host } => {
                    // Never asked without a record that names the host.
                    assert!(self.records.iter().any(|r| r.0 == *id && r.1 == *host));
                    self.asked.push(host.clone());
                    let at = self.answers.iter().position(|x| x.0 == *host);
                    match at {
                        Some(i) => self.answers.remove(i).1,
                        None => PlaceEvent::Answer { status: 200, id: None, error: None },
                    }
                }
                PlaceAction::SetState { id, state, .. } => {
                    self.records.iter_mut().find(|r| r.0 == *id).unwrap().2 = state;
                    PlaceEvent::Stored(Ok(()))
                }
                PlaceAction::TookSlot { host } => {
                    let h = self.hosts.iter_mut().find(|h| h.name == *host).unwrap();
                    h.slots_free = took_slot(h.slots_free);
                    PlaceEvent::Tried
                }
                PlaceAction::HostUnreachable { host, .. } => {
                    self.down.push(host.clone());
                    PlaceEvent::Tried
                }
                PlaceAction::Delete { id } => {
                    let id = id.clone();
                    self.records.retain(|r| r.0 != id);
                    PlaceEvent::Stored(Ok(()))
                }
                PlaceAction::Nothing => break,
            };
            p = p.step(ev);
        }
        match p {
            Placing::Done { result, recorded } => {
                assert_eq!(recorded, self.records.iter().any(|r| r.0 == "vm-1"));
                result.map(|r| r.host)
            }
            _ => unreachable!(),
        }
    }
}

fn two() -> Fleet {
    Fleet::new(vec![host("a", true, 8, 8, &["base"]), host("b", true, 8, 8, &["base", "debian"])])
}

#[test]
fn places_where_the_template_is_and_routes_by_id() {
    let mut f = two();
    assert_eq!(f.create(&ask("debian")).unwrap(), "b", "only b has debian");
    assert_eq!(f.records[0].2, FleetState::Placed);
    assert_eq!(f.hosts[1].slots_free, 7);
    let q = Some("path=/".to_string());
    assert_eq!(forward(&Some(row("x", "b", FleetState::Placed)), true, "x", "dir", &q).unwrap(), "/vms/x/dir?path=/");
    assert_eq!(forward(&None, true, "x", "dir", &None).unwrap_err().status, 404);
    assert_eq!(f.create(&ask("nope")).unwrap_err().status, 404);
}

#[test]
fn spreads_by_load_and_lets_the_host_enforce_capacity() {
    let mut f = two();
    let mut on = (0, 0);
    for _ in 0..16 {
        if f.create(&ask("base")).unwrap() == "a" {
            on.0 += 1;
        } else {
            on.1 += 1;
        }
        f.records.clear();
    }
    assert_eq!(on, (8, 8), "least loaded first keeps them level");
    let e = f.create(&ask("base")).unwrap_err();
    assert_eq!(e.status, 409);
    assert!(e.message.contains("free slot"), "{}", e.message);
    assert!(f.records.is_empty(), "no record for a create that failed everywhere");

    // A host that is full after all is passed over.
    let mut f = two();
    f.answer("a", 409, Some("no free slots remain"));
    assert_eq!(f.create(&ask("base")).unwrap(), "b");
    let mut f = two();
    f.answer("a", 409, Some("full"));
    f.answer("b", 409, None);
    let e = f.create(&ask("base")).unwrap_err();
    assert_eq!((e.status, e.message.as_str()), (409, "no host could take vm (b: conflict)"));
    assert_eq!(f.asked, ["a", "b"]);
    assert!(f.records.is_empty());
}

#[test]
fn a_create_the_host_rejects_leaves_no_record() {
    let mut f = two();
    f.answer("a", 400, Some("invalid rule: bogus"));
    let e = f.create(&ask("base")).unwrap_err();
    assert_eq!((e.status, e.message.as_str()), (400, "a: invalid rule: bogus"));
    assert_eq!(f.asked, ["a"]);
    assert!(f.records.is_empty());

    let mut f = two();
    f.answers.push(("a".to_string(), PlaceEvent::BadPolicy("bogus".to_string())));
    let e = f.create(&ask("base")).unwrap_err();
    assert_eq!((e.status, e.message.as_str()), (400, "bogus"));
    assert!(f.records.is_empty());
}

#[test]
fn a_lost_reply_never_becomes_a_second_vm() {
    let mut f = two();
    f.answers.push((
        "a".to_string(),
        PlaceEvent::Unanswered(CallError::Ambiguous("timed out".to_string())),
    ));
    let e = f.create(&ask("base")).unwrap_err();
    assert_eq!(e.status, 502);
    assert_eq!(
        e.message,
        "a: no reply (timed out); vm vm-1 will be reconciled, check GET /vms/vm-1"
    );
    assert_eq!(f.asked, ["a"]);
    assert_eq!(f.records[0].2, FleetState::Creating);

    // One that got through after all is ours.
    let mut f = two();
    f.answer("a", 409, Some("vm vm-1 already exists"));
    assert_eq!(f.create(&ask("base")).unwrap(), "a");
    assert_eq!(f.hosts[0].slots_free, 8);

    // One that was never sent can go elsewhere.
    let mut f = two();
    f.answers.push((
        "a".to_string(),
        PlaceEvent::Unanswered(CallError::Unreachable("refused".to_string())),
    ));
    assert_eq!(f.create(&ask("base")).unwrap(), "b");
    assert_eq!(f.down, ["a"]);
}

#[test]
fn store_failures_and_vanished_hosts_are_said() {
    let begin = || Placing::begin("i".to_string(), vec!["a".to_string()]);
    let broken = || PlaceEvent::Stored(Err("disk".to_string()));
    match begin().step(broken()) {
        Placing::Done { result: Err(e), recorded: false } => {
            assert_eq!((e.status, e.message.as_str()), (500, "store: disk"))
        }
        p => panic!("{p:?}"),
    }
    let asking = begin().step(PlaceEvent::Stored(Ok(()))).step(PlaceEvent::Stored(Ok(())));
    match asking.step(PlaceEvent::Vanished) {
        Placing::Done { result: Err(e), recorded: true } => {
            assert_eq!((e.status, e.message.as_str()), (500, "host vanished"))
        }
        p => panic!("{p:?}"),
    }
}

fn row(id: &str, host: &str, state: FleetState) -> VmRow {
    VmRow {
        id: id.to_string(),
        host: host.to_string(),
        template: "base".to_string(),
        fleet_state: state,
        host_state: Some("running".to_string()),
        created_at: 1000,
        updated_at: 1000,
        last_error: None,
    }
}

fn claims(expires: u64) -> PolicyClaims {
    PolicyClaims {
        host: "b".to_string(),
        vm: "x".to_string(),
        policy_gen: 1,
        egress: "deny".to_string(),
        principal: None,
        rules: vec![],
        expires,
    }
}

fn reported(id: &str) -> HostVm {
    HostVm { id: Some(id.to_string()), claims: Some(claims(100_000)) }
}

fn pass(vms: Vec<HostVm>, rows: Vec<VmRow>) -> (Vec<Verdict>, u32) {
    let o = Observation { slots_total: Some(8), slots_used: Some(3), vms };
    match sync_host(&Ok(o), &Some(rows), 1010, 60, 86_400) {
        Pass::Seen { slots_free: 5, slots_total: 8, settled: Some(s) } => (s.verdicts, s.orphans),
        p => panic!("{p:?}"),
    }
}

#[test]
fn delete_removes_from_host_and_fleet() {
    let placed = Some(row("x", "a", FleetState::Placed));
    assert_eq!(delete_one(&placed, true).unwrap(), Deleting::AskHost);
    assert!(matches!(host_deleted("a", Ok(204)), Ok(Deleted::Gone)));
    assert!(matches!(host_deleted("a", Ok(404)), Ok(Deleted::Gone)));
    assert_eq!(delete_one(&None, true).unwrap_err().status, 404);
    let e = host_deleted("a", Ok(500)).unwrap_err();
    assert_eq!((e.status, e.message.as_str()), (500, "a: refused the delete"));
    assert_eq!(delete_one(&placed, false).unwrap(), Deleting::Forget);
}

#[test]
fn sync_notices_orphans_and_lost_vms() {
    // Something creates a VM behind the fleet's back.
    let (v, orphans) = pass(vec![reported("x"), reported("stray"), HostVm { id: None, claims: None }], vec![row("x", "a", FleetState::Placed)]);
    assert_eq!(orphans, 1);
    assert!(matches!(v[0], Verdict::Report { at: 0, .. }));
    // And something deletes the fleet's VM behind its back.
    let (v, orphans) = pass(vec![reported("stray")], vec![row("x", "a", FleetState::Placed)]);
    assert_eq!((v[0], orphans), (Verdict::Lose, 1));
    let (state, error) = recorded(v[0]).unwrap();
    assert_eq!((state, error), (FleetState::Lost, Some("host no longer has it")));
    let lost = Some(row("x", "a", FleetState::Lost));
    let e = forward(&lost, true, "x", "exec", &None).unwrap_err();
    assert_eq!((e.status, e.message.as_str()), (409, "vm is lost on a"));
    assert_eq!(delete_one(&lost, true).unwrap(), Deleting::Forget, "the record can be cleared");
    // The same VM twice is one.
    assert_eq!(pass(vec![reported("x"), reported("x")], vec![row("x", "a", FleetState::Placed)]).1, 0);
}

#[test]
fn a_host_going_down_is_skipped_and_its_vms_come_back_with_it() {
    let rows = vec![
        row("x", "b", FleetState::Placed),
        row("y", "b", FleetState::Deleting),
        row("z", "b", FleetState::Creating),
    ];
    let down = Err(CallError::Unreachable("refused".to_string()));
    match sync_host(&down, &Some(rows), 1010, 60, 86_400) {
        Pass::Unreachable { error, marked } => {
            assert_eq!(error, "unreachable: refused");
            assert_eq!(marked, vec![0, 2], "a delete that was asked for stays one");
        }
        p => panic!("{p:?}"),
    }
    // A call to it meanwhile is refused; a delete is deferred.
    let gone = Some(row("x", "b", FleetState::Unreachable));
    assert_eq!(forward(&gone, true, "x", "exec", &None).unwrap_err().status, 409);
    match host_deleted("b", Err(CallError::Unreachable("refused".to_string()))).unwrap() {
        Deleted::Deferred { error } => assert_eq!(error, "unreachable: refused"),
        d => panic!("{d:?}"),
    }
    // Back up: the VM is placed, and the deferred delete is asked for again.
    let (v, _) = pass(
        vec![reported("x"), reported("y")],
        vec![row("x", "b", FleetState::Unreachable), row("y", "b", FleetState::Deleting)],
    );
    assert_eq!(recorded(v[0]).unwrap().0, FleetState::Placed);
    assert_eq!(v[1], Verdict::RetryDelete);
    assert!(delete_confirmed(&Ok(204)) && delete_confirmed(&Ok(404)));
    assert!(!delete_confirmed(&Ok(500)) && !delete_confirmed(&Err(CallError::Ambiguous(String::new()))));
    let (v, _) = pass(vec![], vec![row("y", "b", FleetState::Deleting)]);
    assert_eq!(v[0], Verdict::Forget);
}

#[test]
fn a_create_that_never_lands_is_written_off_after_the_grace_period() {
    let r = row("deadbeef-dead-beef-dead-beefdeadbeef", "a", FleetState::Creating);
    assert_eq!(settle(&r, &vec![], 1001, 2, 1), Verdict::Leave, "inside the grace period it is left alone");
    assert_eq!(settle(&r, &vec![], 1002, 2, 1), Verdict::WriteOff);
    assert_eq!(recorded(Verdict::WriteOff).unwrap(), (FleetState::Failed, Some("host never reported it")));
    assert_eq!(recorded(Verdict::Leave), None);
    let vms = vec![row("v", "a", FleetState::Failed)];
    assert_eq!(stats(&vec![], &vms).by_state.failed, 1);
}

#[test]
fn policies_are_signed_for_the_host_and_re_signed_before_they_expire() {
    let id = VmId::from_u128(7);
    let policy = |policy_gen: u64| Described {
        vm: id,
        policy_gen,
        egress: EgressMode::Proxy,
        principal: Some("alice".to_string()),
        effective: vec!["allow https://api.github.com/**".to_string()],
    };
    let c = sign_policy("b", policy(1), 1000, 300);
    assert_eq!((c.host.as_str(), c.policy_gen, c.egress.as_str(), c.expires), ("b", 1, "proxy", 1300));
    assert_eq!(c.vm, id.to_string());
    assert_eq!(c.principal.as_deref(), Some("alice"));
    // The host files it under the policy it describes, and under no other.
    assert!(check_signed(&c, &policy(1)).is_ok());
    assert!(check_signed(&c, &policy(2)).is_err());
    let rules = || vec!["allow https://api.github.com/**".to_string()];
    let first = at_creation(id, "proxy", Some("alice".to_string()), rules());
    assert!(check_signed(&c, &first).is_ok());
    assert_eq!(at_creation(id, "", None, vec![]).egress, EgressMode::Deny);
    let outcome = |policy_gen: u64| Outcome {
        id,
        policy_gen,
        principal: Some("alice".to_string()),
        allow: vec![],
        rules: vec![],
        egress: EgressMode::Proxy,
        signed: None,
        egress_changed: false,
        unchanged: false,
    };
    let next = after_change(outcome(1), rules()).unwrap();
    assert!(check_signed(&sign_policy("b", next, 1000, 300), &policy(2)).is_ok());
    assert!(after_change(outcome(u64::MAX), rules()).is_none());
    // A third of its life left: due, and renewed at the same generation.
    assert!(!renewal_due(c.expires, 1199, 300));
    assert!(renewal_due(c.expires, 1200, 300));
    let r = resign(c, 1200, 300);
    assert_eq!((r.expires, r.policy_gen), (1500, 1));
    assert!(check_signed(&r, &policy(1)).is_ok());
    // The sync loop renews its own, and blesses nothing else.
    let seen = |claims: Option<PolicyClaims>| {
        let vms = vec![HostVm { id: Some("x".to_string()), claims }];
        match settle(&row("x", "b", FleetState::Placed), &vms, 1200, 60, 300) {
            Verdict::Report { renewal, .. } => renewal,
            v => panic!("{v:?}"),
        }
    };
    assert_eq!(seen(Some(claims(1300))), Renewal::Due);
    assert_eq!(seen(Some(claims(1301))), Renewal::Fresh);
    assert_eq!(seen(None), Renewal::Unsigned);
}

#[test]
fn a_pass_without_records_or_numbers() {
    let o = Observation { slots_total: None, slots_used: Some(9), vms: vec![] };
    match sync_host(&Ok(o), &None, 0, 0, 0) {
        Pass::Seen { slots_free: 0, slots_total: 0, settled: None } => {}
        p => panic!("{p:?}"),
    }
    let o = Observation { slots_total: Some(0x1_0000_0007), slots_used: Some(2), vms: vec![] };
    match sync_host(&Ok(o), &None, 0, 0, 0) {
        Pass::Seen { slots_free: 5, slots_total: 7, settled: None } => {}
        p => panic!("{p:?}"),
    }
}

#[test]
fn records_describe_themselves() {
    let mut r = row("x", "a", FleetState::Lost);
    r.last_error = Some("gone".to_string());
    let v = describe(&r);
    assert_eq!((v.id.as_str(), v.template.as_str(), v.state.unwrap().as_str()), ("x", "base", "running"));
    let a = annotations(&r);
    assert_eq!((a.host.as_str(), a.fleet_state, a.fleet_error.unwrap().as_str()), ("a", "lost", "gone"));
    assert!(!ask_host(&r));
    assert!(ask_host(&row("x", "a", FleetState::Creating)));
    let e = forward(&Some(row("x", "a", FleetState::Placed)), false, "x", "y", &None).unwrap_err();
    assert_eq!(e.message, "host a is no longer configured");
    let e = bad_gateway("a", &CallError::Ambiguous("cut".to_string()));
    assert_eq!((e.status, e.message.as_str()), (502, "a: no reply: cut"));
}

#[test]
fn the_fleet_in_numbers() {
    let mut hosts = vec![host("a", true, 2, 8, &[]), host("b", false, 6, 8, &[])];
    hosts[0].orphans = 1;
    let vms = vec![row("x", "a", FleetState::Placed), row("y", "a", FleetState::Placed), row("z", "b", FleetState::Lost)];
    let s = stats(&hosts, &vms);
    assert_eq!((s.hosts, s.hosts_healthy, s.slots_free, s.slots_total), (2, 1, 2, 16));
    assert_eq!((s.vms, s.orphans, s.by_state.placed, s.by_state.lost, s.by_state.failed), (3, 1, 2, 1, 0));
}

#[test]
fn states_slots_and_times() {
    for s in [
        FleetState::Creating,
        FleetState::Placed,
        FleetState::Unreachable,
        FleetState::Lost,
        FleetState::Deleting,
        FleetState::Failed,
    ] {
        assert_eq!(FleetState::parse(s.as_str()), Some(s));
    }
    assert_eq!(FleetState::parse("what"), None);
    assert_eq!((took_slot(1), took_slot(0)), (0, 0));
    assert_eq!((freed_slot(1, 8), freed_slot(8, 8)), (2, 8));
    assert_eq!(host_forgotten(FleetState::Placed), FleetState::Unreachable);
    assert_eq!(host_forgotten(FleetState::Failed), FleetState::Failed);
    let v = |s: &[&str]| s.iter().map(|x| x.to_string()).collect::<Vec<_>>();
    assert_eq!(retain_hosts(&v(&["a", "b", "c"]), &v(&["b"])), v(&["a", "c"]));
    assert_eq!(seconds(Some(5)), 5);
    assert_eq!(seconds(None), 0);
    assert_eq!(seconds(Some(u64::MAX)), -1);
    assert!(now() > 1_577_836_800);
}

#[test]
fn configuration_is_checked() {
    let hosts = || vec![HostConfig { name: "a".to_string(), url: "https://a:7070/".to_string() }];
    assert_eq!(Config::dev(vec![]).load().unwrap_err(), "no [[hosts]] configured");
    assert!(Config::dev(hosts()).load().is_ok());
    let secure = |tls: Option<TlsFiles>| Config { insecure: false, hosts_tls: tls, ..Config::dev(hosts()) }.load();
    assert_eq!(secure(None).unwrap_err(), "[hosts_tls] is required unless insecure = true");
    let files = TlsFiles { ca: "a".to_string(), cert: "b".to_string(), key: "c".to_string() };
    assert!(secure(Some(files)).is_ok());
    assert_eq!((default_listen().as_str(), default_db().as_str()), ("0.0.0.0:7080", "/var/lib/iso-fleet/fleet.db"));
    assert_eq!((default_pki().as_str(), default_sync(), default_grace()), ("/var/lib/iso-fleet/pki", 3000, 60));
    assert_eq!(default_policy_ttl(), 86_400);
    let a = HostAddress::new(&hosts()[0]);
    assert_eq!((a.base(), a.url("/stats"), a.vm_url("x")), ("https://a:7070", "https://a:7070/stats".to_string(), "https://a:7070/vms/x".to_string()));
    assert!(accept("/stats", 200, "200 OK").is_ok());
    assert_eq!(accept("/stats", 500, "500 Oops").unwrap_err().to_string(), "no reply: /stats: http 500 Oops");
    assert!(matches!(CallError::classify(true, "m".to_string()), CallError::Unreachable(_)));
    assert!(matches!(CallError::classify(false, "m".to_string()), CallError::Ambiguous(_)));
    let v = |s: &[&str]| s.iter().map(|x| x.to_string()).collect::<Vec<_>>();
    let bind = |ip: &str, unspecified: bool| Bind { ip: ip.to_string(), unspecified };
    assert_eq!(server_sans(bind("10.0.0.1", false), v(&["x"])), v(&["localhost", "127.0.0.1", "10.0.0.1", "x"]));
    assert_eq!(server_sans(bind("::", true), v(&["x"])), v(&["localhost", "127.0.0.1", "x"]));
}
