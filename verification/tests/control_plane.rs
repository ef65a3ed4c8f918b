//! The lifecycle of VMs on one host, driven over a host that lives in memory.

use std::collections::HashMap;

use iso::common::error::Error as ComponentError;
use iso::common::identify::{PolicyClaims, SignedPolicy};
use iso::common::ids::{SlotId, VmId};
use iso::common::network::{EgressMode, MacAddr, NetworkFixture, PortForward, Protocol};
use iso::common::runtime::{SnapshotRef, VmStatus};
use iso::common::storage::{PoolStats, StorageHandle};
use iso::control_plane::clock::{after_attempt, may_try, Attempt, Next};
use iso::control_plane::config::Config;
use iso::control_plane::edit::{Edit, EditAction, EditEvent, Edited, PolicyChange};
use iso::control_plane::error::Error;
use iso::control_plane::lifecycle::{Action, Event, FileState, Life, Why};
use iso::control_plane::place::{
    channel_port, exited_at_recovery, exited_at_tick, find_by_slot, readopt,
};
use iso::control_plane::port::PortAllocator;
use iso::control_plane::slot::SlotAllocator;
use iso::control_plane::stats::{snapshot_bytes, snapshot_files, stats, OnDisk};
use iso::control_plane::types::{
    forward_from_blob, BlobForward, CreateVm, Lifecycle, RestartPolicy, TemplateDef, VmRecord,
    VmState,
};
use iso::guest_proto::{ClientError, ClockResult};

fn copy_record(r: &VmRecord) -> VmRecord {
    VmRecord {
        id: r.id,
        slot: r.slot,
        template: r.template.clone(),
        egress: r.egress,
        ingress: r.ingress.clone(),
        labels: r.labels.clone(),
        lifecycle: r.lifecycle,
        restart: r.restart,
        vcpus: r.vcpus,
        mem_mib: r.mem_mib,
        state: r.state,
        rootfs_device: r.rootfs_device.clone(),
        tap: r.tap.clone(),
        principal: r.principal.clone(),
        allow: r.allow.clone(),
        rules: r.rules.clone(),
        policy_gen: r.policy_gen,
        signed: r.signed.as_ref().map(|s| SignedPolicy { token: s.token.clone() }),
        snapshot: r.snapshot.clone(),
    }
}

/// A host without a disk, a network or a hypervisor.
struct Host {
    slots: SlotAllocator,
    ports: PortAllocator,
    template: Option<bool>,
    vms: Vec<VmRecord>,
    running: HashMap<u128, VmStatus>,
    log: Vec<String>,
    full: bool,
    fail_start: bool,
    hang_stop: bool,
    claims: Option<PolicyClaims>,
    next: u128,
}

impl Host {
    fn new(capacity: usize) -> Host {
        Host {
            slots: SlotAllocator::new(capacity),
            ports: PortAllocator::new(20000, 20010),
            template: None,
            vms: Vec::new(),
            running: HashMap::new(),
            log: Vec::new(),
            full: false,
            fail_start: false,
            hang_stop: false,
            claims: None,
            next: 1,
        }
    }

    /// A host with the template `base`, warm or not.
    fn with(warm: bool) -> Host {
        let mut h = Host::new(8);
        h.template = Some(warm);
        h
    }

    fn has(&self, s: &str) -> bool {
        self.log.iter().any(|e| e == s)
    }

    fn pos(&self, s: &str) -> usize {
        self.log.iter().position(|e| e == s).unwrap()
    }

    fn get(&self, id: VmId) -> Option<VmRecord> {
        self.vms.iter().find(|r| r.id == id).map(copy_record)
    }

    fn template(&self, name: &str) -> Option<TemplateDef> {
        let warm = self.template?;
        if name != "base" {
            return None;
        }
        Some(TemplateDef {
            name: "base".to_string(),
            rootfs_template: "base".to_string(),
            snapshot: if warm {
                Some(SnapshotRef { mem_file: "/snap/mem".to_string(), vmstate: "/snap/state".to_string() })
            } else {
                None
            },
            vcpus: 1,
            mem_mib: 512,
            kernel: "/k".to_string(),
            boot_args: String::new(),
        })
    }

    fn set(&mut self, id: VmId, s: VmStatus) {
        self.running.insert(id.as_u128(), s);
    }

    fn perform(&mut self, life: &Life) -> Event {
        match life.action() {
            Action::CompileRules { rules, .. } => {
                if rules.iter().any(|r| r == "bogus") {
                    Event::Rules(Err("bogus".to_string()))
                } else {
                    Event::Rules(Ok(rules.clone()))
                }
            }
            Action::GetTemplate(name) => Event::Template(self.template(name)),
            Action::PoolStats => Event::Pool(PoolStats {
                data_full: self.full,
                metadata_full: self.full,
                data_percent: "95.0".to_string(),
                metadata_percent: "95.0".to_string(),
            }),
            Action::ReadClaims(_) => match self.claims.take() {
                Some(c) => Event::Claims(Ok(c)),
                None => Event::Claims(Err("unreadable".to_string())),
            },
            Action::GetVm(id) => Event::Vm(self.get(id)),
            Action::InsertVm(rec) => {
                let mut r = copy_record(rec);
                r.ingress = Vec::new();
                self.vms.push(r);
                Event::Done
            }
            Action::AddForward(id, f) => {
                self.vms.iter_mut().find(|r| r.id == id).unwrap().ingress.push(f);
                Event::Done
            }
            Action::Provision { vm, template } => {
                self.log.push(format!("storage.provision:{template}"));
                Event::Volume(StorageHandle {
                    vm,
                    device_path: format!("/dev/iso/{}", vm.to_string()),
                    backing_device: Some(format!("/dev/iso/tpl_{template}")),
                })
            }
            Action::ApplyNetwork { slot, .. } => {
                self.log.push(format!("net.apply:{}", slot.get()));
                Event::Fixture(NetworkFixture {
                    slot,
                    netns: format!("vm{:04x}", slot.get()),
                    tap: "tap0".to_string(),
                    veth_host: format!("vm{:04x}", slot.get()),
                    veth_netns: format!("vp{:04x}", slot.get()),
                    vh_ip: [172, 21, 0, 0],
                    vp_ip: [172, 21, 0, 1],
                    mac: MacAddr([2, 0, 0, 0, 0, 1]),
                })
            }
            Action::Create(spec) => {
                self.log.push(format!("rt.create:resume={}", spec.resume_from.is_some()));
                self.set(spec.vm, VmStatus::Created);
                Event::Done
            }
            Action::Start(id) => {
                self.log.push("rt.start".to_string());
                if self.fail_start {
                    return Event::Failed(Error::Component(ComponentError::Backend("boom".to_string())));
                }
                self.set(id, VmStatus::Running);
                Event::Done
            }
            Action::SyncClock(_) => {
                self.log.push("agent.set_clock".to_string());
                Event::Done
            }
            Action::Stop(id) => {
                self.log.push("rt.stop".to_string());
                if !self.hang_stop {
                    self.set(id, VmStatus::Stopped);
                }
                Event::Done
            }
            Action::Halt(id) => {
                self.log.push("rt.halt".to_string());
                self.set(id, VmStatus::Stopped);
                Event::Done
            }
            Action::Destroy(id) => {
                self.log.push("rt.destroy".to_string());
                self.running.remove(&id.as_u128());
                Event::Done
            }
            Action::Release(id) => {
                self.log.push("rt.release".to_string());
                self.set(id, VmStatus::Stopped);
                Event::Done
            }
            Action::Suspend(id) => {
                self.log.push("rt.suspend".to_string());
                self.set(id, VmStatus::Suspended);
                Event::Snapshot(SnapshotRef {
                    mem_file: format!("/state/{}/mem", id.to_string()),
                    vmstate: format!("/state/{}/vmstate", id.to_string()),
                })
            }
            Action::WaitExit(id) => {
                let s = self.running.get(&id.as_u128()).copied().unwrap_or(VmStatus::Absent);
                Event::Exited(iso::control_plane::place::exit_seen(s))
            }
            Action::CheckFile(_) => Event::File(FileState::Gone),
            Action::TeardownNetwork(s) => {
                self.log.push(format!("net.teardown:{}", s.get()));
                Event::Done
            }
            Action::TeardownStorage(_) => {
                self.log.push("storage.teardown".to_string());
                Event::Done
            }
            Action::Record(p) => {
                let r = self.vms.iter_mut().find(|r| r.id == p.id).unwrap();
                r.slot = p.slot;
                r.state = p.state;
                r.rootfs_device = p.rootfs_device;
                r.tap = p.tap;
                r.snapshot = p.snapshot;
                Event::Done
            }
            Action::Delete(id) => {
                self.vms.retain(|r| r.id != id);
                Event::Done
            }
            Action::Nothing => panic!("asked for nothing"),
        }
    }

    fn run(&mut self, life: Life) -> Result<VmId, Error> {
        let mut life = life;
        while !life.is_done() {
            let ev = self.perform(&life);
            life = life.step(ev, Some(3), &mut self.slots, &mut self.ports);
        }
        match life {
            Life::Done { result, .. } => result,
            _ => unreachable!(),
        }
    }

    fn create(&mut self, req: CreateVm) -> Result<VmId, Error> {
        let id = VmId::from_u128(self.next);
        self.next += 1;
        self.run(Life::create(req, id))
    }

    fn op(&mut self, id: VmId, why: Why) -> Result<VmId, Error> {
        self.run(Life::begin(id, why))
    }

    /// What the supervisor does, once.
    fn tick(&mut self) {
        let all: Vec<(VmId, VmState)> = self.vms.iter().map(|r| (r.id, r.state)).collect();
        for (id, state) in all {
            let s = self.running.get(&id.as_u128()).copied().unwrap_or(VmStatus::Absent);
            if exited_at_tick(state, s) {
                self.op(id, Why::Exit { failed: true }).unwrap();
            }
        }
    }

    fn perform_edit(&mut self, e: &Edit) -> EditEvent {
        match e.action() {
            EditAction::GetVm(id) => EditEvent::Vm(self.get(id)),
            EditAction::CompileRules { rules, .. } => {
                if rules.iter().any(|r| r == "bogus") {
                    EditEvent::Rules(Err("bogus".to_string()))
                } else {
                    EditEvent::Rules(Ok(rules.clone()))
                }
            }
            EditAction::ReadClaims(_) => match self.claims.take() {
                Some(c) => EditEvent::Claims(Ok(c)),
                None => EditEvent::Claims(Err("unreadable".to_string())),
            },
            EditAction::RefreshSigned(id, s) => {
                let r = self.vms.iter_mut().find(|r| r.id == id).unwrap();
                r.signed = Some(SignedPolicy { token: s.token.clone() });
                EditEvent::Done
            }
            EditAction::UpdatePolicy(o) => {
                let r = self.vms.iter_mut().find(|r| r.id == o.id).unwrap();
                r.principal = o.principal.clone();
                r.allow = o.allow.clone();
                r.rules = o.rules.clone();
                r.egress = o.egress;
                r.signed = o.signed.as_ref().map(|s| SignedPolicy { token: s.token.clone() });
                r.policy_gen += 1;
                EditEvent::Stored(r.policy_gen)
            }
            EditAction::AddForward(id, f) => {
                self.vms.iter_mut().find(|r| r.id == id).unwrap().ingress.push(f);
                EditEvent::Done
            }
            EditAction::RemoveForward(id, port, proto) => match self.vms.iter_mut().find(|r| r.id == id) {
                Some(r) => {
                    let n = r.ingress.len();
                    r.ingress.retain(|f| !(f.host_port == port && f.proto == proto));
                    EditEvent::Removed(r.ingress.len() < n)
                }
                None => EditEvent::Removed(false),
            },
            EditAction::ReapplyNetwork { .. } => {
                self.log.push("net.reapply".to_string());
                EditEvent::Done
            }
            EditAction::Nothing => panic!("asked for nothing"),
        }
    }

    fn edit(&mut self, e: Edit) -> Result<Edited, Error> {
        let mut e = e;
        loop {
            e = match e {
                Edit::Done { result } => return result,
                e => {
                    let ev = self.perform_edit(&e);
                    e.step(ev, &mut self.ports)
                }
            };
        }
    }

    fn add(&mut self, id: VmId, port: u16) -> Result<PortForward, Error> {
        match self.edit(Edit::add_forward(id, port, Protocol::Tcp))? {
            Edited::Forward(f) => Ok(f),
            _ => unreachable!(),
        }
    }
}

fn req(lifecycle: Lifecycle, restart: RestartPolicy) -> CreateVm {
    CreateVm { lifecycle, restart, ..CreateVm::new("base") }
}

fn change() -> PolicyChange {
    PolicyChange { principal: None, allow: None, rules: None, egress: None, signed: None }
}

#[test]
fn create_orders_subsystems_and_resumes() {
    let mut h = Host::with(true);
    let id = h.create(req(Lifecycle::Ephemeral, RestartPolicy::Never)).unwrap();
    assert!(h.pos("storage.provision:base") < h.pos("net.apply:0"));
    assert!(h.pos("net.apply:0") < h.pos("rt.create:resume=true"));
    assert!(h.pos("rt.create:resume=true") < h.pos("rt.start"));
    let rec = h.get(id).unwrap();
    assert_eq!(rec.state, VmState::Running);
    assert_eq!(rec.slot.unwrap().get(), 0);
}

#[test]
fn a_resume_tells_the_guest_the_time_and_a_fresh_boot_does_not() {
    let mut h = Host::with(true);
    let id = h.create(req(Lifecycle::Ephemeral, RestartPolicy::Never)).unwrap();
    assert!(h.pos("rt.start") < h.pos("agent.set_clock"), "told after the VMM resumed");

    // Suspend and start resumes in place: told again.
    h.op(id, Why::Suspend).unwrap();
    h.op(id, Why::Start).unwrap();
    let told = h.log.iter().filter(|x| *x == "agent.set_clock").count();
    assert_eq!(told, 2);

    // A fresh boot reads the host's clock on its own.
    let mut h = Host::with(false);
    h.create(req(Lifecycle::Ephemeral, RestartPolicy::Never)).unwrap();
    assert!(!h.has("agent.set_clock"));
}

#[test]
fn create_rolls_back_and_frees_slot_on_failure() {
    let mut h = Host::with(true);
    h.fail_start = true;
    let err = h.create(req(Lifecycle::Ephemeral, RestartPolicy::Never)).unwrap_err();
    assert!(matches!(err, Error::Component(_)));
    assert!(h.has("net.teardown:0"));
    assert!(h.has("storage.teardown"));
    assert!(h.vms.is_empty());
    assert_eq!(h.slots.in_use(), 0);
    assert_eq!(h.ports.in_use(), 0);
}

#[test]
fn custom_cpu_mem_forces_fresh_boot() {
    let mut h = Host::with(true);
    h.create(CreateVm { vcpus: Some(4), ..CreateVm::new("base") }).unwrap();
    assert!(h.has("rt.create:resume=false"));
}

#[test]
fn stop_ephemeral_tears_down_everything() {
    let mut h = Host::with(true);
    let id = h.create(req(Lifecycle::Ephemeral, RestartPolicy::Never)).unwrap();
    h.op(id, Why::Stop).unwrap();
    assert!(h.get(id).is_none());
    assert_eq!(h.slots.in_use(), 0);
}

#[test]
fn stop_durable_keeps_storage_frees_slot() {
    let mut h = Host::with(true);
    let id = h.create(req(Lifecycle::Durable, RestartPolicy::Never)).unwrap();
    h.op(id, Why::Stop).unwrap();
    let rec = h.get(id).unwrap();
    assert_eq!(rec.state, VmState::Stopped);
    assert!(rec.slot.is_none());
    assert!(!h.has("storage.teardown"), "durable keeps storage");
    assert_eq!(h.slots.in_use(), 0);
}

#[test]
fn suspend_then_start_resumes_in_place() {
    let mut h = Host::with(true);
    let id = h.create(req(Lifecycle::Durable, RestartPolicy::Never)).unwrap();
    h.op(id, Why::Suspend).unwrap();
    assert_eq!(h.get(id).unwrap().state, VmState::Suspended);
    h.op(id, Why::Start).unwrap();
    assert_eq!(h.get(id).unwrap().state, VmState::Running);
    assert!(h.has("rt.suspend"));
}

#[test]
fn suspension_retirement_requires_clean_shutdown() {
    let mut h = Host::with(true);
    let id = h.create(req(Lifecycle::Durable, RestartPolicy::Never)).unwrap();
    assert!(h.op(id, Why::Retire).is_err());
    h.op(id, Why::Suspend).unwrap();
    h.hang_stop = true;
    assert!(h.op(id, Why::Retire).is_err());
    assert!(!h.has("rt.halt"));
    assert!(!h.has("rt.destroy"));
    assert!(h.get(id).unwrap().snapshot.is_some());
    h.hang_stop = false;
    h.op(id, Why::Suspend).unwrap();
    h.op(id, Why::Retire).unwrap();
    let rec = h.get(id).unwrap();
    assert_eq!(rec.state, VmState::Stopped);
    assert!(rec.snapshot.is_none());
    assert!(rec.slot.is_none());
    assert!(!h.has("storage.teardown"));
}

#[test]
fn explicit_termination_retains_disk_and_discards_execution_state() {
    let mut h = Host::with(true);
    let id = h.create(req(Lifecycle::Durable, RestartPolicy::Always)).unwrap();
    h.op(id, Why::Suspend).unwrap();
    h.op(id, Why::Terminate).unwrap();
    h.op(id, Why::Terminate).unwrap();
    let rec = h.get(id).unwrap();
    assert_eq!(rec.state, VmState::Stopped);
    assert!(rec.slot.is_none());
    assert!(rec.snapshot.is_none());
    assert!(rec.rootfs_device.is_some());
    assert!(h.has("rt.destroy"));
    assert!(!h.has("storage.teardown"));
    h.tick();
    assert_eq!(h.get(id).unwrap().state, VmState::Stopped);
    h.op(id, Why::Start).unwrap();
    assert_eq!(h.get(id).unwrap().state, VmState::Running);
}

#[test]
fn start_stopped_durable_replaces_and_fresh_boots() {
    let mut h = Host::with(true);
    let id = h.create(req(Lifecycle::Durable, RestartPolicy::Never)).unwrap();
    h.op(id, Why::Stop).unwrap();
    h.op(id, Why::Start).unwrap();
    let rec = h.get(id).unwrap();
    assert_eq!(rec.state, VmState::Running);
    assert!(rec.slot.is_some());
    assert!(h.has("rt.create:resume=false"));
}

#[test]
fn suspended_then_stopped_durable_resumes_its_own_snapshot() {
    let mut h = Host::with(true);
    let id = h.create(req(Lifecycle::Durable, RestartPolicy::Never)).unwrap();
    h.op(id, Why::Suspend).unwrap();
    let suspended = h.get(id).unwrap();
    assert_eq!(suspended.state, VmState::Suspended);
    let own = suspended.snapshot.expect("suspend records where it wrote");

    h.op(id, Why::Stop).unwrap();
    assert!(h.has("rt.release"));
    let kept = h.get(id).unwrap().snapshot.unwrap();
    assert_eq!((kept.mem_file, kept.vmstate), (own.mem_file, own.vmstate));

    h.log.clear();
    h.op(id, Why::Start).unwrap();
    assert!(h.has("rt.create:resume=true"));
    assert_eq!(h.get(id).unwrap().state, VmState::Running);
}

#[test]
fn handle_exit_restarts_when_policy_always() {
    let mut h = Host::with(true);
    let id = h.create(req(Lifecycle::Durable, RestartPolicy::Always)).unwrap();
    h.op(id, Why::Exit { failed: false }).unwrap();
    assert_eq!(h.get(id).unwrap().state, VmState::Running);
}

#[test]
fn handle_exit_finalizes_when_no_restart() {
    let mut h = Host::with(true);
    let id = h.create(req(Lifecycle::Ephemeral, RestartPolicy::Never)).unwrap();
    h.op(id, Why::Exit { failed: true }).unwrap();
    assert!(h.get(id).is_none());
}

#[test]
fn pool_full_refuses_provision() {
    let mut h = Host::with(true);
    h.full = true;
    let err = h.create(CreateVm::new("base")).unwrap_err();
    assert!(matches!(err, Error::PoolFull { .. }));
    assert_eq!(err.to_string(), "backing pool too full (data 95.0%, metadata 95.0%)");
    assert_eq!(h.slots.in_use(), 0);
}

#[test]
fn allocates_and_reports_forward_ports() {
    let mut h = Host::with(true);
    let r = CreateVm {
        ingress: vec![PortForward { host_port: 0, vm_port: 22, proto: Protocol::Tcp }],
        ..req(Lifecycle::Ephemeral, RestartPolicy::Never)
    };
    let id = h.create(r).unwrap();
    let rec = h.get(id).unwrap();
    assert_eq!(rec.ingress.len(), 1);
    let f = rec.ingress[0];
    assert_eq!(f.vm_port, 22);
    assert!((20000..20010).contains(&f.host_port), "allocated host port reported");
    assert_eq!(h.ports.in_use(), 1);

    // freed on destroy
    h.op(id, Why::Destroy).unwrap();
    assert_eq!(h.ports.in_use(), 0);
}

#[test]
fn unknown_template_errors() {
    let mut h = Host::new(8);
    let err = h.create(CreateVm::new("ghost")).unwrap_err();
    assert!(matches!(err, Error::UnknownTemplate(_)));
    assert_eq!(err.to_string(), "unknown template 'ghost'");
}

#[test]
fn supervisor_finalizes_crashed_ephemeral() {
    let mut h = Host::with(true);
    let id = h.create(req(Lifecycle::Ephemeral, RestartPolicy::Never)).unwrap();
    h.set(id, VmStatus::Stopped);
    h.tick();
    assert!(h.get(id).is_none(), "crashed ephemeral is reaped");
}

#[test]
fn supervisor_restarts_when_policy_always() {
    let mut h = Host::with(true);
    let id = h.create(req(Lifecycle::Durable, RestartPolicy::Always)).unwrap();
    h.set(id, VmStatus::Stopped);
    h.tick();
    assert_eq!(h.get(id).unwrap().state, VmState::Running);
}

#[test]
fn slots_exhaust() {
    let mut h = Host::new(1);
    h.template = Some(true);
    h.create(CreateVm::new("base")).unwrap();
    let err = h.create(CreateVm::new("base")).unwrap_err();
    assert!(matches!(err, Error::SlotsExhausted));
    assert_eq!(err.to_string(), "no free slots remain");
}

#[test]
fn add_then_remove_forward_roundtrips() {
    let mut h = Host::with(true);
    let id = h.create(CreateVm::new("base")).unwrap();
    let fwd = h.add(id, 8080).unwrap();
    assert_eq!(fwd.vm_port, 8080);
    assert!((20000..20010).contains(&fwd.host_port));
    assert_eq!(h.get(id).unwrap().ingress, vec![fwd]);

    h.edit(Edit::remove_forward(id, fwd.host_port, Protocol::Tcp)).unwrap();
    assert!(h.get(id).unwrap().ingress.is_empty());
}

#[test]
fn remove_unknown_forward_errs() {
    let mut h = Host::with(true);
    let id = h.create(CreateVm::new("base")).unwrap();
    let err = h.edit(Edit::remove_forward(id, 29999, Protocol::Tcp)).unwrap_err();
    assert!(matches!(err, Error::UnknownForward { host_port: 29999, .. }));
    assert_eq!(err.to_string(), "unknown forward tcp/29999");
}

#[test]
fn add_forward_on_unknown_vm_errs() {
    let mut h = Host::new(8);
    let err = h.add(VmId::from_u128(0xdead_beef), 80).unwrap_err();
    assert!(matches!(err, Error::UnknownVm(_)));
}

#[test]
fn concurrent_adds_dont_clobber() {
    let mut h = Host::with(true);
    let id = h.create(CreateVm::new("base")).unwrap();
    let mut edits: Vec<Option<Edit>> =
        (81..86).map(|p| Some(Edit::add_forward(id, p, Protocol::Tcp))).collect();
    let mut done = 0;
    // One step of each in turn.
    while done < 5 {
        for slot in edits.iter_mut() {
            if let Some(e) = slot.take() {
                if let Edit::Done { result } = e {
                    assert!(result.is_ok(), "every concurrent add must succeed");
                    done += 1;
                } else {
                    let ev = h.perform_edit(&e);
                    *slot = Some(e.step(ev, &mut h.ports));
                }
            }
        }
    }
    let rec = h.get(id).unwrap();
    assert_eq!(rec.ingress.len(), 5, "no forward may be lost to a race");
    let mut vm_ports: Vec<u16> = rec.ingress.iter().map(|f| f.vm_port).collect();
    vm_ports.sort();
    assert_eq!(vm_ports, vec![81, 82, 83, 84, 85]);
    let mut host_ports: Vec<u16> = rec.ingress.iter().map(|f| f.host_port).collect();
    host_ports.sort();
    host_ports.dedup();
    assert_eq!(host_ports.len(), 5, "host ports must be distinct");
}

#[test]
fn set_policy_does_not_clobber_concurrent_forward() {
    let mut h = Host::with(true);
    let id = h.create(CreateVm::new("base")).unwrap();
    let mut a = Edit::add_forward(id, 90, Protocol::Tcp);
    let mut b = Edit::set_policy(id, PolicyChange { egress: Some(EgressMode::Proxy), ..change() });
    for _ in 0..10 {
        if !matches!(a, Edit::Done { .. }) {
            let ev = h.perform_edit(&a);
            a = a.step(ev, &mut h.ports);
        }
        if !matches!(b, Edit::Done { .. }) {
            let ev = h.perform_edit(&b);
            b = b.step(ev, &mut h.ports);
        }
    }
    assert!(matches!(a, Edit::Done { result: Ok(_) }));
    assert!(matches!(b, Edit::Done { result: Ok(Edited::Generation(2)) }));
    let rec = h.get(id).unwrap();
    assert_eq!(rec.ingress.len(), 1, "the forward must survive the egress change");
    assert_eq!(rec.egress, EgressMode::Proxy);
}

#[test]
fn removed_forward_port_is_recycled() {
    let mut h = Host::with(true);
    let id = h.create(CreateVm::new("base")).unwrap();
    let mut fwds = Vec::new();
    for _ in 0..10 {
        fwds.push(h.add(id, 80).unwrap());
    }
    assert!(matches!(h.add(id, 80).unwrap_err(), Error::PortsExhausted));
    h.edit(Edit::remove_forward(id, fwds[0].host_port, Protocol::Tcp)).unwrap();
    let reused = h.add(id, 80).unwrap();
    assert_eq!(reused.host_port, fwds[0].host_port);
}

#[test]
fn a_bad_rule_is_refused_and_nothing_is_stored() {
    let mut h = Host::with(true);
    let err = h.create(CreateVm { rules: vec!["bogus".to_string()], ..CreateVm::new("base") }).unwrap_err();
    assert_eq!(err.to_string(), "invalid rule: bogus");
    assert!(h.vms.is_empty());
    let id = h.create(CreateVm::new("base")).unwrap();
    let err = h
        .edit(Edit::set_policy(id, PolicyChange { rules: Some(vec!["bogus".to_string()]), ..change() }))
        .unwrap_err();
    assert!(matches!(err, Error::InvalidRule(_)));
    assert_eq!(h.get(id).unwrap().policy_gen, 1);
}

fn claims(id: VmId, policy_gen: u64, egress: &str) -> PolicyClaims {
    PolicyClaims {
        host: "h".to_string(),
        vm: id.to_string(),
        policy_gen,
        egress: egress.to_string(),
        principal: None,
        rules: Vec::new(),
        expires: 9,
    }
}

#[test]
fn a_signature_must_describe_the_policy_it_is_filed_under() {
    let mut h = Host::with(true);
    let id = h.create(CreateVm::new("base")).unwrap();
    let signed = |t: &str| Some(SignedPolicy { token: t.to_string() });

    // A change signed at the generation it leads to.
    h.claims = Some(claims(id, 2, "proxy"));
    h.edit(Edit::set_policy(
        id,
        PolicyChange { egress: Some(EgressMode::Proxy), signed: signed("a"), ..change() },
    ))
    .unwrap();
    assert_eq!(h.get(id).unwrap().policy_gen, 2);
    assert_eq!(h.get(id).unwrap().signed.unwrap().token, "a");

    // A renewal changes no policy.
    h.claims = Some(claims(id, 2, "proxy"));
    h.edit(Edit::set_policy(id, PolicyChange { signed: signed("b"), ..change() })).unwrap();
    assert_eq!(h.get(id).unwrap().policy_gen, 2);
    assert_eq!(h.get(id).unwrap().signed.unwrap().token, "b");

    // One that says something else is refused.
    h.claims = Some(claims(id, 7, "deny"));
    let err = h
        .edit(Edit::set_policy(
            id,
            PolicyChange { egress: Some(EgressMode::Allow), signed: signed("c"), ..change() },
        ))
        .unwrap_err();
    assert_eq!(
        err.to_string(),
        "signed policy does not match: it is at generation 7 not 3; egress \"deny\" not \"allow\""
    );

    // A change without one drops the one that was there.
    h.edit(Edit::set_policy(id, PolicyChange { principal: Some("eve".to_string()), ..change() }))
        .unwrap();
    let rec = h.get(id).unwrap();
    assert_eq!((rec.policy_gen, rec.principal.as_deref()), (3, Some("eve")));
    assert!(rec.signed.is_none());
}

#[test]
fn an_id_that_is_taken_is_refused() {
    let mut h = Host::with(true);
    let id = h.create(CreateVm::new("base")).unwrap();
    let err = h.run(Life::create(CreateVm::new("base"), id)).unwrap_err();
    assert_eq!(err.to_string(), "vm 00000000-0000-0000-0000-000000000001 already exists");
    assert_eq!(h.vms.len(), 1);
}

#[test]
fn unknown_vms_and_wrong_states_are_refused() {
    let mut h = Host::with(true);
    let ghost = VmId::from_u128(0xdead);
    for why in [Why::Destroy, Why::Stop, Why::Halt, Why::Terminate, Why::Suspend, Why::Start] {
        let err = h.op(ghost, why).unwrap_err();
        assert_eq!(err.to_string(), "unknown vm 00000000-0000-0000-0000-00000000dead");
    }
    let id = h.create(req(Lifecycle::Durable, RestartPolicy::Never)).unwrap();
    h.op(id, Why::Stop).unwrap();
    let err = h.op(id, Why::Suspend).unwrap_err();
    assert_eq!(
        err.to_string(),
        "cannot suspend vm 00000000-0000-0000-0000-000000000001 in state stopped"
    );
}

#[test]
fn a_stop_that_hangs_is_forced() {
    let mut h = Host::with(true);
    let id = h.create(req(Lifecycle::Durable, RestartPolicy::Never)).unwrap();
    h.hang_stop = true;
    h.op(id, Why::Stop).unwrap();
    assert!(h.pos("rt.stop") < h.pos("rt.halt"));
    assert_eq!(h.get(id).unwrap().state, VmState::Stopped);
}

#[test]
fn recovery_takes_slots_and_ports_again() {
    let mut h = Host::with(true);
    let id = h.create(CreateVm::new("base")).unwrap();
    let fwd = h.add(id, 80).unwrap();
    let rec = h.get(id).unwrap();
    let mut slots = SlotAllocator::new(8);
    let mut ports = PortAllocator::new(20000, 20010);
    readopt(&rec, &mut slots, &mut ports);
    assert_eq!((slots.in_use(), ports.in_use()), (1, 1));
    let other = h.create(CreateVm::new("base")).unwrap();
    h.add(other, 22).unwrap();
    let next = h.get(other).unwrap();
    readopt(&next, &mut slots, &mut ports);
    assert_eq!((slots.in_use(), ports.in_use()), (2, 2));
    assert_ne!(rec.slot, next.slot);
    assert_ne!(slots.allocate().unwrap().get(), rec.slot.unwrap().get());
    assert_ne!(ports.allocate().unwrap(), fwd.host_port);
    assert!(exited_at_recovery(VmState::Running, VmStatus::Suspended));
    assert!(!exited_at_tick(VmState::Running, VmStatus::Suspended));
    assert!(exited_at_tick(VmState::Running, VmStatus::Absent));
    assert!(!exited_at_tick(VmState::Stopped, VmStatus::Absent));
}

#[test]
fn callers_are_known_by_their_slot_and_reached_while_running() {
    let mut h = Host::with(true);
    let id = h.create(req(Lifecycle::Durable, RestartPolicy::Never)).unwrap();
    assert_eq!(find_by_slot(&h.vms, SlotId::new(0).unwrap()), Some(0));
    assert_eq!(find_by_slot(&h.vms, SlotId::new(1).unwrap()), None);
    let rec = h.get(id).unwrap();
    assert_eq!(channel_port(&rec, None, 5000).unwrap(), 5000);
    assert_eq!(channel_port(&rec, Some(7), 5000).unwrap(), 7);
    h.op(id, Why::Stop).unwrap();
    assert!(matches!(channel_port(&h.get(id).unwrap(), None, 5000), Err(Error::InvalidState { .. })));
}

#[test]
fn the_guest_clock_is_tried_until_someone_answers() {
    assert!(may_try(0));
    assert!(!may_try(u64::MAX));
    assert!(matches!(
        after_attempt(Attempt::Answer(Ok(ClockResult { offset_ms: 180_000, stepped: true }))),
        Next::Stepped(180_000)
    ));
    assert!(matches!(
        after_attempt(Attempt::Answer(Ok(ClockResult { offset_ms: 0, stepped: false }))),
        Next::InStep
    ));
    match after_attempt(Attempt::Answer(Err(ClientError::Agent("no".to_string())))) {
        Next::GiveUp(m) => assert_eq!(m, "guest agent: no"),
        n => panic!("{n:?}"),
    }
    match after_attempt(Attempt::NoAnswer) {
        Next::Retry(m) => assert_eq!(m, "guest agent did not answer in time"),
        n => panic!("{n:?}"),
    }
}

#[test]
fn snapshots_are_counted_once() {
    let mut h = Host::with(true);
    for _ in 0..2 {
        let id = h.create(req(Lifecycle::Durable, RestartPolicy::Never)).unwrap();
        h.op(id, Why::Suspend).unwrap();
    }
    assert_eq!(
        snapshot_files(&h.vms),
        vec![
            "/state/00000000-0000-0000-0000-000000000001/mem",
            "/state/00000000-0000-0000-0000-000000000001/vmstate",
            "/state/00000000-0000-0000-0000-000000000002/mem",
            "/state/00000000-0000-0000-0000-000000000002/vmstate",
        ]
    );
    let f = |ino: u64, blocks: u64| Some(OnDisk { dev: 1, ino, blocks });
    assert_eq!(snapshot_bytes(&vec![f(1, 8), f(2, 1), f(1, 8)]), Some(4608));
    assert_eq!(snapshot_bytes(&vec![f(1, 8), None]), None);
    assert_eq!(snapshot_bytes(&vec![f(1, u64::MAX)]), None);
    assert_eq!(snapshot_bytes(&Vec::new()), Some(0));
    let pool = PoolStats {
        data_full: false,
        metadata_full: false,
        data_percent: "10.0".to_string(),
        metadata_percent: "10.0".to_string(),
    };
    let s = stats(pool, &h.slots, Some(4608), h.vms.len());
    assert_eq!((s.slots_used, s.slots_total, s.vms, s.snapshot_bytes), (2, 8, 2, Some(4608)));
}

#[test]
fn defaults_and_old_forwards() {
    let c = Config::default();
    assert_eq!(c.db_path, "/var/lib/iso/control.db");
    assert_eq!((c.default_vcpus, c.default_mem_mib), (1, 512));
    assert_eq!((c.graceful_stop_ms, c.slot_capacity), (30_000, SlotId::MAX as usize + 1));
    let f = |p: &str| {
        forward_from_blob(&BlobForward { host_port: 1, vm_port: 2, proto: p.to_string() }).proto
    };
    assert_eq!((f("udp"), f("UDP"), f("tcp")), (Protocol::Udp, Protocol::Tcp, Protocol::Tcp));
}
