//! The host daemon.

use std::collections::HashMap;

use iso::common::ids::{SlotId, VmId};
use iso::common::network::{Bind, EgressMode, PortForward, Protocol};
use iso::control_plane::error::Error;
use iso::control_plane::types::{Lifecycle, RestartPolicy, VmRecord, VmState};
use iso::controld::api::{
    channel_failed, exec_limit, forward_resp, guest_refused, guest_timed_out, parse_id, refused,
    removed_proto, to_change, to_req, to_template, to_write, vm_resp, CreateReq, ForwardReq,
    PolicyReq, TemplateReq,
};
use iso::controld::builds::{
    bake_args, log_tail, template_from, valid_name, BakeSettings, BuildRequest, BuildState, Builds,
    Registration,
};
use iso::controld::dns_memory::{DnsMemory, PER_VM};
use iso::controld::identify::{identify, redirect};
use iso::controld::metadata::{ask_names, egress_note, whoami, Who};
use iso::controld::settings::{
    default_uplink, from_env, identify_sock, image_fits, server_sans, Detected, Env,
};
use iso::dns::{local_zone, resolved, route, DnsConfig, Found, QueryType, Route, METADATA_NAME};
use iso::firecracker::jail::JailEnv;
use iso::guest_proto::{ClientError, ExecRequest};

#[test]
fn names_are_lvm_and_url_safe() {
    assert!(valid_name("py312"));
    assert!(valid_name("hb-a1b2c3"));
    assert!(!valid_name(""));
    assert!(!valid_name("-x"));
    assert!(!valid_name("Has.Dots"));
    assert!(!valid_name(&"a".repeat(33)));
    assert!(valid_name(&"a".repeat(32)));
}

fn ip(a: u8, b: u8, c: u8, d: u8) -> u32 {
    u32::from_be_bytes([a, b, c, d])
}

#[test]
fn remembers_per_vm_and_only_what_was_resolved() {
    let mut m = DnsMemory::new();
    let vm = ip(172, 21, 0, 1);
    let other = ip(172, 21, 0, 3);
    let a = ip(93, 184, 216, 34);
    m.record(Some(vm), "example.test", &vec![a], 5, 0);
    assert_eq!(m.name_for(vm, a, 1).as_deref(), Some("example.test"));
    assert_eq!(m.name_for(other, a, 1), None, "another VM never resolved it");
    assert_eq!(m.name_for(vm, ip(1, 1, 1, 1), 1), None, "never resolved");
    m.record(Some(vm), "other.test", &vec![a], 5, 1);
    assert_eq!(m.name_for(vm, a, 2).as_deref(), Some("other.test"), "the latest answer wins");
    m.forget(vm);
    assert_eq!(m.name_for(vm, a, 2), None);
}

#[test]
fn names_expire_and_the_memory_is_bounded() {
    let mut m = DnsMemory::new();
    m.record(Some(1), "a", &vec![7], 5, 0);
    assert_eq!(m.name_for(1, 7, 599_999).as_deref(), Some("a"), "a short life is not trusted");
    assert_eq!(m.name_for(1, 7, 600_000), None);
    m.record(Some(1), "a", &vec![7], 1000, 0);
    assert_eq!(m.name_for(1, 7, 999_999).as_deref(), Some("a"));
    m.record(None, "a", &vec![8], 5, 0);

    let mut m = DnsMemory::new();
    let many: Vec<u32> = (0..PER_VM as u32).collect();
    m.record(Some(1), "a", &many, 5, 0);
    m.record(Some(1), "b", &vec![1_000_000], 5, 10);
    assert_eq!(m.name_for(1, 1_000_000, 11), None, "no room");
    m.record(Some(1), "b", &vec![1_000_000], 5, 700_000);
    assert_eq!(m.name_for(1, 1_000_000, 700_001).as_deref(), Some("b"), "room again");
}

#[test]
fn queries_have_their_horizon() {
    assert!(matches!(route(QueryType::A, METADATA_NAME), Route::Catalog));
    assert!(matches!(route(QueryType::Aaaa, "X.ISO.internal."), Route::Catalog));
    assert!(matches!(route(QueryType::Other, "example.test."), Route::Catalog));
    assert!(matches!(route(QueryType::Aaaa, "example.test."), Route::NoData));
    match route(QueryType::A, "Example.TEST..") {
        Route::Resolve { domain } => assert_eq!(domain, "example.test"),
        r => panic!("{r:?}"),
    }
    let f = |address: Option<u32>, ttl: u32| Found { address, ttl };
    let a = resolved(&Some(vec![f(None, 1), f(Some(9), 30), f(Some(8), 20)])).unwrap();
    assert_eq!((a.addresses, a.ttl), (vec![9, 8], 20));
    let a = resolved(&Some(vec![f(None, 1)])).unwrap();
    assert_eq!((a.addresses, a.ttl), (vec![], 60));
    assert!(resolved(&None).is_none());
    let c = DnsConfig::default();
    assert_eq!((c.bind, c.upstreams, c.metadata_ip), (([172, 22, 0, 1], 53), vec![[1, 1, 1, 1], [8, 8, 8, 8]], [172, 22, 0, 1]));
    let z = local_zone([172, 22, 0, 1]);
    assert_eq!((z.origin, z.primary.as_str(), z.contact.as_str(), z.name), ("iso.internal.", "ns.iso.internal.", "admin.iso.internal.", "metadata.iso.internal."));
    assert_eq!((z.serial, z.refresh, z.retry, z.expire, z.minimum, z.ttl), (1, 3600, 600, 86400, 60, 60));
}

fn record(egress: EgressMode) -> VmRecord {
    let mut labels = HashMap::new();
    labels.insert("name".to_string(), "box".to_string());
    VmRecord {
        id: VmId::from_u128(1),
        slot: Some(SlotId::new(3).unwrap()),
        template: "base".to_string(),
        egress,
        ingress: vec![PortForward { host_port: 20001, vm_port: 22, proto: Protocol::Tcp }],
        labels,
        lifecycle: Lifecycle::Durable,
        restart: RestartPolicy::OnFailure,
        vcpus: None,
        mem_mib: None,
        state: VmState::Running,
        rootfs_device: None,
        tap: None,
        principal: Some("alice".to_string()),
        allow: vec!["api.github.com".to_string()],
        rules: vec![],
        policy_gen: 4,
        signed: None,
        snapshot: None,
    }
}

#[test]
fn the_proxy_is_told_whose_connection_it_is() {
    let r = identify(Some((record(EgressMode::Proxy), vec!["r".to_string()])));
    assert!(r.found);
    assert_eq!((r.egress.as_str(), r.principal.as_deref(), r.policy_gen), ("proxy", Some("alice"), 4));
    assert_eq!(r.vm.as_deref(), Some("00000000-0000-0000-0000-000000000001"));
    assert_eq!((r.allow, r.rules), (vec!["api.github.com".to_string()], vec!["r".to_string()]));
    let none = identify(None);
    assert!(!none.found && none.vm.is_none() && none.egress.is_empty());
    let p = [172, 22, 0, 1];
    assert_eq!(redirect(&Some(record(EgressMode::Allow)), "api.github.com", p), Some(p));
    assert_eq!(redirect(&Some(record(EgressMode::Allow)), "other", p), None);
    assert_eq!(redirect(&Some(record(EgressMode::Proxy)), "api.github.com", p), None);
    assert_eq!(redirect(&None, "api.github.com", p), None);
}

#[test]
fn a_vm_is_told_about_itself() {
    let s = |v: &str| Some(v.to_string());
    assert!(ask_names(&record(EgressMode::Proxy), true));
    assert!(!ask_names(&record(EgressMode::Proxy), false));
    assert!(!ask_names(&record(EgressMode::Deny), true));
    let names = Some(vec![vec!["authorization".to_string()]]);
    match whoami(s("172.21.0.1"), Ok(Some(record(EgressMode::Proxy))), s("box"), s("10.0.0.5"), names) {
        Who::You(w) => {
            assert_eq!((w.id.as_str(), w.name.as_deref(), w.slot), ("00000000-0000-0000-0000-000000000001", Some("box"), Some(3)));
            assert_eq!(w.endpoints[0].endpoint.as_deref(), Some("10.0.0.5:20001"));
            assert_eq!((w.egress, w.egress_note), ("proxy", egress_note(EgressMode::Proxy)));
            let c = w.credentials.unwrap();
            assert_eq!((c[0].host.as_str(), c[0].headers.len()), ("api.github.com", 1));
        }
        w => panic!("{w:?}"),
    }
    match whoami(s("172.21.0.1"), Ok(Some(record(EgressMode::Deny))), s("box"), None, None) {
        Who::You(w) => {
            assert!(w.credentials.is_none() && w.endpoints[0].endpoint.is_none());
            assert_eq!(w.egress_note, "No external egress. Host services (DNS, metadata) are reachable.");
        }
        w => panic!("{w:?}"),
    }
    let said = |w: Who| match w {
        Who::Unknown { error, src } => (error, src),
        w => panic!("{w:?}"),
    };
    assert_eq!(said(whoami(None, Ok(None), None, None, None)), ("unsupported source".to_string(), None));
    assert_eq!(said(whoami(s("1.2.3.4"), Ok(None), None, None, None)), ("unknown caller".to_string(), s("1.2.3.4")));
    assert_eq!(
        said(whoami(s("1.2.3.4"), Err(Error::Store("x".to_string())), None, None, None)),
        ("store error: x".to_string(), None)
    );
}

fn env() -> Env {
    Env {
        state_dir: None,
        vg: None,
        uplink: None,
        image_size_gib: None,
        firecracker_bin: None,
        veth_net: None,
        admin_tcp: None,
        admin_tls_dir: None,
        admin_sans: None,
        admin_insecure: None,
        jail: JailEnv {
            on: None,
            bin: None,
            dir: None,
            uid: None,
            gid: None,
            cgroup_version: None,
            cgroups: None,
            rlimits: None,
        },
    }
}

#[test]
fn settings_have_defaults_under_one_directory() {
    let none = || Detected { uplink: None, primary_ip: None };
    assert!(image_fits(&env()));
    let huge = Env { image_size_gib: Some("17179869184".to_string()), ..env() };
    assert!(!image_fits(&huge));
    let s = from_env(env(), none());
    assert_eq!((s.db_path.as_str(), s.control_sock.as_str()), ("/var/lib/iso/control.db", "/var/lib/iso/control.sock"));
    assert_eq!((s.uplink.as_str(), s.vg.as_str(), s.firecracker_bin.as_str()), ("eth0", "iso", "firecracker"));
    assert_eq!((s.image_size, s.veth_net, s.tap_owner), (100 << 30, [172, 21, 0, 0], None));
    assert_eq!((s.control_tcp.as_str(), s.admin_insecure), ("0.0.0.0:7070", false));
    assert_eq!(s.admin_tls_dir, "/var/lib/iso/admin-pki");
    assert_eq!(identify_sock(&s.control_sock), "/var/lib/iso/identify.sock");
    assert_eq!(identify_sock("control.sock"), "identify.sock");

    let v = |x: &str| Some(x.to_string());
    let e = Env {
        state_dir: v("/s"),
        image_size_gib: v("2"),
        admin_insecure: v("TRUE"),
        admin_sans: v("a, b,,"),
        veth_net: Some([10, 1, 0, 0]),
        vg: v(""),
        jail: JailEnv { on: v("1"), uid: v("7"), ..env().jail },
        ..env()
    };
    let s = from_env(e, Detected { uplink: v("en0"), primary_ip: v("10.0.0.5") });
    assert_eq!((s.socket_dir.as_str(), s.state_dir.as_str(), s.image_path.as_str()), ("/s/fc/sock", "/s/fc/state", "/s/storage.img"));
    assert_eq!((s.uplink.as_str(), s.vg.as_str(), s.image_size, s.veth_net), ("en0", "iso", 2 << 30, [10, 1, 0, 0]));
    assert_eq!((s.tap_owner, s.admin_insecure, s.control_tcp.as_str()), (Some((7, 65534)), true, "10.0.0.5:7070"));
    assert_eq!(s.admin_extra_sans, vec!["a", "b"]);
    assert_eq!(s.jailer.unwrap().chroot_base, "/s/jail");
}

#[test]
fn the_uplink_is_the_default_route() {
    let head = "Iface\tDestination\tGateway\n";
    assert_eq!(default_uplink(&format!("{head}lo\t0000007F\t0\nen0\t00000000\t1\n")).as_deref(), Some("en0"));
    assert_eq!(default_uplink(head), None);
    assert_eq!(default_uplink(""), None);
    assert_eq!(default_uplink(&format!("{head}\nen0\t00000000\n")), None, "a broken table is not read on");
}

#[test]
fn certificate_names_come_in_order_each_once() {
    let v = |x: &str| Some(x.to_string());
    let bind = |ip: &str, unspecified: bool| Bind { ip: ip.to_string(), unspecified };
    assert_eq!(
        server_sans(bind("10.0.0.5", false), v("10.0.0.5"), v("box\n"), &vec!["a".to_string(), "localhost".to_string()]),
        vec!["10.0.0.5", "127.0.0.1", "a", "box", "localhost"]
    );
    assert_eq!(server_sans(bind("0.0.0.0", true), None, v(" "), &vec![]), vec!["127.0.0.1", "localhost"]);
}

fn bake() -> BakeSettings {
    BakeSettings {
        isoctl: "isoctl".to_string(),
        kernel: "/k".to_string(),
        agent_bin: "/agent".to_string(),
        state: "/s".to_string(),
        vg: "iso".to_string(),
        uplink: "eth0".to_string(),
        slot: 9,
    }
}

fn build_req(name: &str, force: bool) -> BuildRequest {
    BuildRequest {
        name: name.to_string(),
        image: "python:3.12-slim".to_string(),
        vcpus: None,
        mem_mib: Some(4096),
        size: None,
        force,
    }
}

#[test]
fn builds_start_once_and_end_somehow() {
    let mut none = Builds::new(None);
    assert!(!none.configured());
    assert_eq!(none.start(&build_req("a", false), false, 1).unwrap_err().status, 501);

    let mut b = Builds::new(Some(bake()));
    let e = b.start(&build_req("A", false), false, 1).unwrap_err();
    assert_eq!((e.status, e.message.as_str()), (400, "template name \"A\": use [a-z0-9][a-z0-9-]{0,31}"));
    let blank = BuildRequest { image: " ".to_string(), ..build_req("a", false) };
    assert_eq!(b.start(&blank, false, 1).unwrap_err().message, "image is required");

    assert!(b.start(&build_req("a", false), false, 1).unwrap());
    assert_eq!(b.get("a").unwrap().state, BuildState::Building);
    let e = b.start(&build_req("a", true), false, 2).unwrap_err();
    assert_eq!((e.status, e.message.as_str()), (409, "template \"a\" is already building"));
    b.finish("a", Err("boom".to_string()), "tail".to_string(), 5);
    let s = b.get("a").unwrap();
    assert_eq!((s.state, s.error.as_deref(), s.finished_at, s.log_tail.as_str()), (BuildState::Failed, Some("boom"), Some(5), "tail"));
    assert!(b.start(&build_req("a", false), false, 6).unwrap(), "a failed build can be tried again");
    b.finish("a", Ok(()), String::new(), 7);
    assert_eq!(b.get("a").unwrap().state.as_str(), "ready");

    // One that is there answers at once, unless a rebuild is forced.
    assert!(!b.start(&build_req("b", false), true, 8).unwrap());
    assert_eq!(b.get("b").unwrap().log_tail, "already registered on this host");
    assert!(b.start(&build_req("b", true), true, 9).unwrap());
    b.finish("ghost", Ok(()), String::new(), 9);
    let order: Vec<&str> = b.list().into_iter().map(|i| b.jobs[i].name.as_str()).collect();
    assert_eq!(order, ["b", "a"]);
}

#[test]
fn a_bake_gets_its_arguments_and_leaves_a_template() {
    assert_eq!(
        bake_args(&bake(), &build_req("a", false)),
        [
            "bake", "--name", "a", "--distro", "oci", "--image", "python:3.12-slim", "--kernel", "/k",
            "--agent-bin", "/agent", "--state", "/s", "--vg", "iso", "--uplink", "eth0", "--slot", "9",
            "--vcpus", "2", "--mem-mib", "4096", "--size", "16G",
        ]
    );
    let reg = Registration {
        name: None,
        rootfs_template: Some("r".to_string()),
        snapshot_mem: Some("m".to_string()),
        snapshot_vmstate: None,
        vcpus: Some(0x1_0000_0003),
        mem_mib: None,
        kernel: None,
        boot_args: Some("q".to_string()),
    };
    let t = template_from(reg, &build_req("a", false));
    assert_eq!((t.name.as_str(), t.rootfs_template.as_str(), t.vcpus, t.mem_mib), ("a", "r", 3, 2048));
    assert!(t.snapshot.is_none() && t.kernel.is_empty() && t.boot_args == "q");
    let long = vec![b'x'; 5000];
    assert_eq!(log_tail(&long).len(), 4096);
    assert_eq!(log_tail(b"\xffok"), "\u{fffd}ok");
}

fn create_req() -> CreateReq {
    CreateReq {
        id: None,
        template: "base".to_string(),
        egress: "proxy".to_string(),
        ingress: vec![ForwardReq { vm_port: 53, proto: "UDP".to_string() }],
        labels: HashMap::new(),
        lifecycle: "durable".to_string(),
        restart: "always".to_string(),
        vcpus: Some(2),
        mem_mib: None,
        principal: None,
        allow: vec![],
        rules: vec![],
        signed: None,
    }
}

#[test]
fn requests_become_what_the_control_plane_takes() {
    let c = to_req(create_req()).unwrap();
    assert_eq!((c.egress, c.lifecycle, c.restart), (EgressMode::Proxy, Lifecycle::Durable, RestartPolicy::Always));
    assert_eq!(c.ingress, vec![PortForward { host_port: 0, vm_port: 53, proto: Protocol::Udp }]);
    assert!(c.id.is_none());
    let odd = CreateReq { egress: "x".to_string(), lifecycle: "x".to_string(), restart: "x".to_string(), ..create_req() };
    let c = to_req(odd).unwrap();
    assert_eq!((c.egress, c.lifecycle, c.restart), (EgressMode::Deny, Lifecycle::Ephemeral, RestartPolicy::Never));
    let silent = CreateReq { egress: String::new(), ..create_req() };
    assert_eq!(to_req(silent).unwrap().egress, EgressMode::Deny);
    let id = "00000000-0000-0000-0000-000000000abc";
    let named = CreateReq { id: Some(id.to_string()), ..create_req() };
    assert_eq!(to_req(named).unwrap().id.unwrap().as_u128(), 0xabc);
    let bad = CreateReq { id: Some("x".to_string()), ..create_req() };
    assert_eq!(to_req(bad).unwrap_err().message, "invalid vm id");

    let p = PolicyReq { principal: None, allow: None, rules: None, egress: Some("what".to_string()), signed: None };
    assert_eq!(to_change(p).egress, None);
    assert_eq!(removed_proto(&None), Protocol::Tcp);
    assert_eq!(removed_proto(&Some("udp".to_string())), Protocol::Udp);
    let t = to_template(TemplateReq {
        name: "n".to_string(),
        rootfs_template: "r".to_string(),
        snapshot_mem: Some("m".to_string()),
        snapshot_vmstate: Some("v".to_string()),
        vcpus: 1,
        mem_mib: 2,
        kernel: "k".to_string(),
        boot_args: String::new(),
    });
    assert_eq!(t.snapshot.unwrap().vmstate, "v");
}

#[test]
fn bad_id_maps_to_400() {
    assert_eq!(parse_id("not-a-uuid").unwrap_err().status, 400);
    assert!(parse_id("00000000-0000-0000-0000-000000000001").is_ok());
}

#[test]
fn unknown_template_maps_to_404() {
    let e = refused(&Error::UnknownTemplate("ghost".to_string()));
    assert_eq!((e.status, e.message.as_str()), (404, "unknown template 'ghost'"));
    assert_eq!(refused(&Error::SlotsExhausted).status, 409);
    assert_eq!(refused(&Error::VmExists(VmId::from_u128(1))).status, 409);
    assert_eq!(refused(&Error::InvalidRule("x".to_string())).status, 400);
    assert_eq!(refused(&Error::SignedMismatch("x".to_string())).status, 500);
    assert_eq!(refused(&Error::Store("x".to_string())).status, 500);
}

#[test]
fn records_are_shown() {
    let rec = record(EgressMode::Allow);
    let r = vm_resp(&rec);
    assert_eq!((r.id.as_str(), r.slot, r.state, r.egress), ("00000000-0000-0000-0000-000000000001", Some(3), "running", "allow"));
    assert_eq!((r.lifecycle, r.restart, r.ingress[0].proto), ("durable", "on_failure", "tcp"));
    assert_eq!(r.rec.labels["name"], "box");
    assert_eq!(forward_resp(&rec.ingress[0]).host_port, 20001);
}

#[test]
fn guest_calls_are_bounded_and_their_failures_told_apart() {
    let q = ExecRequest { cmd: "true".to_string(), ..Default::default() };
    assert_eq!(exec_limit(&q).unwrap(), 135_000);
    let q = ExecRequest { timeout_ms: Some(u64::MAX), ..q };
    assert_eq!(exec_limit(&q).unwrap(), u64::MAX as u128 + 15_000);
    assert_eq!(exec_limit(&ExecRequest::default()).unwrap_err().message, "cmd is required");
    assert_eq!(guest_refused(&ClientError::Agent("no".to_string())).status, 400);
    assert_eq!(guest_refused(&ClientError::Closed).status, 502);
    assert_eq!(guest_timed_out().status, 504);
    assert_eq!(channel_failed("x").message, "guest channel: x");
    let s = |v: &str| Some(v.to_string());
    assert_eq!(to_write(s("# hi\n"), None).unwrap(), "IyBoaQo=");
    assert_eq!(to_write(None, s("QQ==")).unwrap(), "QQ==");
    assert_eq!(to_write(None, None).unwrap_err().message, "one of content or content_b64 is required");
    assert_eq!(to_write(s("a"), s("b")).unwrap_err().message, "give content or content_b64, not both");
}
