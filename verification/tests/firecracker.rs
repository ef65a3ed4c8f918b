//! The VMM: its jail, its API, and the files it is given.

use iso::common::error::Error;
use iso::common::ids::VmId;
use iso::common::network::MacAddr;
use iso::common::runtime::{InstanceSpec, SnapshotRef, VmStatus};
use iso::firecracker::api::{
    after_look, define_calls, log_path, no_socket, parse_pid, pidfile_path, snap_dir, socket_path,
    start_call, status, suspend_calls, ApiCall, Boot, Field, FirecrackerConfig, Seen,
};
use iso::firecracker::http::{
    content_length, expect_ok, find, read_response, request_text, response_complete, timed_out,
    SocketPath,
};
use iso::firecracker::jail::{build, plan, JailEnv, JailerConfig, Step, GUEST_ROOTFS};
use iso::firecracker::link::{look_for, not_found, LinkAction, LinkEvent, Linked, Linking};

fn cfg() -> JailerConfig {
    JailerConfig {
        bin: "/usr/bin/jailer".to_string(),
        chroot_base: "/var/lib/iso/jail".to_string(),
        uid: 1234,
        gid: 1235,
        cgroup_version: 2,
        cgroups: vec!["cpu.max=200000 100000".to_string()],
        resource_limits: vec!["no-file=4096".to_string()],
    }
}

fn spec(resume: bool) -> InstanceSpec {
    InstanceSpec {
        vm: VmId::from_u128(0xabc),
        netns: "vm0003".to_string(),
        tap: "tap0".to_string(),
        mac: MacAddr([2, 0, 0, 0, 0, 1]),
        rootfs_device: "/dev/iso/vm_abc".to_string(),
        vcpus: 1,
        mem_mib: 512,
        kernel: "/nix/store/xyz-firecracker-vmlinux/vmlinux".to_string(),
        boot_args: "console=ttyS0".to_string(),
        resume_from: if resume {
            Some(SnapshotRef {
                mem_file: "/var/lib/iso/templates/base/mem".to_string(),
                vmstate: "/var/lib/iso/templates/base/vmstate".to_string(),
            })
        } else {
            None
        },
        rootfs_backing: if resume { Some("/dev/iso/tpl_base".to_string()) } else { None },
        vsock_cid: Some(3),
    }
}

#[test]
fn plan_lays_out_a_fresh_boot() {
    let p = plan(&cfg(), "/opt/fc/firecracker", "/var/run/netns/vm0003", &spec(false));
    let root = "/var/lib/iso/jail/firecracker/00000000-0000-0000-0000-000000000abc/root";
    assert_eq!(p.root, root);
    assert_eq!(p.jail_dir, "/var/lib/iso/jail/firecracker/00000000-0000-0000-0000-000000000abc");
    assert_eq!(p.api_socket, format!("{root}/run/firecracker.socket"));
    assert_eq!(
        p.kernel,
        ("/nix/store/xyz-firecracker-vmlinux/vmlinux".to_string(), format!("{root}/vmlinux"))
    );
    assert_eq!(p.rootfs_nodes, vec![format!("{root}/rootfs")]);
    assert!(p.snapshot.is_empty());
    assert_eq!(
        p.args,
        [
            "--id", "00000000-0000-0000-0000-000000000abc",
            "--exec-file", "/opt/fc/firecracker",
            "--uid", "1234", "--gid", "1235",
            "--chroot-base-dir", "/var/lib/iso/jail",
            "--cgroup-version", "2",
            "--netns", "/var/run/netns/vm0003",
            "--cgroup", "cpu.max=200000 100000",
            "--resource-limit", "no-file=4096",
        ]
    );
    let steps = build(&p, true);
    assert_eq!(steps.len(), 5);
    assert!(matches!(&steps[0], Step::Dir(d) if d == root));
    assert!(matches!(&steps[4], Step::Node(n) if *n == p.rootfs_nodes[0]));
    assert!(matches!(&build(&p, false)[4], Step::LinkRootfs(n) if *n == p.rootfs_nodes[0]));
}

#[test]
fn plan_for_resume_links_the_snapshot_and_covers_the_baked_rootfs_path() {
    let p = plan(&cfg(), "/opt/fc/firecracker", "/var/run/netns/vm0003", &spec(true));
    assert_eq!(
        p.snapshot,
        vec![
            ("/var/lib/iso/templates/base/mem".to_string(), format!("{}/snapshot/mem", p.root)),
            ("/var/lib/iso/templates/base/vmstate".to_string(), format!("{}/snapshot/vmstate", p.root)),
        ]
    );
    // both the jailed name and the unjailed bake's host path resolve to this VM's device
    assert_eq!(
        p.rootfs_nodes,
        vec![format!("{}/rootfs", p.root), format!("{}/dev/iso/tpl_base", p.root)]
    );
}

#[test]
fn a_jailed_bake_records_the_constant_rootfs_name_so_no_extra_node_is_needed() {
    let mut s = spec(true);
    s.rootfs_backing = Some(GUEST_ROOTFS.to_string());
    let p = plan(&cfg(), "/opt/fc/firecracker", "/ns", &s);
    assert_eq!(p.rootfs_nodes, vec![format!("{}/rootfs", p.root)]);
    s.rootfs_backing = Some("./rootfs".to_string());
    let p = plan(&cfg(), "/opt/fc/firecracker", "/ns", &s);
    assert_eq!(p.rootfs_nodes, vec![format!("{}/rootfs", p.root), format!("{}/./rootfs", p.root)]);
}

fn env() -> JailEnv {
    JailEnv {
        on: None,
        bin: None,
        dir: None,
        uid: None,
        gid: None,
        cgroup_version: None,
        cgroups: None,
        rlimits: None,
    }
}

#[test]
fn env_config_is_off_unless_asked() {
    let c = JailerConfig {
        bin: "jailer".to_string(),
        chroot_base: "/s/jail".to_string(),
        uid: 65534,
        gid: 65534,
        cgroup_version: 2,
        cgroups: vec![],
        resource_limits: vec![],
    };
    assert_eq!(
        c.jail_dir("/x/firecracker", VmId::from_u128(1)),
        "/s/jail/firecracker/00000000-0000-0000-0000-000000000001"
    );
    assert!(JailerConfig::from_env(&env(), "/s").is_none());
    for off in ["", "0", "no"] {
        assert!(JailerConfig::from_env(&JailEnv { on: Some(off.to_string()), ..env() }, "/s").is_none());
    }
    let d = JailerConfig::from_env(&JailEnv { on: Some(" Yes ".to_string()), ..env() }, "/s").unwrap();
    assert_eq!((d.bin, d.chroot_base, d.uid, d.gid, d.cgroup_version), (c.bin, c.chroot_base, c.uid, c.gid, c.cgroup_version));
    let d = JailerConfig::from_env(
        &JailEnv {
            on: Some("1".to_string()),
            uid: Some("7".to_string()),
            gid: Some("x".to_string()),
            cgroups: Some("a=1, ,b=2".to_string()),
            ..env()
        },
        "/s",
    )
    .unwrap();
    assert_eq!((d.uid, d.gid), (7, 65534));
    assert_eq!(d.cgroups, vec!["a=1", "b=2"]);
}

#[test]
fn short_paths_are_left_alone() {
    let sp = SocketPath::new("/run/iso/fc/x.sock").unwrap();
    assert_eq!(sp.path, "/run/iso/fc/x.sock");
    assert_eq!(sp.through(9), "/run/iso/fc/x.sock");
}

#[test]
fn long_socket_paths_go_through_the_directory() {
    let dir = format!("/{}/{}", "a".repeat(60), "b".repeat(60));
    let sp = SocketPath::new(&format!("{dir}/firecracker.socket")).unwrap();
    assert_eq!(sp.dir, Some(dir));
    assert_eq!(sp.through(9), "/proc/self/fd/9/firecracker.socket");
    assert!(SocketPath::new(&"x".repeat(200)).is_err());
}

#[test]
fn instances_are_defined_by_their_calls() {
    let c = define_calls(&spec(true));
    assert_eq!(
        c,
        vec![ApiCall::LoadSnapshot {
            vmstate: "/var/lib/iso/templates/base/vmstate".to_string(),
            mem: "/var/lib/iso/templates/base/mem".to_string(),
        }]
    );
    let c = define_calls(&spec(false));
    assert_eq!(c.len(), 5);
    assert_eq!(c[0], ApiCall::MachineConfig { vcpus: 1, mem_mib: 512 });
    assert_eq!(c[2], ApiCall::Rootfs { path: "/dev/iso/vm_abc".to_string() });
    assert_eq!(c[3], ApiCall::Nic { tap: "tap0".to_string(), mac: "02:00:00:00:00:01".to_string() });
    assert_eq!(c[4], ApiCall::Vsock { cid: 3 });
    assert_eq!(start_call("Paused"), ApiCall::Resume);
    assert_eq!(start_call("Not started"), ApiCall::InstanceStart);
    assert_eq!(
        suspend_calls("/s"),
        vec![
            ApiCall::Pause,
            ApiCall::CreateSnapshot { vmstate: "/s/vmstate".to_string(), mem: "/s/mem".to_string() }
        ]
    );
}

#[test]
fn calls_go_over_the_socket_as_requests() {
    let text = |s: &str| Field::Text(s.to_string());
    let r = ApiCall::Rootfs { path: "/dev/iso/vm_abc".to_string() }.request();
    assert_eq!((r.method, r.path), ("PUT", "/drives/rootfs"));
    assert_eq!(
        r.body,
        vec![
            ("drive_id", text("rootfs")),
            ("path_on_host", text("/dev/iso/vm_abc")),
            ("is_root_device", Field::Flag(true)),
            ("is_read_only", Field::Flag(false)),
            ("cache_type", text("Writeback")),
        ]
    );
    let r = ApiCall::LoadSnapshot { vmstate: "/v".to_string(), mem: "/m".to_string() }.request();
    assert_eq!((r.method, r.path), ("PUT", "/snapshot/load"));
    assert_eq!(r.body[0], ("snapshot_path", text("/v")));
    let backend = vec![("backend_type", "File".to_string()), ("backend_path", "/m".to_string())];
    assert_eq!(r.body[1], ("mem_backend", Field::Group(backend)));
    assert_eq!(r.body[3], ("resume_vm", Field::Flag(false)));
    let r = ApiCall::MachineConfig { vcpus: 2, mem_mib: 512 }.request();
    assert_eq!(r.body, vec![("vcpu_count", Field::Number(2)), ("mem_size_mib", Field::Number(512))]);
    let r = ApiCall::Pause.request();
    assert_eq!((r.method, r.path), ("PATCH", "/vm"));
    assert_eq!(r.body, vec![("state", text("Paused"))]);
    assert_eq!(ApiCall::Resume.request().body, vec![("state", text("Resumed"))]);
    let r = ApiCall::CtrlAltDel.request();
    assert_eq!((r.method, r.path), ("PUT", "/actions"));
    assert_eq!(r.body, vec![("action_type", text("SendCtrlAltDel"))]);
}

#[test]
fn vms_share_no_files() {
    let (a, b) = (VmId::from_u128(1), VmId::from_u128(2));
    assert_eq!(
        cfg().jail_dir("/usr/bin/firecracker", a),
        "/var/lib/iso/jail/firecracker/00000000-0000-0000-0000-000000000001"
    );
    assert_ne!(cfg().jail_dir("/usr/bin/firecracker", a), cfg().jail_dir("/usr/bin/firecracker", b));
    assert_ne!(socket_path("/s", a), socket_path("/s", b));
    assert_ne!(snap_dir("/s", a), snap_dir("/s", b));
}

#[test]
fn a_status_is_what_was_seen() {
    let seen = |exited: bool, socket: bool, state: Option<&str>, alive: bool| {
        status(&Seen { exited, socket, state: state.map(str::to_string), alive })
    };
    assert_eq!(seen(true, true, Some("Running"), true), VmStatus::Stopped);
    assert_eq!(seen(false, false, None, true), VmStatus::Created);
    assert_eq!(seen(false, false, None, false), VmStatus::Absent);
    assert_eq!(seen(false, true, Some("Running"), true), VmStatus::Running);
    assert_eq!(seen(false, true, Some("Paused"), true), VmStatus::Suspended);
    assert_eq!(seen(false, true, None, false), VmStatus::Stopped);
    assert!(matches!(after_look(true, false), Boot::Ready));
    assert!(matches!(after_look(false, true), Boot::Wait));
    assert!(matches!(after_look(false, false), Boot::Failed(_)));
    assert_eq!(no_socket().to_string(), "backend error: timed out waiting for firecracker API socket");
    let vm = VmId::from_u128(1);
    let id = "00000000-0000-0000-0000-000000000001";
    assert_eq!(socket_path("/s", vm), format!("/s/{id}.sock"));
    assert_eq!(pidfile_path("/s", vm), format!("/s/{id}.pid"));
    assert_eq!(log_path("/s", vm), format!("/s/{id}.log"));
    assert_eq!(snap_dir("/s", vm), format!("/s/{id}"));
    assert_eq!(parse_pid(" 42\n"), Some(42));
    assert_eq!(parse_pid("x"), None);
    let d = FirecrackerConfig::default();
    assert_eq!((d.bin.as_str(), d.netns_dir.as_str(), d.boot_timeout_ms), ("firecracker", "/var/run/netns", 10_000));
}

#[test]
fn the_api_speaks_http() {
    assert_eq!(
        request_text("PUT", "/x", "{}"),
        "PUT /x HTTP/1.1\r\nHost: localhost\r\nAccept: application/json\r\nContent-Type: application/json\r\nContent-Length: 2\r\nConnection: close\r\n\r\n{}"
    );
    assert_eq!(find(b"abcabc", b"ca"), Some(2));
    assert_eq!(find(b"ab", b"abc"), None);
    assert_eq!(content_length("A: b\r\nContent-LENGTH: 7\r\n"), Some(7));
    assert_eq!(content_length("A: b"), None);
    assert!(!response_complete(b"HTTP/1.1 200 OK\r\nContent-Length: 2\r\n\r\n{"));
    assert!(response_complete(b"HTTP/1.1 200 OK\r\nContent-Length: 2\r\n\r\n{}"));
    assert!(!response_complete(b"HTTP/1.1 204 No Content\r\n"));
    assert_eq!(read_response(b"HTTP/1.1 400 Bad\r\n\r\n\xff").unwrap(), (400, "\u{fffd}".to_string()));
    let e = read_response(b"what\"").unwrap_err().to_string();
    assert_eq!(e, "backend error: malformed firecracker response: \"what\\\"\"");
    assert!(expect_ok("PUT", "/x", 204, "").is_ok());
    assert_eq!(
        expect_ok("PUT", "/x", 400, "no").unwrap_err().to_string(),
        "backend error: PUT /x -> 400: no"
    );
    assert_eq!(timed_out("GET", "/").to_string(), "backend error: firecracker API GET / timed out");
}

fn linked() -> Linked {
    Linked {
        src: "/base/vmlinux".to_string(),
        dst: "/base/jail/root/vmlinux".to_string(),
        cache: "/base/.cache".to_string(),
        pid: 7,
    }
}

#[test]
fn a_link_is_tried_first() {
    let l = Linking::begin(linked()).step(LinkEvent::Done);
    match l.action() {
        LinkAction::HardLink(s, d) => assert_eq!((s.as_str(), d.as_str()), ("/base/vmlinux", "/base/jail/root/vmlinux")),
        a => panic!("{a:?}"),
    }
    assert!(matches!(l.step(LinkEvent::Done), Linking::Done { result: Ok(()) }));
}

#[test]
fn link_falls_back_to_one_copy() {
    let mut l = Linking::begin(linked()).step(LinkEvent::Done);
    l = l.step(LinkEvent::Failed("other device".to_string()));
    assert!(matches!(l.action(), LinkAction::Identify(_)));
    l = l.step(LinkEvent::Key(0xab));
    let copy = "/base/.cache/00000000000000ab/vmlinux";
    assert!(matches!(l.action(), LinkAction::Exists(p) if p == copy));
    l = l.step(LinkEvent::Exists(false));
    assert!(matches!(l.action(), LinkAction::MakeDir(p) if p == "/base/.cache/00000000000000ab"));
    l = l.step(LinkEvent::Done);
    assert!(matches!(l.action(), LinkAction::Copy(s, d) if s == "/base/vmlinux" && d == "/base/.cache/00000000000000ab/.vmlinux.7"));
    l = l.step(LinkEvent::Done);
    assert!(matches!(l.action(), LinkAction::Rename(_, d) if d == copy));
    l = l.step(LinkEvent::Done);
    assert!(matches!(l.action(), LinkAction::HardLink(s, _) if s == copy));
    l = l.step(LinkEvent::Failed("no".to_string()));
    assert!(matches!(l.action(), LinkAction::Copy(s, d) if s == copy && d == "/base/jail/root/vmlinux"));
    match l.step(LinkEvent::Failed("full".to_string())) {
        Linking::Done { result: Err(Error::Backend(m)) } => assert_eq!(m, format!("jail: copy {copy}: full")),
        l => panic!("{l:?}"),
    }
}

#[test]
fn binaries_are_found_on_the_path() {
    assert_eq!(look_for("firecracker", "/a:/b"), (vec!["/a/firecracker".to_string(), "/b/firecracker".to_string()], true));
    for with_dir in ["/x/fc", "x/fc", "./fc", "/fc"] {
        assert_eq!(look_for(with_dir, "/a"), (vec![with_dir.to_string()], false));
    }
    assert_eq!(not_found("fc").to_string(), "backend error: jail: fc not found on PATH");
}
