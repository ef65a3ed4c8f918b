//! The command line.

use iso::cli::admin::{issued_files, issued_note};
use iso::cli::bake::{
    ask_failed, boot_args, builder_spec, printed, registration, run_failed, BakeAction, BakeEvent,
    Baking, Recipe, BUILDER,
};
use iso::cli::template::{accept, build_path, host_line, poll, template_line, Poll};
use iso::cli::vm::{
    cat, connect, created_line, entry_line, exec_end, kv, list_heading, list_line, parse_forwards,
    put_body, request_line, run, wrote_line, Call, Conn, Create, Method, Source, Target, VmCmd,
};
use iso::common::network::{EgressMode, MacAddr};
use iso::guest_proto::{ExecResult, FileContent};

fn list(v: &[&str]) -> Vec<String> {
    v.iter().map(|s| s.to_string()).collect()
}

fn conn(server: &str, creds: Option<&str>, insecure: bool) -> Conn {
    Conn {
        server: server.to_string(),
        creds: creds.map(str::to_string),
        client: "admin".to_string(),
        insecure,
    }
}

#[test]
fn connections_are_authenticated_unless_told_otherwise() {
    match connect(&conn("h:7070/", None, true)).unwrap() {
        Target::Plain { base } => assert_eq!(base, "http://h:7070"),
        t => panic!("{t:?}"),
    }
    match connect(&conn("https://h/", None, true)).unwrap() {
        Target::Plain { base } => assert_eq!(base, "https://h"),
        t => panic!("{t:?}"),
    }
    match connect(&conn("https://h/", Some("/c"), false)).unwrap() {
        Target::Tls { base, ca, cert, key } => {
            assert_eq!((base.as_str(), ca.as_str(), cert.as_str(), key.as_str()), ("https://h", "/c/ca.crt", "/c/admin.crt", "/c/admin.key"))
        }
        t => panic!("{t:?}"),
    }
    assert_eq!(
        connect(&conn("x", None, false)).unwrap_err(),
        "--creds DIR (or ISO_CREDS) is required unless --insecure"
    );
}

#[test]
fn pairs_and_forwards_are_read() {
    assert_eq!(kv(&list(&["a=b=c", "d="]), "--env").unwrap(), vec![("a".to_string(), "b=c".to_string()), ("d".to_string(), String::new())]);
    assert_eq!(kv(&list(&["a=b", "x", "y"]), "--env").unwrap_err(), "--env must be KEY=VALUE, got \"x\"");
    let f = parse_forwards(&list(&["22", "53/udp"])).unwrap();
    assert_eq!((f[0].vm_port, f[0].proto.as_str(), f[1].vm_port, f[1].proto.as_str()), (22, "tcp", 53, "udp"));
    assert_eq!(parse_forwards(&list(&["65536"])).unwrap_err(), "bad --forward \"65536\"");
}

fn create() -> Create {
    Create {
        template: "base".to_string(),
        name: Some("box".to_string()),
        egress: "deny".to_string(),
        principal: None,
        allow: vec![],
        rules: list(&["allow https://*/**"]),
        forwards: list(&["22"]),
        durable: true,
        restart: "never".to_string(),
        vcpus: Some(2),
        mem_mib: None,
        labels: list(&["a=b"]),
        quiet: true,
    }
}

#[test]
fn commands_become_calls() {
    match run(VmCmd::Create(create())).unwrap() {
        Call::Create { body, quiet } => {
            assert!(quiet);
            assert_eq!((body.lifecycle, body.ingress.len(), body.vcpus), ("durable", 1, Some(2)));
            assert_eq!(body.rules, ["allow https://*/**"]);
            assert_eq!(body.labels, vec![("a".to_string(), "b".to_string()), ("name".to_string(), "box".to_string())]);
        }
        c => panic!("{c:?}"),
    }
    assert!(run(VmCmd::Create(Create { labels: list(&["x"]), ..create() })).is_err());
    let id = || "i".to_string();
    match run(VmCmd::Policy { id: id(), egress: None, principal: None, allow: vec![], rules: list(&["r"]) }).unwrap() {
        Call::SetPolicy { allow: None, rules: Some(_), .. } => {}
        c => panic!("{c:?}"),
    }
    match run(VmCmd::Exec { id: id(), cwd: None, timeout: Some(5), env: list(&["A=b"]), stdin: None, command: list(&["ls", "-l"]) }).unwrap() {
        Call::Exec { program, .. } => {
            assert_eq!((program.cmd.as_str(), program.timeout_ms), ("ls", Some(5000)));
            assert_eq!(program.args, ["-l"]);
        }
        c => panic!("{c:?}"),
    }
    let none = VmCmd::Exec { id: id(), cwd: None, timeout: None, env: vec![], stdin: None, command: vec![] };
    assert_eq!(run(none).unwrap_err(), "a command is required");
    let put = |from: Option<&str>, content: Option<&str>| {
        run(VmCmd::Put { id: id(), path: "/x".to_string(), from: from.map(str::to_string), content: content.map(str::to_string), mode: None, mkdir: false }).unwrap()
    };
    assert!(matches!(put(Some("f"), None), Call::WriteFile { source: Source::File(f), .. } if f == "f"));
    assert!(matches!(put(None, Some("t")), Call::WriteFile { source: Source::Text(t), .. } if t == "t"));
    assert!(matches!(put(None, None), Call::WriteFile { source: Source::Stdin, .. }));

    let line = |c: VmCmd| request_line(&run(c).unwrap());
    assert_eq!(line(VmCmd::List), (Method::Get, "/vms".to_string()));
    assert_eq!(line(VmCmd::Get { id: id() }), (Method::Get, "/vms/i".to_string()));
    assert_eq!(line(VmCmd::Rm { id: id() }), (Method::Delete, "/vms/i".to_string()));
    assert_eq!(line(VmCmd::Start { id: id() }), (Method::Post, "/vms/i/start".to_string()));
    assert_eq!(line(VmCmd::Suspend { id: id() }), (Method::Post, "/vms/i/suspend".to_string()));
    assert_eq!(line(VmCmd::Ls { id: id(), path: "/".to_string() }), (Method::Get, "/vms/i/dir".to_string()));
    assert_eq!(line(VmCmd::RmPath { id: id(), path: "/".to_string(), recursive: true }), (Method::Delete, "/vms/i/files".to_string()));
}

#[test]
fn files_are_written_and_printed() {
    assert_eq!(put_body(b"hi", &None).unwrap(), ("aGk=".to_string(), None));
    assert_eq!(put_body(b"", &Some("755".to_string())).unwrap(), (String::new(), Some(0o755)));
    assert_eq!(put_body(b"", &Some("9".to_string())).unwrap_err(), "bad --mode \"9\", expected octal");
    assert_eq!(wrote_line(3), "wrote 3 bytes");
    let f = |b64: &str, truncated: bool| FileContent { path: "/x".to_string(), size: 9, content_b64: b64.to_string(), truncated };
    assert_eq!(cat(&f("aGk=", false)).unwrap(), (b"hi".to_vec(), None));
    // What is put is what is printed.
    for bytes in [&b""[..], b"a", b"\x00\xff\x10", b"hello, world"] {
        let sent = put_body(bytes, &None).unwrap().0;
        let written = iso::guest_agent::answer::write_content("/x", &sent).unwrap();
        let read = iso::guest_agent::answer::file_content("/x", written.len() as u64, 100, &written);
        assert_eq!(cat(&read).unwrap().0, bytes);
    }
    assert_eq!(cat(&f("aGk=", true)).unwrap().1.unwrap(), "isoctl: file truncated at 2 of 9 bytes");
    assert_eq!(cat(&f("!", false)).unwrap_err(), "invalid base64 byte 0x21");
    assert_eq!(entry_line("file", 12, 0o644, "a"), "file             12  644  a");
}

#[test]
fn answers_are_shown() {
    assert_eq!(list_heading(), "ID                                    STATE      TEMPLATE      EGRESS  NAME");
    assert_eq!(list_line("i", "running", "a-long-template", "deny", "n"), "i                                     running    a-long-template  deny    n");
    assert_eq!((created_line("i", true), created_line("i", false)), ("i".to_string(), "created i".to_string()));
    let r = |exit_code: Option<i32>, signal: Option<i32>, timed_out: bool, truncated: bool| ExecResult {
        exit_code,
        signal,
        stdout: String::new(),
        stderr: String::new(),
        timed_out,
        truncated,
        duration_ms: 7,
    };
    assert_eq!(exec_end(&r(Some(4), None, false, false)), (vec![], 4));
    assert_eq!(exec_end(&r(None, Some(15), false, true)), (list(&["isoctl: output was truncated"]), 143));
    assert_eq!(exec_end(&r(None, None, true, false)), (list(&["isoctl: timed out after 7 ms"]), 137));
}

#[test]
fn builds_are_waited_for() {
    let s = |v: &str| Some(v.to_string());
    assert!(matches!(poll("t", 200, "200 OK", s("ready"), true, 9), Poll::Ready));
    assert!(matches!(poll("t", 200, "200 OK", s("building"), false, 9), Poll::Again));
    assert!(matches!(poll("t", 404, "404 Not Found", None, false, 9), Poll::Again));
    let said = |p: Poll| match p {
        Poll::Failed { message, shown } => (message, shown),
        p => panic!("{p:?}"),
    };
    assert_eq!(said(poll("t", 200, "200 OK", s("failed"), false, 9)), ("template t: build failed".to_string(), true));
    assert_eq!(said(poll("t", 500, "500 Oops", None, false, 9)), ("GET /templates/builds/t: http 500 Oops".to_string(), false));
    assert_eq!(said(poll("t", 404, "404 Not Found", None, true, 9)), ("template t: still unknown after 9s".to_string(), false));
    assert_eq!(template_line(&s("base"), "1", "512", true), "base\t1 vcpu\t512 MiB\twarm");
    assert_eq!(host_line(&None, false, &list(&["a", "b"])), "?\tdown\ta,b");
    assert_eq!(accept("GET /hosts", 500, "500 Oops").unwrap_err(), "GET /hosts: http 500 Oops");
    assert!(accept("x", 204, "").is_ok());
    assert_eq!(build_path("t"), "/templates/builds/t");
    let f = issued_files("/o", "alice");
    assert_eq!((f.crt.as_str(), f.key.as_str(), f.ca.as_str()), ("/o/alice.crt", "/o/alice.key", "/o/ca.crt"));
    assert!(issued_note("alice", &f).starts_with("issued alice: /o/alice.crt /o/alice.key (CA: /o/ca.crt)\n  curl --cert /o/alice.crt"));
}

fn recipe() -> Recipe {
    Recipe {
        name: "t".to_string(),
        flake: "/f".to_string(),
        state: "/s".to_string(),
        size: "8G".to_string(),
        vcpus: 1,
        mem_mib: 512,
        slot: 0,
        skip_install: false,
        inject: list(&["/nix/pi"]),
        seed_repo: list(&["/srv/r:/home/coder/r"]),
        provision: list(&["warm up"]),
        ssh_key: "/s/keys/k".to_string(),
        inner_vm: "10.0.0.2".to_string(),
        gateway: "10.0.0.1".to_string(),
    }
}

/// Runs a bake whose commands succeed unless their words hold `fail`, and says
/// what was done.
fn bake(r: Recipe, fail: &str, up: bool) -> (Vec<String>, Result<String, String>) {
    let mut log: Vec<String> = Vec::new();
    let mut b = Baking::begin(r, 0);
    let mut probes = 0;
    loop {
        let (line, ok) = match b.action() {
            BakeAction::Run(v) => (v.join(" "), BakeEvent::Done),
            BakeAction::Try(v) => (v.join(" "), BakeEvent::Done),
            BakeAction::Ask(v) => {
                let out = if v[0] == "mktemp" { "/mnt" } else if v[0] == "git" { "git@hub:r" } else { "/nix/out" };
                (v.join(" "), BakeEvent::Text(out.to_string()))
            }
            BakeAction::Storage => ("storage".to_string(), BakeEvent::Text("/dev/iso/tpl_t".to_string())),
            BakeAction::CreateVolume { name, size } => (format!("create {name} {size}"), BakeEvent::Done),
            BakeAction::ListDir { path } => (format!("list {path}"), BakeEvent::Names(list(&["pi"]))),
            BakeAction::Link { target, link } => (format!("link {target} {link}"), BakeEvent::Done),
            BakeAction::Network => ("network".to_string(), BakeEvent::Done),
            BakeAction::Attach { slot, egress } => {
                (format!("attach {} {}", slot.get(), egress == EgressMode::Allow), BakeEvent::Text("ns".to_string()))
            }
            BakeAction::Create { netns } => (format!("boot {netns}"), BakeEvent::Done),
            BakeAction::Start => ("start".to_string(), BakeEvent::Done),
            BakeAction::Probe(_) => {
                probes += 1;
                let ev = if up && probes > 1 {
                    BakeEvent::Done
                } else if probes > 2 {
                    BakeEvent::Late
                } else {
                    BakeEvent::NotYet
                };
                ("probe".to_string(), ev)
            }
            BakeAction::Suspend => ("suspend".to_string(), BakeEvent::Done),
            BakeAction::Copy { to } => (format!("copy {to}"), BakeEvent::Done),
            BakeAction::Destroy => ("destroy".to_string(), BakeEvent::Done),
            BakeAction::Detach { .. } => ("detach".to_string(), BakeEvent::Done),
            BakeAction::Nothing => break,
        };
        let ev = if !fail.is_empty() && line.contains(fail) { BakeEvent::Failed(format!("failed: {fail}")) } else { ok };
        log.push(line);
        b = b.step(ev);
    }
    let result = match b {
        Baking::Done { result: Ok(i) } => Ok(registration(i).snapshot_mem),
        Baking::Done { result: Err(e) } => Err(e),
        b => panic!("{b:?}"),
    };
    (log, result)
}

#[test]
fn a_bake_installs_boots_and_snapshots() {
    let (log, r) = bake(recipe(), "", true);
    assert_eq!(r.unwrap(), "/s/templates/t/mem");
    let pos = |s: &str| log.iter().position(|l| l.contains(s)).unwrap_or_else(|| panic!("{s}: {log:?}"));
    assert_eq!(log[0], "nix build path:/f#kernel --no-link --print-out-paths");
    assert!(pos("mkfs.ext4 -F -q /dev/iso/tpl_t") < pos("/nix/out/bin/nixos-install --root /mnt --system /nix/out"));
    assert!(pos("nixos-install --root") < pos("umount -R /mnt"));
    assert!(pos("link /nix/pi/bin/pi /mnt/home/coder/.nix-profile/bin/pi") < pos("chown -h 1000:1000"));
    assert!(pos("chown -h") < pos("file:///srv/r /mnt/home/coder/r"));
    assert!(pos("remote set-url origin git@hub:r") < pos("remote.origin.fetch"));
    assert!(pos("chown -R 1000:1000 /mnt/home/coder/r") < pos("network"));
    assert!(pos("attach 0 true") < pos("boot ns"));
    assert!(pos("coder@10.0.0.2 warm up") < pos("coder@10.0.0.2 sync"));
    assert!(pos("coder@10.0.0.2 sync") < pos("suspend"));
    assert!(pos("suspend") < pos("copy /s/templates/t"));
    assert_eq!(&log[log.len() - 2..], ["destroy", "detach"]);
    assert_eq!(log.iter().filter(|l| l.starts_with("umount")).count(), 3);
}

#[test]
fn a_bake_that_fails_cleans_up() {
    // A mounted rootfs is unmounted, and nothing boots.
    let (log, r) = bake(recipe(), "nixos-install --root", true);
    assert_eq!(r.unwrap_err(), "failed: nixos-install --root");
    assert_eq!(&log[log.len() - 2..], ["sync", "umount -R /mnt"]);
    // A builder that is there is torn down.
    for (fail, said) in [("start", "failed: start"), ("suspend", "failed: suspend"), ("copy /s", "failed: copy /s")] {
        let (log, r) = bake(Recipe { provision: vec![], ..recipe() }, fail, true);
        assert_eq!(r.unwrap_err(), said);
        assert_eq!(&log[log.len() - 2..], ["destroy", "detach"]);
    }
    let (log, r) = bake(recipe(), "", false);
    assert_eq!(r.unwrap_err(), "guest never reached sshd within the boot timeout");
    assert_eq!(&log[log.len() - 2..], ["destroy", "detach"]);
    // What is only tried may fail.
    let (_, r) = bake(recipe(), "warm up", true);
    assert!(r.is_ok());
    // A bad seed ends the work on the mounted rootfs.
    let (log, r) = bake(Recipe { seed_repo: list(&["nope"]), ..recipe() }, "", true);
    assert_eq!(r.unwrap_err(), "--seed-repo must be src:dest");
    assert_eq!(log[log.len() - 1], "umount -R /mnt");
    let (_, r) = bake(Recipe { slot: 40000, ..recipe() }, "", true);
    assert_eq!(r.unwrap_err(), "slot 40000 is out of range (max 32767)");
    assert!(matches!(Baking::begin(recipe(), 1000), Baking::Done { result: Err(_) }));
}

#[test]
fn a_bake_does_only_what_it_is_asked_to() {
    let r = Recipe { skip_install: true, inject: vec![], seed_repo: vec![], provision: vec![], ..recipe() };
    let (log, r) = bake(r, "", true);
    assert!(r.is_ok());
    assert!(!log.iter().any(|l| l.contains("mount") || l.contains("mkfs") || l.contains("create")));
    assert!(log.iter().any(|l| l == "attach 0 false"), "no egress without provisioning");
}

#[test]
fn a_builder_is_specified() {
    assert!(boot_args(&recipe()).contains("ip=10.0.0.2::10.0.0.1:255.255.255.254::eth0:off"));
    let mut b = Baking::begin(Recipe { skip_install: true, ..recipe() }, 0);
    for t in ["/k", "/top", "/tools", "/dev/x"] {
        b = b.step(BakeEvent::Text(t.to_string()));
    }
    match b {
        Baking::MakeDir { image, .. } => {
            assert_eq!((image.kernel.as_str(), image.installer.as_str()), ("/k/vmlinux", "/tools/bin/nixos-install"));
            let s = builder_spec(&image, "ns".to_string(), "tap0".to_string(), MacAddr([2, 0, 0, 0, 0, 1]), 3);
            assert_eq!((s.vm.as_u128(), s.rootfs_device.as_str(), s.vsock_cid), (BUILDER, "/dev/x", Some(3)));
            assert!(s.resume_from.is_none());
        }
        b => panic!("{b:?}"),
    }
    assert_eq!(run_failed(&list(&["a", "b"]), "exit status: 1"), "command failed (exit status: 1): a b");
    assert_eq!(ask_failed(&list(&["a", "b"]), b"no\xff"), "command failed: a b\nno\u{fffd}");
    assert_eq!(printed(b" /out\n"), "/out");
}
