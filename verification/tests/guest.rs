//! The agent in the guest and the protocol it speaks.

use iso::guest_agent::answer::{
    clock_step, exec_cap, exec_result, exec_timeout, file_content, info, io_err, kind_of, not_a_file,
    permissions, read_cap, remove_how, respond, sort_entries, turn, write_content, Capture,
    Received, RemoveHow, RunEnd, Turn,
};
use iso::guest_agent::args::parse_args;
use iso::guest_agent::init::{
    after_wait, environment, hostname, mounts, working_dir, ImageConfig, Reap,
};
use iso::guest_agent::user::{lookup, resolve, Account, Lookup};
use iso::guest_proto::{
    frame_len, read_frame, write_frame, AgentInfo, ClientError, DirEntry, ExecRequest, FileKind,
    Frame, GuestClient, Response, ResponseBody, DEFAULT_EXEC_TIMEOUT_MS, DEFAULT_MAX_OUTPUT,
    DEFAULT_MAX_READ, DEFAULT_PORT, MAX_FRAME,
};

/// An account database with one entry.
fn find(who: &str) -> Option<Account> {
    let root = match lookup(who) {
        Lookup::Uid(0) => true,
        Lookup::Uid(_) => false,
        Lookup::Name => who == "root",
    };
    if root {
        Some(Account { name: "root".to_string(), uid: 0, gid: 0, home: "/root".to_string() })
    } else {
        None
    }
}

#[test]
fn root_by_name_and_by_uid_and_a_bare_uid() {
    let root = resolve("root", find("root")).unwrap();
    assert_eq!((root.uid, root.gid), (0, 0));
    assert_eq!(resolve("0", find("0")).unwrap().name, "root");
    let stray = resolve("65534123", find("65534123")).unwrap();
    assert_eq!((stray.uid, stray.gid, stray.home.as_str()), (65534123, 65534123, "/"));
    assert!(resolve("no-such-user-iso", find("no-such-user-iso")).is_err());
}

#[test]
fn frames_round_trip_and_eof_is_clean() {
    let mut stream = write_frame(b"{\"op\":\"exec\"}").unwrap();
    stream.extend(write_frame(b"{\"op\":\"ping\"}").unwrap());
    let mut at = 0;
    for want in ["{\"op\":\"exec\"}", "{\"op\":\"ping\"}"] {
        match read_frame(&stream[at..]) {
            Frame::Body { body, taken } => {
                assert_eq!(body, want.as_bytes());
                at += taken;
            }
            _ => panic!("no frame"),
        }
    }
    assert!(matches!(read_frame(&stream[at..]), Frame::End));
    // An end inside the length is no clean end.
    assert!(matches!(read_frame(&[0u8, 0, 0]), Frame::Cut));
    assert!(matches!(read_frame(&[0u8]), Frame::Cut));
    assert!(matches!(read_frame(&stream[..6]), Frame::Cut));
}

#[test]
fn oversized_frame_is_rejected_before_allocation() {
    match read_frame(&u32::MAX.to_be_bytes()) {
        Frame::TooLarge(m) => assert_eq!(
            m,
            format!("frame of 4294967295 bytes exceeds the {MAX_FRAME}-byte limit")
        ),
        _ => panic!("accepted"),
    }
    assert!(frame_len(&u32::MAX.to_be_bytes()).is_err());
    assert_eq!(frame_len(&[0, 0, 1, 2]).unwrap(), 258);
    assert!(write_frame(&vec![0; MAX_FRAME + 1]).is_err());
}

#[test]
fn exec_truncates_at_the_cap() {
    let mut out = Capture::new(4);
    out.take(b"abc");
    out.take(b"def");
    assert!(out.truncated());
    let r = exec_result(RunEnd::Exited { code: Some(4), signal: None }, out, Capture::new(4), 12);
    assert_eq!((r.stdout.as_str(), r.stderr.as_str()), ("abcd", ""));
    assert_eq!((r.exit_code, r.signal, r.timed_out, r.truncated, r.duration_ms), (Some(4), None, false, true, 12));

    // Bytes that are no text are replaced.
    let mut err = Capture::new(9);
    err.take(b"a\xffb");
    let r = exec_result(RunEnd::TimedOut, Capture::new(1), err, 5);
    assert_eq!(r.stderr, "a\u{fffd}b");
    assert_eq!((r.exit_code, r.signal, r.timed_out, r.truncated), (None, Some(9), true, false));
    // A run that printed nothing dropped nothing, however it ended.
    let r = exec_result(RunEnd::TimedOut, Capture::new(4), Capture::new(4), 300);
    assert_eq!((r.stdout.as_str(), r.stderr.as_str(), r.truncated), ("", "", false));
    let mut out = Capture::new(1);
    out.take(b"ab");
    assert!(exec_result(RunEnd::TimedOut, out, Capture::new(1), 5).truncated);
}

#[test]
fn defaults_apply_where_nothing_is_asked() {
    let q = ExecRequest { cmd: "true".to_string(), ..Default::default() };
    assert_eq!((exec_timeout(&q), exec_cap(&q), read_cap(None)), (DEFAULT_EXEC_TIMEOUT_MS, DEFAULT_MAX_OUTPUT, DEFAULT_MAX_READ));
    let q = ExecRequest { timeout_ms: Some(7), max_output_bytes: Some(8), ..Default::default() };
    assert_eq!((exec_timeout(&q), exec_cap(&q), read_cap(Some(9))), (7, 8, 9));
}

#[test]
fn files_round_trip_and_errors_are_messages() {
    let f = file_content("/x", 5, 100, b"# hi\n");
    assert_eq!((f.content_b64.as_str(), f.truncated, f.size), ("IyBoaQo=", false, 5));
    assert_eq!(write_content("/x", &f.content_b64).unwrap(), b"# hi\n");
    assert!(file_content("/x", 101, 100, b"").truncated);
    let e = write_content("/x", "!").unwrap_err();
    assert!(e.starts_with("write /x: content is not base64: "), "{e}");
    assert_eq!(not_a_file("/d"), "read /d: not a regular file");
    assert_eq!(io_err("stat", "/x", "gone"), "stat /x: gone");
    assert_eq!(kind_of(true, true, false), FileKind::Symlink);
    assert_eq!(kind_of(false, true, false), FileKind::Dir);
    assert_eq!(kind_of(false, false, true), FileKind::File);
    assert_eq!(kind_of(false, false, false), FileKind::Other);
    assert_eq!(permissions(0o100644), 0o644);
    assert_eq!(remove_how(true, true), RemoveHow::Tree);
    assert_eq!(remove_how(true, false), RemoveHow::EmptyDir);
    assert_eq!(remove_how(false, true), RemoveHow::File);
}

#[test]
fn listings_are_ordered() {
    let e = |n: &str| DirEntry { name: n.to_string(), kind: FileKind::File, size: 0, mode: 0 };
    let names: Vec<String> =
        sort_entries(vec![e("b"), e("ab"), e("a"), e("é")]).into_iter().map(|e| e.name).collect();
    assert_eq!(names, ["a", "ab", "b", "é"]);
}

#[test]
fn connections_take_turns() {
    assert!(matches!(turn(Received::Request(3)), Turn::Serve(3)));
    assert!(matches!(turn::<u8>(Received::End), Turn::Close));
    match turn::<u8>(Received::Bad("what".to_string())) {
        Turn::ReplyAndClose(r) => assert_eq!(r.into_result().unwrap_err(), "bad request: what"),
        _ => panic!("served"),
    }
    let r = respond(Ok(ResponseBody::Written { bytes: 3 }));
    assert_eq!(GuestClient::<()>::write_file(Some(r)).unwrap(), 3);
    let r = respond(Err("nope".to_string()));
    assert_eq!(r.clone().into_result().unwrap_err(), "nope");
    assert!(matches!(GuestClient::<()>::ping(Some(r)), Err(ClientError::Agent(m)) if m == "nope"));
    assert!(matches!(GuestClient::<()>::ping(None), Err(ClientError::Closed)));
    let odd = Response::ok(ResponseBody::Done);
    assert_eq!(
        GuestClient::<()>::exec(Some(odd)).unwrap_err().to_string(),
        "guest agent returned an unexpected result kind for exec"
    );
    let i: AgentInfo = info("1", " host\n", 0, "/");
    assert_eq!((i.agent.as_str(), i.hostname.as_str()), ("iso-guest-agent", "host"));
    assert_eq!(GuestClient::new(5).into_inner(), 5);
}

#[test]
fn init_sets_the_images_environment() {
    let img = ImageConfig {
        env: vec!["PATH=/custom".to_string(), "junk".to_string()],
        workdir: Some("/app".to_string()),
        user: Some("node".to_string()),
    };
    let env = environment(&img);
    let last = |k: &str| env.iter().rev().find(|p| p.0 == k).map(|p| p.1.as_str());
    assert_eq!(last("PATH"), Some("/custom"));
    assert_eq!(last("HOME"), Some("/root"));
    assert_eq!(last("ISO_DEFAULT_USER"), Some("node"));
    assert_eq!(working_dir(&img).as_deref(), Some("/app"));
    let none = environment(&ImageConfig::default());
    assert!(!none.iter().any(|p| p.0 == "ISO_DEFAULT_USER"));
    assert_eq!(working_dir(&ImageConfig::default()), None);
    let all = mounts();
    let targets: Vec<&str> = all.iter().map(|m| m.target).collect();
    assert_eq!(targets, vec!["/proc", "/sys", "/dev", "/dev/pts", "/dev/shm", "/run", "/tmp"]);
    assert_eq!((all[3].fstype, all[3].data), ("devpts", "gid=5,mode=620,ptmxmode=666"));
    assert!(all.iter().all(|m| m.nosuid));
    assert_eq!(hostname("iso-guest\n"), Some("iso-guest".to_string()));
    assert_eq!(hostname(" \n"), None);
    assert_eq!(after_wait(7, 7), Reap::RestartAgent);
    assert_eq!(after_wait(8, 7), Reap::Again);
    assert_eq!(after_wait(0, 7), Reap::Wait);
}

#[test]
fn a_clock_is_stepped_by_whole_milliseconds() {
    let step = |told: u64, here: u64| {
        let r = clock_step(told, here);
        (r.offset_ms, r.stepped)
    };
    assert_eq!(step(5_000_000_000, 2_000_000_000), (3000, true));
    assert_eq!(step(2_000_000_000, 5_000_000_001), (-3000, true));
    assert_eq!(step(1_999_999, 1_000_000), (0, false));
}

#[test]
fn the_agent_listens_where_it_is_told() {
    let args = |v: &[&str]| parse_args(&v.iter().map(|s| s.to_string()).collect());
    let l = args(&[]).unwrap();
    assert_eq!((l.port, l.tcp), (DEFAULT_PORT, None));
    let l = args(&["--port", "7", "--listen-tcp", "127.0.0.1:1"]).unwrap();
    assert_eq!((l.port, l.tcp.as_deref()), (7, Some("127.0.0.1:1")));
    for bad in [&["--port"][..], &["--port", "x"], &["--listen-tcp"], &["-h"], &["--help", "x"]] {
        assert!(args(bad).is_none());
    }
}
