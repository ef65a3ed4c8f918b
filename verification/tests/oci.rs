//! Images: references, registries, layers and what is put on top.

use std::collections::BTreeMap;

use iso::oci::archive::{blob, Archive, ArchiveAction, ArchiveEvent, Place, SavedImage};
use iso::oci::image::{ContainerConfig, Descriptor, ImageConfig, Manifest, Platform};
use iso::oci::install::install;
use iso::oci::layer::{
    entry_kind, entry_plan, gzip_layer, must_clear, removal, Entry, EntryPlan, Removal, There,
};
use iso::oci::pull::{Pull, PullAction, PullEvent};
use iso::oci::reference::Reference;
use iso::oci::registry::{
    after_get, authorization, basic_header, digest_matches, token_of, token_refused, token_request,
    Answer, BlobCheck,
};

#[test]
fn references_follow_docker_conventions() {
    let r = Reference::parse("python:3.12-slim").unwrap();
    assert_eq!((r.registry.as_str(), r.repository.as_str(), r.reference.as_str()), ("registry-1.docker.io", "library/python", "3.12-slim"));
    let r = Reference::parse("ghcr.io/acme/tool").unwrap();
    assert_eq!((r.registry.as_str(), r.repository.as_str(), r.reference.as_str()), ("ghcr.io", "acme/tool", "latest"));
    let r = Reference::parse("localhost:5000/x/y:v1").unwrap();
    assert_eq!((r.registry.as_str(), r.repository.as_str(), r.reference.as_str()), ("localhost:5000", "x/y", "v1"));
    assert_eq!(r.url("manifests/v1"), "http://localhost:5000/v2/x/y/manifests/v1");
    let r = Reference::parse("docker.io/acme/tool@sha256:abcd").unwrap();
    assert_eq!((r.repository.as_str(), r.reference.as_str()), ("acme/tool", "sha256:abcd"));
    assert!(Reference::parse("").is_err());
}

#[test]
fn manifests_and_blobs_have_addresses() {
    let r = Reference::parse("ghcr.io/acme/tool").unwrap();
    assert_eq!(r.manifest_url("v1"), "https://ghcr.io/v2/acme/tool/manifests/v1");
    assert_eq!(r.blob_url("sha256:ab"), "https://ghcr.io/v2/acme/tool/blobs/sha256:ab");
    // Docker Hub has one address under each of its names.
    for name in ["acme/tool", "docker.io/acme/tool", "index.docker.io/acme/tool"] {
        assert_eq!(Reference::parse(name).unwrap().url("x"), "https://registry-1.docker.io/v2/acme/tool/x");
    }
}

#[test]
fn credentials_and_tokens() {
    assert_eq!(basic_header("me:pw").unwrap(), "Basic bWU6cHc=");
    assert_eq!(basic_header(""), None);
    let s = |v: &str| Some(v.to_string());
    assert_eq!(authorization(&s("t"), &s("Basic x")).unwrap(), "Bearer t");
    assert_eq!(authorization(&None, &s("Basic x")).unwrap(), "Basic x");
    assert_eq!(authorization(&None, &None), None);
    assert_eq!(after_get("u", 401, "401 Unauthorized", true), Ok(Answer::GetToken));
    assert_eq!(after_get("u", 200, "200 OK", true), Ok(Answer::Use));
    assert_eq!(after_get("u", 401, "401 Unauthorized", false), Err("u: http 401 Unauthorized".to_string()));
    let t = token_request("Bearer realm=\"https://a/t\",service=\"reg\"", "acme/tool").unwrap();
    assert_eq!((t.realm.as_str(), t.service.as_str(), t.scope.as_str()), ("https://a/t", "reg", "repository:acme/tool:pull"));
    let t = token_request("Bearer realm=\"r\", scope=\"s\"", "x").unwrap();
    assert_eq!((t.service.as_str(), t.scope.as_str()), ("", "s"));
    assert_eq!(token_request("Bearer service=\"x\"", "x").unwrap_err(), "auth challenge without a realm");
    assert_eq!(token_request("Digest q", "x").unwrap_err(), "unsupported auth challenge: \"Digest q\"");
    assert_eq!(token_refused("r", "403 Forbidden"), "token from r: http 403 Forbidden");
    assert_eq!(token_of(s("a"), s("b")).unwrap(), "a");
    assert_eq!(token_of(None, s("b")).unwrap(), "b");
    assert_eq!(token_of(None, None).unwrap_err(), "token response without a token");
}

#[test]
fn blobs_are_checked_against_their_digest() {
    let sum = "sha256:ba7816bf8f01cfea414140de5dae2223b00361a396177a9cb410ff61f20015ad";
    let mut c = BlobCheck::new();
    assert!(c.has_room(3));
    c.receive(b"a");
    c.receive(b"bc");
    c.finish(sum).unwrap();
    let mut c = BlobCheck::new();
    c.receive(b"abd");
    let e = c.finish(sum).unwrap_err();
    assert!(e.starts_with(&format!("blob {sum}: digest mismatch (sha256:")), "{e}");
    assert_eq!(
        digest_matches("sha256:00", &vec![0x0f]).unwrap_err(),
        "blob sha256:00: digest mismatch (sha256:0f)"
    );
}

#[test]
fn compression_is_told_by_type_or_content() {
    assert_eq!(gzip_layer("application/x.tar+gzip", &[0, 0, 0, 0]), Ok(true));
    assert_eq!(gzip_layer("", &[0x1f, 0x8b, 0, 0]), Ok(true));
    assert_eq!(gzip_layer("", &[0, 0, 0, 0]), Ok(false));
    for r in [gzip_layer("x+zstd", &[0, 0, 0, 0]), gzip_layer("", &[0x28, 0xb5, 0x2f, 0xfd])] {
        assert_eq!(
            r.unwrap_err(),
            "zstd-compressed layers are not supported; re-push the image with gzip layers"
        );
    }
}

/// A tree of files, each by its whole path.
struct Tree(BTreeMap<String, Vec<u8>>);

impl Tree {
    fn apply(&mut self, layer: &[(&str, &[u8])]) {
        for (rel, content) in layer {
            match entry_plan("/r", rel) {
                EntryPlan::Empty { dir } => self.0.retain(|p, _| !p.starts_with(&format!("{dir}/"))),
                EntryPlan::Remove { path } => self.0.retain(|p, _| *p != path && !p.starts_with(&format!("{path}/"))),
                EntryPlan::Unpack { path } => {
                    self.0.insert(path, content.to_vec());
                }
            }
        }
    }
}

#[test]
fn layers_stack_and_whiteouts_delete() {
    let mut t = Tree(BTreeMap::new());
    t.apply(&[("etc/a", b"one"), ("etc/b", b"two"), ("opt/x", b"x"), ("opt/y", b"y")]);
    t.apply(&[("etc/a", b"ONE"), ("etc/.wh.b", b""), ("opt/.wh..wh..opq", b""), ("opt/z", b"z")]);
    assert_eq!(t.0["/r/etc/a"], b"ONE", "a later layer replaces");
    assert!(!t.0.contains_key("/r/etc/b"), "a whiteout deletes");
    assert!(!t.0.contains_key("/r/opt/x") && !t.0.contains_key("/r/opt/y"), "an opaque whiteout empties");
    assert_eq!(t.0["/r/opt/z"], b"z");
    assert!(!t.0.contains_key("/r/etc/.wh.b"));
}

#[test]
fn entries_are_told_by_their_names() {
    assert_eq!(entry_kind(".wh..wh..opq"), Entry::Opaque);
    assert_eq!(entry_kind(".wh.b"), Entry::Whiteout("b".to_string()));
    assert_eq!(entry_kind("a.wh."), Entry::Content);
    assert_eq!(entry_plan("/r", ".wh.top"), EntryPlan::Remove { path: "/r/top".to_string() });
    assert!(must_clear(There::Dir, false) && must_clear(There::Other, true));
    assert!(must_clear(There::Symlink, false) && must_clear(There::Symlink, true));
    assert!(!must_clear(There::Dir, true) && !must_clear(There::Nothing, true));
    assert_eq!(removal(There::Dir), Removal::Tree);
    assert_eq!(removal(There::Symlink), Removal::File);
    assert_eq!(removal(There::Nothing), Removal::Nothing);
}

fn desc(digest: &str, platform: Option<(&str, &str)>) -> Descriptor {
    Descriptor {
        media_type: "t".to_string(),
        digest: digest.to_string(),
        platform: platform.map(|(os, a)| Platform { os: os.to_string(), architecture: a.to_string() }),
    }
}

fn manifest(manifests: Vec<Descriptor>, config: Option<Descriptor>, layers: Vec<Descriptor>) -> Manifest {
    Manifest { media_type: "m".to_string(), manifests, config, layers }
}

#[test]
fn a_pull_narrows_to_this_platform_and_applies_layers_in_order() {
    let mut p = Pull::begin("src".to_string(), "latest".to_string());
    assert!(matches!(p.action(), PullAction::GetManifest(r) if r == "latest"));
    p = p.step(PullEvent::Manifest(manifest(
        vec![desc("arm", Some(("linux", "arm64"))), desc("amd", Some(("linux", "amd64")))],
        None,
        vec![],
    )));
    assert!(matches!(p.action(), PullAction::GetManifest(r) if r == "amd"));
    p = p.step(PullEvent::Manifest(manifest(vec![], Some(desc("cfg", None)), vec![desc("l1", None), desc("l2", None)])));
    assert!(matches!(p.action(), PullAction::GetConfig(r) if r == "cfg"));
    p = p.step(PullEvent::Config(Some(ContainerConfig {
        env: vec!["A=b".to_string()],
        working_dir: Some(String::new()),
        user: Some("node".to_string()),
    })));
    for l in ["l1", "l2"] {
        assert!(matches!(p.action(), PullAction::ApplyLayer(d) if d.digest == l));
        p = p.step(PullEvent::Done);
    }
    match p {
        Pull::Done { result: Ok(c) } => {
            assert_eq!((c.source.as_str(), c.workdir, c.user.as_deref()), ("src", None, Some("node")));
            assert_eq!(c.env, vec!["A=b"]);
        }
        p => panic!("{p:?}"),
    }
}

#[test]
fn a_pull_says_why_it_failed() {
    let begin = || Pull::begin("s".to_string(), "t".to_string());
    let p = begin().step(PullEvent::Manifest(manifest(vec![desc("a", Some(("linux", "arm64")))], None, vec![])));
    assert!(matches!(p, Pull::Done { result: Err(e) } if e == "the image has no linux/amd64 manifest"));
    let p = begin().step(PullEvent::Manifest(manifest(vec![], None, vec![])));
    assert!(matches!(p, Pull::Done { result: Err(e) } if e == "no layers in the manifest (m)"));
    let p = begin().step(PullEvent::Failed("boom".to_string()));
    assert!(matches!(p, Pull::Done { result: Err(e) } if e == "boom"));
}

#[test]
fn archives_are_told_apart_by_what_they_hold() {
    assert_eq!(blob("sha256:ab"), Place::Blob { algorithm: "sha256".to_string(), name: "ab".to_string() });
    assert_eq!(blob("ab"), Place::Blob { algorithm: "sha256".to_string(), name: "ab".to_string() });

    // A saved image.
    let mut a = Archive::begin("f.tar".to_string());
    assert!(matches!(a.action(), ArchiveAction::Look));
    a = a.step(ArchiveEvent::Found { manifest: true, index: true });
    a = a.step(ArchiveEvent::Saved(vec![SavedImage {
        config: "c.json".to_string(),
        layers: vec!["l/layer.tar".to_string()],
    }]));
    assert!(matches!(a.action(), ArchiveAction::ReadConfig(Place::Path(p)) if p == "c.json"));
    a = a.step(ArchiveEvent::Config(None));
    assert!(matches!(a.action(), ArchiveAction::ApplyLayer(Place::Path(p)) if p == "l/layer.tar"));
    a = a.step(ArchiveEvent::Done);
    assert!(matches!(a, Archive::Done { result: Ok(_) }));

    // A bare filesystem.
    let mut a = Archive::begin("f.tar".to_string());
    a = a.step(ArchiveEvent::Found { manifest: false, index: false });
    assert!(matches!(a.action(), ArchiveAction::CopyTree));
    a = a.step(ArchiveEvent::Done);
    assert!(matches!(a, Archive::Done { result: Ok(_) }));

    // A layout.
    let mut a = Archive::begin("f.tar".to_string());
    a = a.step(ArchiveEvent::Found { manifest: false, index: true });
    assert!(matches!(a.action(), ArchiveAction::ReadIndex));
    a = a.step(ArchiveEvent::Index(vec![desc("sha256:m", None)]));
    assert!(matches!(a.action(), ArchiveAction::ReadManifest(Place::Blob { name, .. }) if name == "m"));

    // Nothing saved in it.
    let mut a = Archive::begin("f.tar".to_string());
    a = a.step(ArchiveEvent::Found { manifest: true, index: false });
    a = a.step(ArchiveEvent::Saved(vec![]));
    assert!(matches!(a, Archive::Done { result: Err(e) } if e == "empty docker manifest"));
}

#[test]
fn install_adds_the_agent_the_config_and_the_ca_everywhere() {
    let system = "-----BEGIN CERTIFICATE-----\nAAAA\n-----END CERTIFICATE-----\n";
    let ca = "-----BEGIN CERTIFICATE-----\nISO\n-----END CERTIFICATE-----\n";
    let cfg = ImageConfig {
        env: vec!["PATH=/custom".to_string(), "FOO=bar".to_string()],
        workdir: Some("/app".to_string()),
        user: Some("node".to_string()),
        source: "x".to_string(),
    };
    let r = install(cfg, "", &[Some(system.to_string()), None, None], Some(ca));
    assert_eq!((r.agent_path.as_str(), r.agent_mode), ("usr/local/bin/iso-guest-agent", 0o755));
    assert_eq!(r.config.workdir.as_deref(), Some("/app"));
    assert_eq!(r.config.user.as_deref(), Some("node"));
    assert!(r.config.env.contains(&"PATH=/custom".to_string()), "the image's PATH is kept");
    assert!(r.config.env.contains(&"SSL_CERT_FILE=/etc/iso/ca-bundle.crt".to_string()));
    let written = |p: &str| r.files.iter().rev().find(|f| f.path == p).map(|f| f.content.as_str());
    let bundle = written("etc/ssl/certs/ca-certificates.crt").unwrap();
    assert!(bundle.contains("ISO") && bundle.contains("AAAA"), "appended to the system bundle");
    let own = written("etc/iso/ca-bundle.crt").unwrap();
    assert!(own.contains("AAAA") && own.ends_with(ca));
    assert_eq!(written("etc/resolv.conf"), Some("nameserver 172.22.0.1\n"));
    assert_eq!(written("etc/hostname"), Some("iso-guest\n"));

    // Without a CA nothing points at one.
    let cfg = ImageConfig { env: vec![], workdir: None, user: None, source: "x".to_string() };
    let r = install(cfg, "127.0.1.1 iso-guest\n", &[None, None, None], None);
    assert!(!r.config.env.iter().any(|e| e.starts_with("SSL_CERT_FILE=")));
    assert!(!r.files.iter().any(|f| f.path == "etc/hosts" || f.path == "etc/iso/ca-bundle.crt"));
}
