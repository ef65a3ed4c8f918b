//! Certificates.

use iso::client::{Client, Credentials, FileRead, SetupError};
use iso::codec::{base64_decode, base64_encode};
use iso::pki::admin::{
    covers, peer_common_name, profile, sans_covered, server_is_stale, stored, uncovered,
    uncovered_server_sans, AdminPki, Stored,
};
use iso::pki::ca::{
    absent, answer, to_sign, Ca, SignRequest, SignResponse, LEAF_BACKDATE, LEAF_TTL, METHOD,
};
use iso::pki::creds::{Creds, CredsFiles, Identity};
use iso::pki::pem::{pem_to_der, single_pem_to_der, PkiError};
use iso::pki::x509::{
    is_datable, name_is_writable, oids_are_writable, KeyUsage, NamePart, Purpose,
};
use rcgen::{
    CertificateParams, DnType, DnValue, ExtendedKeyUsagePurpose, KeyPair, OtherNameValue, SanType,
};

fn now() -> i64 {
    time::OffsetDateTime::now_utc().unix_timestamp()
}

fn list(v: &[&str]) -> Vec<String> {
    v.iter().map(|s| s.to_string()).collect()
}

/// What a directory of the admin authority holds.
#[derive(Default)]
struct Dir {
    ca_crt: Option<String>,
    ca_key: Option<String>,
    server_crt: Option<String>,
    server_key: Option<String>,
}

fn load_or_generate(d: &mut Dir, sans: &[&str]) -> Result<AdminPki, PkiError> {
    let sans = list(sans);
    match stored(d.ca_crt.is_some(), d.ca_key.is_some()) {
        Stored::Elsewhere => {
            let crt = d.server_crt.clone().ok_or("not there".to_string());
            return AdminPki::load_issued_elsewhere("/pki", d.ca_crt.as_ref().unwrap(), &crt, d.server_key.is_some());
        }
        Stored::Nothing => {
            let id = AdminPki::generate(now())?;
            d.ca_crt = Some(id.cert_pem);
            d.ca_key = Some(id.key_pem);
        }
        Stored::Authority => {}
    }
    let pki = AdminPki::from_pem("/pki", d.ca_crt.as_ref().unwrap(), d.ca_key.as_ref().unwrap())?;
    if server_is_stale(&d.server_crt, d.server_key.is_some(), &sans) {
        let id = pki.issue_host(&sans, now())?;
        d.server_crt = Some(id.cert_pem);
        d.server_key = Some(id.key_pem);
    }
    Ok(pki)
}

#[test]
fn generates_once_and_reloads() {
    let mut d = Dir::default();
    let a = load_or_generate(&mut d, &["localhost", "10.0.0.5"]).unwrap();
    let s1 = d.server_crt.clone();
    let b = load_or_generate(&mut d, &["localhost", "10.0.0.5"]).unwrap();
    assert_eq!(a.ca_cert_pem(), b.ca_cert_pem(), "same CA on reload");
    assert_eq!(s1, d.server_crt, "server cert kept when SANs are covered");
    assert_eq!(a.dir(), "/pki");
}

#[test]
fn a_new_san_reissues_the_server_cert() {
    let mut d = Dir::default();
    load_or_generate(&mut d, &["localhost"]).unwrap();
    let first = d.server_crt.clone().unwrap();
    load_or_generate(&mut d, &["localhost", "192.168.1.9"]).unwrap();
    let second = d.server_crt.clone().unwrap();
    assert_ne!(first, second);
    assert!(sans_covered(&second, &list(&["192.168.1.9", "localhost"])));
    assert!(!sans_covered(&first, &list(&["192.168.1.9"])));
    assert!(!sans_covered("nonsense", &Vec::new()));
}

#[test]
fn an_identity_issued_elsewhere_loads_without_the_ca_key_and_cannot_issue() {
    let mut control = Dir::default();
    let issuer = load_or_generate(&mut control, &["localhost"]).unwrap();
    let id = issuer.issue_server("host-a", &list(&["10.0.0.4"]), now()).unwrap();

    let mut host = Dir {
        ca_crt: Some(issuer.ca_cert_pem().clone()),
        ca_key: None,
        server_crt: Some(id.cert_pem.clone()),
        server_key: Some(id.key_pem.clone()),
    };
    let pki = load_or_generate(&mut host, &["10.0.0.4"]).unwrap();
    assert!(!pki.can_issue());
    assert!(issuer.can_issue());
    assert_eq!(pki.ca_cert_pem(), issuer.ca_cert_pem());
    assert_eq!(host.server_crt.as_ref(), Some(&id.cert_pem), "kept as issued");
    let err = pki.issue_client("anyone", now()).err().unwrap().to_string();
    assert!(err.contains("no ca.key"), "{err}");
    assert_eq!(
        err,
        "cannot issue \"anyone\": /pki holds no ca.key (this identity was issued elsewhere)"
    );
    assert!(host.ca_key.is_none());

    // A name the issued certificate does not carry cannot be added here; the
    // load says which so the daemon can warn.
    load_or_generate(&mut host, &["10.0.0.4", "10.9.9.9"]).unwrap();
    assert_eq!(
        uncovered_server_sans(&host.server_crt, &list(&["10.0.0.4", "10.9.9.9"])),
        vec!["10.9.9.9".to_string()]
    );
    assert!(uncovered_server_sans(&control.server_crt, &list(&["localhost"])).is_empty());
    assert_eq!(uncovered_server_sans(&None, &list(&["x"])), list(&["x"]));

    // Without a server identity at all there is nothing to serve.
    let mut bare = Dir { ca_crt: Some(issuer.ca_cert_pem().clone()), ..Dir::default() };
    let err = load_or_generate(&mut bare, &[]).err().expect("nothing to serve").to_string();
    assert!(err.contains("server.crt"), "{err}");
    bare.server_crt = Some(id.cert_pem);
    let err = load_or_generate(&mut bare, &[]).err().unwrap().to_string();
    assert!(err.starts_with("/pki/server.key is missing; issue one on the control host"), "{err}");
}

#[test]
fn peer_common_name_reads_the_name_an_identity_was_issued_under() {
    let mut d = Dir::default();
    let pki = load_or_generate(&mut d, &["localhost"]).unwrap();
    let client = pki.issue_client("fleet", now()).unwrap();
    let der = client.cert_der().ok().unwrap();
    assert_eq!(peer_common_name(&vec![der]).as_deref(), Some("fleet"));
    let server = pki.issue_server("control", &list(&["10.0.0.2"]), now()).unwrap();
    assert_eq!(
        peer_common_name(&vec![server.cert_der().ok().unwrap()]).as_deref(),
        Some("control")
    );
    assert_eq!(peer_common_name(&Vec::new()), None);
    assert_eq!(peer_common_name(&vec![vec![1, 2, 3]]), None);
}

#[test]
fn client_certs_chain_to_the_ca_and_are_client_auth() {
    let mut d = Dir::default();
    let pki = load_or_generate(&mut d, &["localhost"]).unwrap();
    let id = pki.issue_client("orchestrator", now()).unwrap();
    let der = id.cert_der().ok().unwrap();
    let params = CertificateParams::from_ca_cert_pem(&id.cert_pem).unwrap();
    assert_eq!(params.extended_key_usages, vec![ExtendedKeyUsagePurpose::ClientAuth]);
    assert!(!der.is_empty());
    assert!(id.key_der().is_ok());
    assert!(pki.issue_client("bad name!", now()).is_err());

    // The chain: issued by the authority, which signed it.
    let ca = pki.ca_cert_der().ok().unwrap();
    let (_, leaf) = x509_parser::parse_x509_certificate(&der).unwrap();
    let (_, root) = x509_parser::parse_x509_certificate(&ca).unwrap();
    assert_eq!(leaf.issuer(), root.subject());
    assert!(root.is_ca() && !leaf.is_ca());
}

#[test]
fn names_are_checked_before_anything_is_issued() {
    let mut d = Dir::default();
    let pki = load_or_generate(&mut d, &["localhost"]).unwrap();
    for bad in ["", "a b", "naïve", "a/b"] {
        match pki.issue_client(bad, now()) {
            Err(PkiError::Name(n, why)) => {
                assert_eq!(n, bad);
                assert_eq!(why, "use letters, digits, '-', '_', '.', '@'");
            }
            _ => panic!("{bad}"),
        }
    }
    assert!(pki.issue_client("alice@laptop", now()).is_ok());
    let e = pki.issue_server("", &Vec::new(), now()).err().unwrap();
    assert_eq!(e.to_string(), "invalid name \"\": use letters, digits, '-', '_', '.', '@'");
    match pki.issue_server("x", &list(&["ok", "naïve"]), now()) {
        Err(PkiError::Name(n, why)) => {
            assert_eq!((n.as_str(), why.as_str()), ("naïve", "Invalid IA5String: 'naïve'"))
        }
        _ => panic!("a name that is not ASCII"),
    }
    assert!(matches!(AdminPki::from_pem("/pki", "x", "y"), Err(PkiError::Rcgen(_))));
}

#[test]
fn a_certificate_asks_for_two_years_from_an_hour_ago() {
    let p = profile("n", &list(&["a"]), vec![Purpose::Server], 1_000_000);
    assert_eq!(p.common_name, "n");
    assert_eq!(p.sans, list(&["a"]));
    assert_eq!(p.key_usages, vec![KeyUsage::DigitalSignature, KeyUsage::KeyEncipherment]);
    assert_eq!((p.not_before, p.not_after), (996_400, 64_072_000));
}

#[test]
fn an_issued_certificate_says_what_was_asked_for() {
    let mut d = Dir::default();
    let t = 1_700_000_000;
    let pki = load_or_generate(&mut d, &["localhost"]).unwrap();
    let id = pki.issue_server("fleet", &list(&["fleet.internal", "10.0.0.9"]), t).unwrap();
    let der = id.cert_der().unwrap();
    let (_, leaf) = x509_parser::parse_x509_certificate(&der).unwrap();
    assert_eq!(leaf.validity().not_before.timestamp(), t - 3600);
    assert_eq!(leaf.validity().not_after.timestamp(), t + 730 * 86_400);
    let usage = leaf.key_usage().unwrap().unwrap().value;
    assert!(usage.digital_signature() && usage.key_encipherment() && !usage.key_cert_sign());
    let purposes = leaf.extended_key_usage().unwrap().unwrap().value;
    assert!(purposes.server_auth && purposes.client_auth);
    let key = KeyPair::from_pem(&id.key_pem).unwrap();
    assert_eq!(leaf.public_key().subject_public_key.data.as_ref(), key.public_key_raw());
    let der = pki.issue_client("alice", t).unwrap().cert_der().unwrap();
    let (_, client) = x509_parser::parse_x509_certificate(&der).unwrap();
    let purposes = client.extended_key_usage().unwrap().unwrap().value;
    assert!(!purposes.server_auth && purposes.client_auth);
    let root = AdminPki::generate(t).unwrap();
    let der = root.cert_der().unwrap();
    let (_, root_x) = x509_parser::parse_x509_certificate(&der).unwrap();
    assert_eq!(root_x.validity().not_after.timestamp(), t + 3650 * 86_400);
    assert!(root_x.is_ca());
    let usage = root_x.key_usage().unwrap().unwrap().value;
    assert!(usage.key_cert_sign() && usage.crl_sign() && usage.digital_signature());
    let key = KeyPair::from_pem(&root.key_pem).unwrap();
    assert_eq!(root_x.public_key().subject_public_key.data.as_ref(), key.public_key_raw());
}

#[test]
fn coverage_is_of_every_name() {
    let have = Some(list(&["a", "b"]));
    assert!(covers(&have, &list(&["b"])));
    assert!(covers(&have, &Vec::new()));
    assert!(!covers(&have, &list(&["a", "c"])));
    assert!(!covers(&None, &Vec::new()));
    assert_eq!(uncovered(&have, &list(&["c", "a", "d"])), list(&["c", "d"]));
    assert_eq!(stored(false, true), Stored::Nothing);
    assert_eq!(stored(true, false), Stored::Elsewhere);
    assert_eq!(stored(true, true), Stored::Authority);
}

#[test]
fn pem_bodies_decode() {
    let pem = "junk\n-----BEGIN X-----\n aGkg \nYm9i\r\n-----END X-----\nAAAA\n";
    assert_eq!(pem_to_der(pem).ok().unwrap(), b"hi bob");
    for (text, said) in [("", "pem: no PEM block found"), ("-----BEGIN X-----\n", "pem: no PEM block found")] {
        assert_eq!(pem_to_der(text).err().unwrap().to_string(), said);
    }
    assert!(matches!(pem_to_der("-----BEGIN X-----\n!\n"), Err(PkiError::Pem(_))));
    assert_eq!(single_pem_to_der("-----BEGIN X-----\naGk\n=\n-----END X-----\n").ok().unwrap(), b"hi");
    assert!(matches!(single_pem_to_der("aGk"), Err(PkiError::Pem(_))));
    assert_eq!(PkiError::Io("gone".to_string()).to_string(), "io: gone");
    assert_eq!(PkiError::Rcgen("bad".to_string()).to_string(), "rcgen: bad");
    assert_eq!(PkiError::NoCaKey("none".to_string()).to_string(), "none");
}

fn csr_for(domain: &str) -> String {
    let key = KeyPair::generate().unwrap();
    let params = CertificateParams::new(vec![domain.to_string()]).unwrap();
    params.serialize_request(&key).unwrap().pem().unwrap()
}

fn ca() -> Ca {
    assert!(absent(true, false) && absent(false, true) && !absent(true, true));
    let id = Ca::generate().ok().unwrap();
    Ca::from_pem(&id.cert_pem, &id.key_pem).ok().unwrap()
}

#[test]
fn signs_csr_under_ca_with_a_short_lifetime() {
    let ca = ca();
    let signed = ca.sign(&csr_for("api.anthropic.com"), now()).ok().unwrap();
    assert_eq!(signed.chain_der.len(), 2);

    // leaf parses, carries the SAN, is issued by our CA, and expires soon.
    let (_, leaf) = x509_parser::parse_x509_certificate(&signed.chain_der[0]).unwrap();
    let (_, ca_x) = x509_parser::parse_x509_certificate(&signed.chain_der[1]).unwrap();
    assert_eq!(leaf.issuer(), ca_x.subject());
    let sans: Vec<_> = leaf
        .subject_alternative_name()
        .unwrap()
        .unwrap()
        .value
        .general_names
        .iter()
        .filter_map(|n| match n {
            x509_parser::extensions::GeneralName::DNSName(d) => Some(*d),
            _ => None,
        })
        .collect();
    assert!(sans.contains(&"api.anthropic.com"));
    let now = now() as u64;
    assert!(signed.not_after > now + 23 * 3600 && signed.not_after <= now + 24 * 3600 + 5);
    assert_eq!(leaf.validity().not_after.timestamp() as u64, signed.not_after);
    // Valid to a guest whose clock froze at bake time weeks ago.
    let not_before = leaf.validity().not_before.timestamp() as u64;
    assert!(not_before <= now - 29 * 86_400, "leaf is not back-dated");
    assert_eq!(&signed.chain_der[1], ca.ca_cert_der());
    assert_eq!((LEAF_TTL, LEAF_BACKDATE), (24 * 3600, 30 * 86_400));
}

#[test]
fn handler_reports_expiry_and_refuses_garbage() {
    let ca = ca();
    let req = || Some(SignRequest { domain: "x.test".to_string(), csr_pem: csr_for("x.test") });
    let resp = ca.handle(METHOD, req(), now());
    assert_eq!(resp.chain_der_b64.len(), 2);
    assert!(resp.not_after.is_some());
    assert_eq!(&base64_decode(&resp.chain_der_b64[1]).unwrap(), ca.ca_cert_der());
    let refusals: Vec<SignResponse> = vec![
        ca.handle(METHOD, None, now()),
        ca.handle("other", req(), now()),
        ca.handle(METHOD, Some(SignRequest { domain: "x".to_string(), csr_pem: "nonsense".to_string() }), now()),
        answer(None),
        SignResponse::default(),
    ];
    for r in refusals {
        assert!(r.chain_der_b64.is_empty());
        assert!(r.not_after.is_none());
    }
    assert!(matches!(ca.sign("nonsense", now()), Err(PkiError::Rcgen(_))));
}

#[test]
fn names_that_cannot_be_written_are_refused() {
    let part = |oid: Option<&[u64]>, printable: Option<&str>| NamePart {
        oid: oid.map(|o| o.to_vec()),
        printable: printable.map(str::to_string),
    };
    assert!(name_is_writable(&vec![part(None, None), part(Some(&[2, 999]), Some("a b"))]));
    for bad in [
        part(Some(&[1]), None),
        part(Some(&[3, 1]), None),
        part(Some(&[1, 40]), None),
        part(Some(&[2, 18446744073709551535]), None),
        part(None, Some("what?")),
    ] {
        assert!(!name_is_writable(&vec![part(None, None), bad]));
    }
    assert!(oids_are_writable(&vec![None, Some(vec![1, 39])]));
    assert!(!oids_are_writable(&vec![None, Some(vec![])]));

    // A request with attributes and names of its own is granted.
    let ca = ca();
    let key = KeyPair::generate().unwrap();
    let csr = |oid: &[u64], other: &[u64]| {
        let mut p = CertificateParams::new(vec!["x.test".to_string()]).unwrap();
        p.distinguished_name.push(DnType::CustomDnType(oid.to_vec()), "a?");
        p.subject_alt_names
            .push(SanType::OtherName((other.to_vec(), OtherNameValue::Utf8String("n".to_string()))));
        p.serialize_request(&key).unwrap().pem().unwrap()
    };
    let plain: &[u64] = &[1, 2, 840, 113549, 1, 9, 1];
    let odd: &[u64] = &[2, 999, 1];
    assert_eq!(ca.sign(&csr(plain, plain), now()).unwrap().chain_der.len(), 2);
    // Below the second arc of joint identifiers the first is misread on the way
    // in, so what was read has no form on the way out.
    assert!(matches!(ca.sign(&csr(odd, plain), now()), Err(PkiError::Unwritable)));
    assert!(matches!(ca.sign(&csr(plain, odd), now()), Err(PkiError::Unwritable)));
    let q = SignRequest { domain: "x.test".to_string(), csr_pem: csr(odd, plain) };
    assert!(ca.handle(METHOD, Some(q), now()).chain_der_b64.is_empty());

    // The same of the authority's own name.
    let mut p = CertificateParams::default();
    p.distinguished_name.push(DnType::CommonName, DnValue::PrintableString("iso.ca".try_into().unwrap()));
    let der = p.self_signed(&key).unwrap().der().to_vec();
    let pem = |der: &[u8]| {
        format!("-----BEGIN CERTIFICATE-----\n{}\n-----END CERTIFICATE-----\n", base64_encode(der))
    };
    assert!(AdminPki::from_pem("/pki", &pem(&der), &key.serialize_pem()).is_ok());
    assert!(Ca::from_pem(&pem(&der), &key.serialize_pem()).is_ok());
    let mut odd_der = der.clone();
    for i in 0..der.len() - 6 {
        if &der[i..i + 6] == b"iso.ca" {
            odd_der[i + 3] = b'?';
        }
    }
    assert!(matches!(AdminPki::from_pem("/pki", &pem(&odd_der), &key.serialize_pem()), Err(PkiError::Unwritable)));
    assert!(matches!(Ca::from_pem(&pem(&odd_der), &key.serialize_pem()), Err(PkiError::Unwritable)));
    assert_eq!(PkiError::Unwritable.to_string(), "it has a name in it that cannot be written");
}

#[test]
fn what_was_read_decides_the_authority() {
    let id = AdminPki::generate(now()).unwrap();
    let key = || KeyPair::from_pem(&id.key_pem).unwrap();
    let no = || Err("no".to_string());
    let refused = |r: Result<AdminPki, PkiError>| match r {
        Err(PkiError::Rcgen(m)) => m,
        _ => panic!("not refused"),
    };
    assert_eq!(refused(AdminPki::with_key("/d", &id.cert_pem, no())), "no");
    assert_ne!(refused(AdminPki::with_key("/d", "nonsense", Ok(key()))), "");
    assert_eq!(refused(AdminPki::rebuilt("/d", &id.cert_pem, key(), Err("no".to_string()))), "no");
    let p = AdminPki::with_key("/d", &id.cert_pem, Ok(key())).ok().unwrap();
    assert_eq!((p.dir().as_str(), p.ca_cert_pem()), ("/d", &id.cert_pem));
    assert!(p.can_issue());

    let cert = || CertificateParams::default().self_signed(&key()).map_err(|e| e.to_string());
    let p = AdminPki::rebuilt("/d", "kept as it is", key(), cert()).ok().unwrap();
    assert_eq!(p.ca_cert_pem(), "kept as it is");
    let ca = Ca::rebuilt("-----BEGIN X-----\naGk=\n-----END X-----\n", key(), cert()).ok().unwrap();
    assert_eq!(ca.ca_cert_der(), b"hi");
    assert!(matches!(Ca::rebuilt("!", key(), cert()), Err(PkiError::Pem(_))));
    assert!(matches!(Ca::rebuilt("aGk=", key(), Err("no".to_string())), Err(PkiError::Rcgen(m)) if m == "no"));
    assert!(matches!(Ca::with_key(&id.cert_pem, no()), Err(PkiError::Rcgen(m)) if m == "no"));
    assert!(matches!(Ca::with_key("nonsense", Ok(key())), Err(PkiError::Rcgen(_))));
    let der = pem_to_der(&id.cert_pem).unwrap();
    assert_eq!(Ca::with_key(&id.cert_pem, Ok(key())).ok().unwrap().ca_cert_der(), &der);
}

#[test]
fn certificates_are_issued_before_the_epoch_too() {
    let t = -86_400;
    let id = AdminPki::generate(t).unwrap();
    let pki = AdminPki::from_pem("/d", &id.cert_pem, &id.key_pem).ok().unwrap();
    let der = pki.issue_client("alice", t).unwrap().cert_der().unwrap();
    let (_, leaf) = x509_parser::parse_x509_certificate(&der).unwrap();
    assert_eq!(leaf.validity().not_before.timestamp(), t - 3600);
    assert!(is_datable(t) && is_datable(-62_167_219_200) && !is_datable(-62_167_219_201));
    assert!(!is_datable(253_402_300_800));
}

#[test]
fn what_was_signed_decides_the_answer() {
    let ca = ca();
    let req = || Some(SignRequest { domain: "x".to_string(), csr_pem: "csr".to_string() });
    assert_eq!(to_sign(METHOD, req()), Some("csr".to_string()));
    assert_eq!(to_sign("other", req()), None);
    assert_eq!(to_sign(METHOD, None), None);
    let signed = ca.chain(Ok(vec![1, 2, 3]), 1000).unwrap();
    assert_eq!(signed.chain_der, vec![vec![1, 2, 3], ca.ca_cert_der().clone()]);
    assert_eq!(signed.not_after, 1000 + 86_400);
    let r = answer(Some(signed));
    assert_eq!(r.chain_der_b64[0], "AQID");
    assert_eq!(r.not_after, Some(87_400));
    assert_eq!(ca.chain(Ok(vec![1]), -100_000).unwrap().not_after, 0);
    assert!(matches!(ca.chain(Err("no".to_string()), 1000), Err(PkiError::Rcgen(m)) if m == "no"));
}

#[test]
fn credentials_come_from_three_files_or_none() {
    let f = CredsFiles::from_dir("/etc/iso", "edge");
    assert_eq!((f.ca.as_str(), f.cert.as_str(), f.key.as_str()), ("/etc/iso/ca.crt", "/etc/iso/edge.crt", "/etc/iso/edge.key"));
    let s = |v: &str| Some(v.to_string());
    assert!(matches!(CredsFiles::from_env(None, s(""), None), Ok(None)));
    assert!(matches!(CredsFiles::from_env(s("a"), s("b"), s("c")), Ok(Some(_))));
    let e = CredsFiles::from_env(s("a"), None, s("c")).err().unwrap();
    assert_eq!(e.to_string(), "pem: set all of ISO_TLS_CA, ISO_TLS_CERT and ISO_TLS_KEY, or none");
    let c = Creds {
        ca_pem: "x".to_string(),
        identity: Identity { cert_pem: "a".to_string(), key_pem: "b".to_string() },
    };
    assert!(matches!(c.identity.cert_der(), Err(PkiError::Pem(_))));
}

#[test]
fn a_client_reads_its_credentials_in_order() {
    assert_eq!(
        Credentials::from_dir("./creds", "orchestrator"),
        (
            "./creds/ca.crt".to_string(),
            "./creds/orchestrator.crt".to_string(),
            "./creds/orchestrator.key".to_string()
        )
    );
    let ok = |p: &str, c: &str| FileRead { path: p.to_string(), content: Ok(c.to_string()) };
    let bad = |p: &str| FileRead { path: p.to_string(), content: Err("denied".to_string()) };
    let c = Credentials::from_files(ok("a", "A"), ok("b", "B"), ok("c", "C")).unwrap();
    assert_eq!((c.ca_pem.as_str(), c.identity_pem().as_str()), ("A", "BC"));
    let e = Credentials::from_files(ok("a", "A"), bad("b"), bad("c")).unwrap_err();
    assert_eq!(e.to_string(), "b: denied");
    let s = |v: &str| Some(v.to_string());
    assert!(Credentials::from_env(s("a"), s("b"), s("c")).is_ok());
    let e = Credentials::from_env(s("a"), None, None).unwrap_err();
    assert_eq!(e.to_string(), "ISO_CLIENT_CERT is not set");
    assert_eq!(SetupError::Tls("x".to_string()).to_string(), "tls: x");
    let client = Client::insecure("http://h:7070//");
    assert_eq!(client.url("/vms"), "http://h:7070/vms");
}
