//! Identifiers and addresses.

use iso::codec::{base64_decode, base64_encode};
use iso::common::error::Error;
use iso::common::ids::{SlotId, VmId};
use iso::common::network::{EgressMode, MacAddr, NetworkPolicy, PortForward, Protocol};

#[test]
fn slot_range_is_enforced() {
    assert!(SlotId::new(0).is_ok());
    assert!(SlotId::new(SlotId::MAX).is_ok());
    assert!(matches!(
        SlotId::new(SlotId::MAX + 1),
        Err(Error::SlotOutOfRange(_))
    ));
}

#[test]
fn vmid_renders_as_uuid() {
    let id = VmId::from_u128(0x0123_4567_89ab_cdef_0123_4567_89ab_cdef);
    assert_eq!(id.to_string(), "01234567-89ab-cdef-0123-456789abcdef");
}

#[test]
fn no_two_vms_are_rendered_alike() {
    assert_ne!(VmId::from_u128(1).to_string(), VmId::from_u128(1 << 127).to_string());
}

#[test]
fn mac_renders_colon_hex() {
    assert_eq!(
        MacAddr([0x02, 0, 0, 0, 0x7f, 0xff]).to_string(),
        "02:00:00:00:7f:ff"
    );
}

#[test]
fn a_rendered_identity_reads_back() {
    for bits in [0u128, 1, u128::MAX, 0x0123_4567_89ab_cdef_0123_4567_89ab_cdef] {
        let id = VmId::from_u128(bits);
        assert_eq!(VmId::parse(&id.to_string()).unwrap().as_u128(), bits);
    }
    assert_eq!(
        VmId::parse("01234567-89AB-cdef-0123-456789abcdef").unwrap().as_u128(),
        0x0123_4567_89ab_cdef_0123_4567_89ab_cdef
    );
    for bad in [
        "",
        "01234567-89ab-cdef-0123-456789abcde",
        "01234567-89ab-cdef-0123-456789abcdeff",
        "01234567089ab-cdef-0123-456789abcdef",
        "0123456g-89ab-cdef-0123-456789abcdef",
    ] {
        assert!(VmId::parse(bad).is_none(), "{bad}");
    }
}

#[test]
fn errors_say_what_happened() {
    assert_eq!(Error::SlotOutOfRange(40000).to_string(), "slot 40000 is out of range (max 32767)");
    assert_eq!(Error::AlreadyProvisioned.to_string(), "resource already provisioned");
    assert_eq!(Error::NotProvisioned.to_string(), "resource not provisioned");
    assert_eq!(
        Error::DuplicatePortForward { host_port: 80, proto: Protocol::Udp }.to_string(),
        "duplicate port forward for udp/80"
    );
    assert_eq!(Error::Backend("boom".into()).to_string(), "backend error: boom");
}

#[test]
fn a_policy_denies_by_default_and_rejects_duplicate_forwards() {
    let p = NetworkPolicy::default();
    assert_eq!(p.egress, EgressMode::Deny);
    assert!(p.ingress.is_empty() && p.check().is_ok());
    let f = |host_port, proto| PortForward { host_port, vm_port: 22, proto };
    let ok = NetworkPolicy {
        ingress: vec![f(1, Protocol::Tcp), f(1, Protocol::Udp), f(2, Protocol::Tcp)],
        ..NetworkPolicy::default()
    };
    assert!(ok.check().is_ok());
    let dup = NetworkPolicy {
        ingress: vec![f(1, Protocol::Tcp), f(2, Protocol::Tcp), f(1, Protocol::Tcp)],
        ..NetworkPolicy::default()
    };
    assert!(matches!(
        dup.check(),
        Err(Error::DuplicatePortForward { host_port: 1, proto: Protocol::Tcp })
    ));
}

#[test]
fn base64_round_trips() {
    for s in ["", "a", "ab", "abc", "hello, world", "\u{1F600}"] {
        assert_eq!(base64_decode(&base64_encode(s.as_bytes())).unwrap(), s.as_bytes());
    }
    assert_eq!(base64_encode(b"hi"), "aGk=");
    assert_eq!(base64_decode("IyBoaQo=").unwrap(), b"# hi\n");
}

#[test]
fn base64_passes_over_line_breaks_and_rejects_the_rest() {
    assert_eq!(base64_decode("aG\r\nk=\n").unwrap(), b"hi");
    assert_eq!(base64_decode("aGk").unwrap(), b"hi");
    assert_eq!(base64_decode("a!").unwrap_err(), "invalid base64 byte 0x21");
    assert_eq!(base64_decode("\t").unwrap_err(), "invalid base64 byte 0x9");
    assert_eq!(base64_encode(&[0xff, 0xfe, 0xfd, 0x00]), "//79AA==");
}
