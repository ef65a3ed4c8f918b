//! Network types: protocols, addresses, policies and forwards.

use crate::common::error::Error;
use crate::common::ids::SlotId;
use crate::text::{hex_byte, push_hex};
use vstd::prelude::*;
use vstd::string::*;

verus! {

/// L4 protocol selector for port forwards and policy.
#[derive(Clone, Copy, Debug, PartialEq, Eq, Hash, Structural)]
pub enum Protocol {
    Tcp,
    Udp,
}

impl Protocol {
    /// The lower-case name.
    pub open spec fn name(self) -> Seq<char> {
        match self {
            Protocol::Tcp => "tcp"@,
            Protocol::Udp => "udp"@,
        }
    }

    /// Renders the lower-case name.
    pub fn to_string(&self) -> (s: String)
        ensures
            s@ == self.name(),
    {
        match self {
            Protocol::Tcp => "tcp".to_string(),
            Protocol::Udp => "udp".to_string(),
        }
    }
}

/// A 48-bit Ethernet MAC address.
///
/// Identical across all VMs by design: the datapath is routed, never bridged.
#[derive(Clone, Copy, PartialEq, Eq, Hash, Debug)]
pub struct MacAddr(pub [u8; 6]);

/// Bytes as hex pairs with a colon between each two.
pub open spec fn colon_hex(b: Seq<u8>) -> Seq<char>
    decreases b.len(),
{
    if b.len() == 0 {
        Seq::empty()
    } else if b.len() == 1 {
        hex_byte(b[0])
    } else {
        colon_hex(b.drop_last()).push(':') + hex_byte(b.last())
    }
}

impl MacAddr {
    /// Renders the address as colon-separated hex pairs.
    pub fn to_string(&self) -> (s: String)
        ensures
            s@ == colon_hex(self.0@),
    {
        let mut s = String::new();
        let mut i: usize = 0;
        let ghost b = self.0@;
        assert(b.subrange(0, 0) =~= Seq::<u8>::empty());
        while i < 6
            invariant
                i <= 6,
                b == self.0@,
                s@ == colon_hex(b.subrange(0, i as int)),
            decreases 6 - i,
        {
            if i > 0 {
                s.push(':');
            }
            push_hex(&mut s, self.0[i]);
            proof {
                let next = b.subrange(0, i + 1);
                assert(next.drop_last() =~= b.subrange(0, i as int));
                if i == 0 {
                    assert(s@ =~= colon_hex(next));
                }
            }
            i += 1;
        }
        assert(b.subrange(0, 6) =~= b);
        s
    }
}

/// Host-wide network facts produced when the network is initialised.
#[derive(Clone, Copy, Debug, PartialEq, Eq)]
pub struct HostNetwork {
    /// Address of the host-local services interface (DNS, proxy bind to it).
    pub services_addr: [u8; 4],
    /// Port on `services_addr` where `Proxy`-level egress is intercepted.
    pub proxy_port: u16,
}

/// The slot-derived network resources for a single VM.
#[derive(Debug)]
pub struct NetworkFixture {
    /// The slot these resources derive from.
    pub slot: SlotId,
    /// Network namespace name, e.g. `vm7fff`.
    pub netns: String,
    /// TAP device name inside the namespace.
    pub tap: String,
    /// Host-side veth interface name.
    pub veth_host: String,
    /// Namespace-side veth interface name.
    pub veth_netns: String,
    /// Host-side veth address (the `/31` base).
    pub vh_ip: [u8; 4],
    /// Namespace-side veth address (`vh_ip + 1`): the host-unique identity of
    /// the VM after the in-netns SNAT.
    pub vp_ip: [u8; 4],
    /// Guest MAC (constant across VMs; routed datapath).
    pub mac: MacAddr,
}

/// The three egress levels governing a VM's **external** traffic.
#[derive(Clone, Copy, Debug, PartialEq, Eq, Structural)]
pub enum EgressMode {
    /// Direct internet egress, **bypassing the proxy**.
    Allow,
    /// Internet egress is **transparently intercepted by the proxy**.
    Proxy,
    /// **No external egress.**
    Deny,
}

/// A host port exposed to the internet that DNATs through to a VM port.
///
/// The pair `(host_port, proto)` is the identity of a forward within a policy
/// and must be unique across the policy's [`NetworkPolicy::ingress`].
#[derive(Clone, Copy, Debug, PartialEq, Eq, Hash, Structural)]
pub struct PortForward {
    /// Port opened on the host uplink.
    pub host_port: u16,
    /// Destination port on the VM's constant inner address.
    pub vm_port: u16,
    /// Protocol the forward applies to.
    pub proto: Protocol,
}

/// The **complete desired network state** for a slot.
///
/// The default is **deny-by-default**: [`EgressMode::Deny`] with no ingress.
#[derive(Debug)]
pub struct NetworkPolicy {
    /// How VM-initiated egress is treated.
    pub egress: EgressMode,
    /// The full set of host port forwards that should exist. Anything not
    /// listed is removed; `(host_port, proto)` must be unique within the set.
    pub ingress: Vec<PortForward>,
    /// Whether egress leaves without address translation at the uplink.
    pub direct: bool,
}

impl Default for NetworkPolicy {
    fn default() -> (p: Self)
        ensures
            p.egress == EgressMode::Deny,
            p.ingress@ == Seq::<PortForward>::empty(),
            !p.direct,
    {
        NetworkPolicy { egress: EgressMode::Deny, ingress: Vec::new(), direct: false }
    }
}

/// An address that a server listens on.
#[derive(Debug)]
pub struct Bind {
    pub ip: String,
    /// Whether that is no address of its own but all of the host's: `0.0.0.0` or
    /// `::`.
    pub unspecified: bool,
}

impl Bind {
    /// The address to dial, where there is one.
    pub open spec fn dialled(self) -> Option<Seq<char>> {
        if self.unspecified {
            None
        } else {
            Some(self.ip@)
        }
    }
}

/// Whether two forwards are of one identity: the same host port and protocol.
pub open spec fn same_forward(a: PortForward, b: PortForward) -> bool {
    a.host_port == b.host_port && a.proto == b.proto
}

/// Whether forward `i` repeats the identity of an earlier one.
pub open spec fn repeats(v: Seq<PortForward>, i: int) -> bool {
    exists|j: int| 0 <= j < i && same_forward(#[trigger] v[j], v[i])
}

impl NetworkPolicy {
    /// Rejects a policy that lists the same `(host_port, proto)` twice, naming
    /// the first forward that repeats an earlier one.
    pub fn check(&self) -> (r: Result<(), Error>)
        ensures
            match r {
                Ok(_) => forall|i: int| 0 <= i < self.ingress@.len() ==> !repeats(self.ingress@, i),
                Err(e) => exists|i: int|
                    {
                        &&& 0 <= i < self.ingress@.len()
                        &&& #[trigger] repeats(self.ingress@, i)
                        &&& forall|k: int| 0 <= k < i ==> !repeats(self.ingress@, k)
                        &&& e == (Error::DuplicatePortForward {
                            host_port: self.ingress@[i].host_port,
                            proto: self.ingress@[i].proto,
                        })
                    },
            },
    {
        let v = &self.ingress;
        let mut i: usize = 0;
        while i < v.len()
            invariant
                i <= v.len(),
                *v == self.ingress,
                forall|k: int| 0 <= k < i ==> !repeats(v@, k),
            decreases v.len() - i,
        {
            let mut j: usize = 0;
            while j < i
                invariant
                    j <= i < v.len(),
                    *v == self.ingress,
                    forall|k: int| 0 <= k < i ==> !repeats(v@, k),
                    forall|k: int| 0 <= k < j ==> !same_forward(v@[k], v@[i as int]),
                decreases i - j,
            {
                if v[j].host_port == v[i].host_port && v[j].proto == v[i].proto {
                    assert(same_forward(v@[j as int], v@[i as int]));
                    assert(repeats(v@, i as int));
                    return Err(
                        Error::DuplicatePortForward { host_port: v[i].host_port, proto: v[i].proto },
                    );
                }
                j += 1;
            }
            i += 1;
        }
        Ok(())
    }
}

/// **Law.** A policy without a repeated forward opens each host port at most once
/// for each protocol; the same port for the other protocol is another forward.
pub proof fn law_forwards_have_identities_of_their_own(v: Seq<PortForward>)
    ensures
        (forall|i: int| 0 <= i < v.len() ==> !repeats(v, i)) <==> (forall|i: int, j: int|
            0 <= i < v.len() && 0 <= j < v.len() && i != j ==> !((#[trigger] v[i]).host_port == (
            #[trigger] v[j]).host_port && v[i].proto == v[j].proto)),
{
    if forall|i: int| 0 <= i < v.len() ==> !repeats(v, i) {
        assert forall|i: int, j: int|
            0 <= i < v.len() && 0 <= j < v.len() && i != j implies !((#[trigger] v[i]).host_port == (
        #[trigger] v[j]).host_port && v[i].proto == v[j].proto) by {
            if i < j {
                assert(!repeats(v, j));
                assert(!same_forward(v[i], v[j]));
            } else {
                assert(!repeats(v, i));
                assert(!same_forward(v[j], v[i]));
            }
        }
    }
    if forall|i: int, j: int|
        0 <= i < v.len() && 0 <= j < v.len() && i != j ==> !((#[trigger] v[i]).host_port == (
        #[trigger] v[j]).host_port && v[i].proto == v[j].proto) {
        assert forall|i: int| 0 <= i < v.len() implies !repeats(v, i) by {
            if repeats(v, i) {
                let j = choose|j: int| 0 <= j < i && same_forward(#[trigger] v[j], v[i]);
                assert(v[j].host_port == v[i].host_port);
            }
        }
    }
}

} // verus!
