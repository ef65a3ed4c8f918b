//! The dual-horizon DNS server's decisions: names inside the internal zone are
//! answered from it; other names are forwarded, and their addresses are reported
//! so that a connection can later be put to a name.

use crate::text::{concat2, ends_with, finishes, lower, lowered, trim_end_char, without_trailing};
use vstd::prelude::*;
use vstd::string::*;

verus! {

/// The internal zone and the metadata name within it.
pub const LOCAL_ZONE: &'static str = "iso.internal.";

pub const METADATA_NAME: &'static str = "metadata.iso.internal.";

/// How long an answer without addresses is good for, in seconds.
pub const EMPTY_TTL: u32 = 60;

/// What a query asks for.
#[derive(Clone, Copy, Debug, PartialEq, Eq, Structural)]
pub enum QueryType {
    A,
    Aaaa,
    Other,
}

/// What is done with a query.
#[derive(Debug)]
pub enum Route {
    /// The catalog of zones answers it.
    Catalog,
    /// It is answered with no records: guests have no IPv6 route.
    NoData,
    /// The name is looked up, so that the answer can be observed.
    Resolve { domain: String },
}

/// Whether a name lies in the internal zone.
pub open spec fn internal(name: Seq<char>) -> bool {
    finishes(lowered(name), LOCAL_ZONE@)
}

/// The name that is looked up and remembered: without dots at its end, in lower
/// case.
pub open spec fn domain_of(name: Seq<char>) -> Seq<char> {
    lowered(without_trailing(name, '.'))
}

/// Whether `r` is what is done with a query.
pub open spec fn routes(kind: QueryType, name: Seq<char>, r: Route) -> bool {
    if internal(name) || kind == QueryType::Other {
        r is Catalog
    } else if kind == QueryType::Aaaa {
        r is NoData
    } else {
        r matches Route::Resolve { domain } && domain@ == domain_of(name)
    }
}

/// What is done with a query.
pub fn route(kind: QueryType, name: &str) -> (r: Route)
    ensures
        routes(kind, name@, r),
{
    if ends_with(lower(name).as_str(), LOCAL_ZONE) {
        return Route::Catalog;
    }
    match kind {
        QueryType::Other => Route::Catalog,
        QueryType::Aaaa => Route::NoData,
        QueryType::A => Route::Resolve {
            domain: lower(trim_end_char(name, '.').as_str()),
        },
    }
}

/// A record of a lookup: its address, where it is an address record, and how
/// long it is good for.
#[derive(Clone, Copy, Debug, PartialEq, Eq, Structural)]
pub struct Found {
    pub address: Option<u32>,
    pub ttl: u32,
}

/// What is sent back and reported.
#[derive(Debug)]
pub struct Answer {
    pub addresses: Vec<u32>,
    pub ttl: u32,
}

/// The addresses among some records, in order.
pub open spec fn addresses(v: Seq<Found>) -> Seq<u32>
    decreases v.len(),
{
    if v.len() == 0 {
        Seq::empty()
    } else {
        match v.last().address {
            Some(a) => addresses(v.drop_last()).push(a),
            None => addresses(v.drop_last()),
        }
    }
}

/// Whether `ttl` is how long an answer from some records is good for: as long as
/// the address that is good for the shortest time.
pub open spec fn shortest(v: Seq<Found>, ttl: u32) -> bool {
    if exists|i: int| 0 <= i < v.len() && (#[trigger] v[i]).address is Some {
        &&& exists|i: int| 0 <= i < v.len() && (#[trigger] v[i]).address is Some && v[i].ttl == ttl
        &&& forall|i: int|
            0 <= i < v.len() && (#[trigger] v[i]).address is Some ==> ttl <= v[i].ttl
    } else {
        ttl == EMPTY_TTL
    }
}

/// Whether `r` is what a lookup comes to.
pub open spec fn comes_to(lookup: Option<Vec<Found>>, r: Option<Answer>) -> bool {
    match lookup {
        None => r is None,
        Some(v) => r matches Some(a) && a.addresses@ == addresses(v@) && shortest(v@, a.ttl),
    }
}

/// What a lookup comes to. Where it failed, the catalog answers as it would
/// have, so the client sees the error that it always did.
pub fn resolved(lookup: &Option<Vec<Found>>) -> (r: Option<Answer>)
    ensures
        comes_to(*lookup, r),
{
    match lookup {
        None => None,
        Some(v) => {
            let mut out: Vec<u32> = Vec::new();
            let mut least: Option<u32> = None;
            let mut i: usize = 0;
            assert(v@.take(0) =~= Seq::<Found>::empty());
            while i < v.len()
                invariant
                    i <= v.len(),
                    out@ == addresses(v@.take(i as int)),
                    match least {
                        Some(t) => {
                            &&& exists|k: int|
                                0 <= k < i && (#[trigger] v@[k]).address is Some && v@[k].ttl == t
                            &&& forall|k: int|
                                0 <= k < i && (#[trigger] v@[k]).address is Some ==> t <= v@[k].ttl
                        },
                        None => forall|k: int| 0 <= k < i ==> (#[trigger] v@[k]).address is None,
                    },
                decreases v.len() - i,
            {
                proof {
                    let w = v@.take(i + 1);
                    assert(w.drop_last() =~= v@.take(i as int));
                    assert(w.last() == v@[i as int]);
                }
                let ghost before = least;
                if let Some(a) = v[i].address {
                    out.push(a);
                    let t: u32 = v[i].ttl;
                    least = match least {
                        Some(x) => if x <= t {
                            Some(x)
                        } else {
                            Some(t)
                        },
                        None => Some(t),
                    };
                    proof {
                        match before {
                            Some(x) => {
                                if x <= t {
                                    let k = choose|k: int|
                                        0 <= k < i && (#[trigger] v@[k]).address is Some
                                            && v@[k].ttl == x;
                                    assert(v@[k].ttl == x && k < i + 1);
                                } else {
                                    assert(v@[i as int].ttl == t);
                                }
                            },
                            None => {
                                assert(v@[i as int].ttl == t);
                            },
                        }
                    }
                } else {
                    proof {
                        if let Some(x) = before {
                            let k = choose|k: int|
                                0 <= k < i && (#[trigger] v@[k]).address is Some && v@[k].ttl == x;
                            assert(v@[k].ttl == x && k < i + 1);
                        }
                    }
                }
                i += 1;
            }
            assert(v@.take(i as int) =~= v@);
            let ttl: u32 = match least {
                Some(t) => t,
                None => EMPTY_TTL,
            };
            Some(Answer { addresses: out, ttl })
        },
    }
}

// ---- configuration ----

#[derive(Debug)]
pub struct DnsConfig {
    /// Address to bind UDP and TCP on.
    pub bind: ([u8; 4], u16),
    /// Upstream resolvers for the forward horizon.
    pub upstreams: Vec<[u8; 4]>,
    /// The services address that the metadata name resolves to.
    pub metadata_ip: [u8; 4],
}

impl Default for DnsConfig {
    fn default() -> (r: Self)
        ensures
            r.bind.0@ == seq![172u8, 22, 0, 1],
            r.bind.1 == 53,
            r.upstreams@.len() == 2,
            r.upstreams@[0]@ == seq![1u8, 1, 1, 1],
            r.upstreams@[1]@ == seq![8u8, 8, 8, 8],
            r.metadata_ip@ == seq![172u8, 22, 0, 1],
    {
        let r = DnsConfig {
            bind: ([172, 22, 0, 1], 53),
            upstreams: vec![[1, 1, 1, 1], [8, 8, 8, 8]],
            metadata_ip: [172, 22, 0, 1],
        };
        proof {
            assert(r.bind.0@ =~= seq![172u8, 22, 0, 1]);
            assert(r.upstreams@[0]@ =~= seq![1u8, 1, 1, 1]);
            assert(r.upstreams@[1]@ =~= seq![8u8, 8, 8, 8]);
            assert(r.metadata_ip@ =~= seq![172u8, 22, 0, 1]);
        }
        r
    }
}

/// The internal zone: its start of authority, and one address.
#[derive(Debug)]
pub struct LocalZone {
    pub origin: &'static str,
    pub primary: String,
    pub contact: String,
    pub serial: u32,
    pub refresh: i32,
    pub retry: i32,
    pub expire: i32,
    pub minimum: u32,
    pub ttl: u32,
    pub name: &'static str,
    pub address: [u8; 4],
}

impl LocalZone {
    /// Whether this is the zone with this metadata address.
    pub open spec fn answers_for(self, metadata_ip: [u8; 4]) -> bool {
        &&& self.origin@ == LOCAL_ZONE@
        &&& self.primary@ == "ns."@ + LOCAL_ZONE@
        &&& self.contact@ == "admin."@ + LOCAL_ZONE@
        &&& self.serial == 1
        &&& self.refresh == 3600
        &&& self.retry == 600
        &&& self.expire == 86400
        &&& self.minimum == 60
        &&& self.ttl == 60
        &&& self.name@ == METADATA_NAME@
        &&& self.address == metadata_ip
    }
}

/// The authoritative zone with the metadata address.
pub fn local_zone(metadata_ip: [u8; 4]) -> (r: LocalZone)
    ensures
        r.answers_for(metadata_ip),
{
    LocalZone {
        origin: LOCAL_ZONE,
        primary: concat2("ns.", LOCAL_ZONE),
        contact: concat2("admin.", LOCAL_ZONE),
        serial: 1,
        refresh: 3600,
        retry: 600,
        expire: 86400,
        minimum: 60,
        ttl: 60,
        name: METADATA_NAME,
        address: metadata_ip,
    }
}

/// **Law.** The metadata name is always answered from the internal zone,
/// whatever is asked of it: it is never looked up outside.
pub proof fn law_metadata_is_answered_here(kind: QueryType, r: Route)
    requires
        routes(kind, METADATA_NAME@, r),
    ensures
        r is Catalog,
{
    reveal_strlit("iso.internal.");
    reveal_strlit("metadata.iso.internal.");
    let m = lowered(METADATA_NAME@);
    assert(m.subrange(m.len() - LOCAL_ZONE@.len(), m.len() as int) =~= LOCAL_ZONE@);
}

/// **Law.** Every address that is sent back is reported with it, and none other:
/// an answer holds exactly the addresses that were found.
pub proof fn law_an_answer_holds_what_was_found(v: Seq<Found>, a: u32)
    ensures
        addresses(v).contains(a) <==> exists|i: int|
            0 <= i < v.len() && (#[trigger] v[i]).address == Some(a),
    decreases v.len(),
{
    if v.len() > 0 {
        let w = v.drop_last();
        law_an_answer_holds_what_was_found(w, a);
        if addresses(v).contains(a) {
            let k = choose|k: int| 0 <= k < addresses(v).len() && addresses(v)[k] == a;
            if v.last().address is Some && k == addresses(w).len() {
                assert(v[v.len() - 1].address == Some(a));
            } else {
                assert(addresses(w)[k] == a);
                let i = choose|i: int| 0 <= i < w.len() && (#[trigger] w[i]).address == Some(a);
                assert(v[i].address == Some(a));
            }
        }
        if exists|i: int| 0 <= i < v.len() && (#[trigger] v[i]).address == Some(a) {
            let i = choose|i: int| 0 <= i < v.len() && (#[trigger] v[i]).address == Some(a);
            if i == v.len() - 1 {
                assert(addresses(v)[addresses(w).len() as int] == a);
            } else {
                assert(w[i].address == Some(a));
                let k = choose|k: int| 0 <= k < addresses(w).len() && addresses(w)[k] == a;
                assert(addresses(v)[k] == a);
            }
        }
    }
}

/// **Law.** A name in the internal zone, in whatever case it is written, is never
/// looked up outside, and neither is a question for anything but an address. A
/// name outside has no IPv6 address; its IPv4 address is looked up under its
/// name in lower case without dots at its end.
pub proof fn law_the_internal_zone_stays_inside(kind: QueryType, name: Seq<char>, r: Route)
    requires
        routes(kind, name, r),
    ensures
        finishes(lowered(name), "iso.internal."@) ==> r is Catalog,
        kind == QueryType::Other ==> r is Catalog,
        !finishes(lowered(name), "iso.internal."@) && kind == QueryType::Aaaa ==> r is NoData,
        !finishes(lowered(name), "iso.internal."@) && kind == QueryType::A ==> (
        r matches Route::Resolve { domain } && domain@ == lowered(without_trailing(name, '.'))),
{
}

/// **Law.** An answer never outlives an address in it, and a lookup that failed is
/// answered as it would have been: with nothing made up.
pub proof fn law_an_answer_does_not_outlive_its_addresses(
    lookup: Option<Vec<Found>>,
    r: Option<Answer>,
)
    requires
        comes_to(lookup, r),
    ensures
        r is Some <==> lookup is Some,
        r matches Some(a) ==> {
            &&& forall|i: int|
                0 <= i < lookup->0@.len() && (#[trigger] lookup->0@[i]).address is Some ==> a.ttl
                    <= lookup->0@[i].ttl
            &&& forall|x: u32|
                a.addresses@.contains(x) <==> exists|i: int|
                    0 <= i < lookup->0@.len() && (#[trigger] lookup->0@[i]).address == Some(x)
            &&& a.addresses@.len() == 0 ==> a.ttl == 60
        },
{
    if let Some(a) = r {
        let v = lookup->0@;
        assert forall|x: u32| a.addresses@.contains(x) <==> exists|i: int|
            0 <= i < v.len() && (#[trigger] v[i]).address == Some(x) by {
            law_an_answer_holds_what_was_found(v, x);
        }
        if a.addresses@.len() == 0 {
            if exists|i: int| 0 <= i < v.len() && (#[trigger] v[i]).address is Some {
                let i = choose|i: int| 0 <= i < v.len() && (#[trigger] v[i]).address is Some;
                law_an_answer_holds_what_was_found(v, v[i].address->0);
                assert(addresses(v).contains(v[i].address->0));
            }
        }
    }
}

/// **Law.** The addresses of an answer stand in the order in which they were
/// found: what is found later stands behind.
pub proof fn law_addresses_keep_their_order(v: Seq<Found>, w: Seq<Found>)
    ensures
        addresses(v + w) == addresses(v) + addresses(w),
    decreases w.len(),
{
    if w.len() == 0 {
        assert(v + w =~= v);
        assert(addresses(v) + addresses(w) =~= addresses(v));
    } else {
        law_addresses_keep_their_order(v, w.drop_last());
        assert((v + w).drop_last() =~= v + w.drop_last());
        assert((v + w).last() == w.last());
        assert(addresses(v + w) =~= addresses(v) + addresses(w));
    }
}

/// **Law.** The metadata name is in the zone that answers for it, with the address
/// it was given: what is asked for under it never leaves, and its servers are
/// named inside it.
pub proof fn law_the_zone_answers_for_the_metadata(
    z: LocalZone,
    ip: [u8; 4],
    kind: QueryType,
    r: Route,
)
    requires
        z.answers_for(ip),
        routes(kind, z.name@, r),
    ensures
        z.address == ip,
        r is Catalog,
        finishes(z.name@, z.origin@),
        finishes(z.primary@, z.origin@),
        finishes(z.contact@, z.origin@),
        z.ttl == 60,
{
    law_metadata_is_answered_here(kind, r);
    reveal_strlit("iso.internal.");
    reveal_strlit("metadata.iso.internal.");
    let o = z.origin@;
    assert(z.name@.subrange(z.name@.len() - o.len(), z.name@.len() as int) =~= o);
    assert(z.primary@.subrange(z.primary@.len() - o.len(), z.primary@.len() as int) =~= o);
    assert(z.contact@.subrange(z.contact@.len() - o.len(), z.contact@.len() as int) =~= o);
}

} // verus!
