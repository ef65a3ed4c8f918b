//! What each VM resolved, recently. A guest that dials an address on a port with
//! no name in the handshake can only have got that address from the host's DNS,
//! so the name it resolved is the name a rule is matched against. An address a
//! VM never resolved has no name and is refused.
//!
//! Addresses are IPv4, as numbers; times are milliseconds of a clock that never
//! goes back.

use crate::text::text_of;
use std::collections::HashMap;
use vstd::prelude::*;
use vstd::string::*;

verus! {

/// Below this, an answer's TTL is not trusted to bound when the guest dials, in
/// seconds: a connection pool dials long after the lookup.
pub const MIN_LIFE: u32 = 600;

/// Entries per VM at which new names are taken only if old ones have expired, so
/// a guest resolving forever cannot grow this without bound.
pub const PER_VM: usize = 4096;

/// An address that was resolved, the name it was resolved from, and until when
/// that holds.
#[derive(Debug)]
pub struct Entry {
    pub address: u32,
    pub name: String,
    pub until: u64,
}

/// An entry, its name as a sequence.
pub ghost struct Known {
    pub address: u32,
    pub name: Seq<char>,
    pub until: u64,
}

/// Entries, their names as sequences.
pub open spec fn known(v: Seq<Entry>) -> Seq<Known> {
    v.map_values(|e: Entry| Known { address: e.address, name: e.name@, until: e.until })
}

/// Whether no address has two entries.
pub open spec fn one_each(v: Seq<Known>) -> bool {
    forall|i: int, j: int|
        0 <= i < j < v.len() ==> (#[trigger] v[i]).address != (#[trigger] v[j]).address
}

/// Where an address is, where it is there.
pub open spec fn place_of(v: Seq<Known>, a: u32) -> Option<int>
    decreases v.len(),
{
    if v.len() == 0 {
        None
    } else if v.last().address == a {
        Some(v.len() - 1)
    } else {
        place_of(v.drop_last(), a)
    }
}

/// The entries that have not expired, in order.
pub open spec fn live(v: Seq<Known>, now: u64) -> Seq<Known>
    decreases v.len(),
{
    if v.len() == 0 {
        Seq::empty()
    } else if v.last().until > now {
        live(v.drop_last(), now).push(v.last())
    } else {
        live(v.drop_last(), now)
    }
}

/// With an entry put in: over the one of its address, or at the end.
pub open spec fn put(v: Seq<Known>, e: Known) -> Seq<Known> {
    match place_of(v, e.address) {
        Some(i) => v.update(i, e),
        None => v.push(e),
    }
}

/// With each of some addresses put in, under one name.
pub open spec fn put_all(v: Seq<Known>, addrs: Seq<u32>, name: Seq<char>, until: u64) -> Seq<Known>
    decreases addrs.len(),
{
    if addrs.len() == 0 {
        v
    } else {
        put(
            put_all(v, addrs.drop_last(), name, until),
            Known { address: addrs.last(), name, until },
        )
    }
}

/// What a VM's entries become when it resolved a name: where they are many, the
/// expired ones go first, and where they are still many, nothing is added.
pub open spec fn learned(
    v: Seq<Known>,
    addrs: Seq<u32>,
    name: Seq<char>,
    until: u64,
    now: u64,
) -> Seq<Known> {
    let kept = if v.len() >= PER_VM {
        live(v, now)
    } else {
        v
    };
    if kept.len() >= PER_VM {
        kept
    } else {
        put_all(kept, addrs, name, until)
    }
}

/// Until when an answer holds.
pub open spec fn lives_until(now: u64, ttl_secs: u32) -> int {
    now + 1000 * if ttl_secs > MIN_LIFE {
        ttl_secs as int
    } else {
        MIN_LIFE as int
    }
}

proof fn lemma_place(v: Seq<Known>, a: u32)
    ensures
        match place_of(v, a) {
            Some(i) => 0 <= i < v.len() && v[i].address == a,
            None => forall|i: int| 0 <= i < v.len() ==> (#[trigger] v[i]).address != a,
        },
    decreases v.len(),
{
    if v.len() > 0 && v.last().address != a {
        lemma_place(v.drop_last(), a);
        if place_of(v.drop_last(), a) is None {
            assert forall|i: int| 0 <= i < v.len() implies (#[trigger] v[i]).address != a by {
                if i < v.len() - 1 {
                    assert(v.drop_last()[i] == v[i]);
                }
            }
        }
    }
}

proof fn lemma_put(v: Seq<Known>, e: Known)
    requires
        one_each(v),
    ensures
        one_each(put(v, e)),
        put(v, e).len() <= v.len() + 1,
        place_of(put(v, e), e.address) is Some,
        put(v, e)[place_of(put(v, e), e.address)->0] == e,
        forall|a: u32|
            a != e.address ==> (match (place_of(v, a), #[trigger] place_of(put(v, e), a)) {
                (Some(i), Some(j)) => v[i] == put(v, e)[j],
                (None, None) => true,
                _ => false,
            }),
{
    let r = put(v, e);
    lemma_place(v, e.address);
    lemma_place(r, e.address);
    assert forall|i: int, j: int| 0 <= i < j < r.len() implies (#[trigger] r[i]).address != (
    #[trigger] r[j]).address by {
        if place_of(v, e.address) is None && j == v.len() {
            assert(v[i].address != e.address);
        } else if place_of(v, e.address) is Some {
            let k = place_of(v, e.address)->0;
            if i == k {
                assert(v[k].address != v[j].address);
            } else if j == k {
                assert(v[i].address != v[k].address);
            } else {
                assert(v[i].address != v[j].address);
            }
        } else {
            assert(v[i].address != v[j].address);
        }
    }
    match place_of(v, e.address) {
        Some(k) => {
            assert(r[k] == e);
            let j = place_of(r, e.address)->0;
            if j < k {
                assert(r[j].address != r[k].address);
            } else if k < j {
                assert(r[k].address != r[j].address);
            }
        },
        None => {
            assert(r.last() == e);
        },
    }
    assert forall|a: u32| a != e.address implies (match (
        place_of(v, a),
        #[trigger] place_of(r, a),
    ) {
        (Some(i), Some(j)) => v[i] == r[j],
        (None, None) => true,
        _ => false,
    }) by {
        lemma_place(v, a);
        lemma_place(r, a);
        match (place_of(v, a), place_of(r, a)) {
            (Some(i), Some(j)) => {
                assert(r[i] == v[i]);
                if i < j {
                    assert(r[i].address != r[j].address);
                } else if j < i {
                    assert(r[j].address != r[i].address);
                }
            },
            (None, Some(j)) => {
                if place_of(v, e.address) is None {
                    if j < v.len() {
                        assert(v[j].address != a);
                    }
                } else if j != place_of(v, e.address)->0 {
                    assert(v[j].address != a);
                }
            },
            (Some(i), None) => {
                if i < r.len() {
                    assert(r[i].address != a);
                }
            },
            _ => {},
        }
    }
}

proof fn lemma_put_all(v: Seq<Known>, addrs: Seq<u32>, name: Seq<char>, until: u64)
    requires
        one_each(v),
    ensures
        one_each(put_all(v, addrs, name, until)),
        put_all(v, addrs, name, until).len() <= v.len() + addrs.len(),
        forall|a: u32|
            (match #[trigger] place_of(put_all(v, addrs, name, until), a) {
                Some(j) => if addrs.contains(a) {
                    put_all(v, addrs, name, until)[j] == (Known { address: a, name, until })
                } else {
                    place_of(v, a) matches Some(i) && v[i] == put_all(v, addrs, name, until)[j]
                },
                None => !addrs.contains(a) && place_of(v, a) is None,
            }),
    decreases addrs.len(),
{
    if addrs.len() > 0 {
        let w = addrs.drop_last();
        let p = put_all(v, w, name, until);
        let e = Known { address: addrs.last(), name, until };
        lemma_put_all(v, w, name, until);
        lemma_put(p, e);
        let r = put_all(v, addrs, name, until);
        assert forall|a: u32|
            (match #[trigger] place_of(r, a) {
                Some(j) => if addrs.contains(a) {
                    r[j] == (Known { address: a, name, until })
                } else {
                    place_of(v, a) matches Some(i) && v[i] == r[j]
                },
                None => !addrs.contains(a) && place_of(v, a) is None,
            }) by {
            if a == e.address {
                assert(addrs[addrs.len() - 1] == a);
            } else {
                let _ = place_of(p, a);
                if addrs.contains(a) {
                    let k = choose|k: int| 0 <= k < addrs.len() && addrs[k] == a;
                    assert(w[k] == a);
                }
                if w.contains(a) {
                    let k = choose|k: int| 0 <= k < w.len() && w[k] == a;
                    assert(addrs[k] == a);
                }
            }
        }
    } else {
        assert forall|a: u32|
            (match #[trigger] place_of(v, a) {
                Some(j) => place_of(v, a) matches Some(i) && v[i] == v[j],
                None => place_of(v, a) is None,
            }) by {}
    }
}

proof fn lemma_live(v: Seq<Known>, now: u64)
    requires
        one_each(v),
    ensures
        one_each(live(v, now)),
        live(v, now).len() <= v.len(),
        forall|i: int| 0 <= i < live(v, now).len() ==> v.contains(#[trigger] live(v, now)[i]),
    decreases v.len(),
{
    if v.len() > 0 {
        let w = v.drop_last();
        assert(one_each(w)) by {
            assert forall|i: int, j: int| 0 <= i < j < w.len() implies (#[trigger] w[i]).address
                != (#[trigger] w[j]).address by {
                assert(v[i].address != v[j].address);
            }
        }
        lemma_live(w, now);
        let l = live(w, now);
        let r = live(v, now);
        assert forall|i: int| 0 <= i < r.len() implies v.contains(#[trigger] r[i]) by {
            if i < l.len() {
                assert(w.contains(l[i]));
                let k = choose|k: int| 0 <= k < w.len() && w[k] == l[i];
                assert(v[k] == r[i]);
            } else {
                assert(v[v.len() - 1] == r[i]);
            }
        }
        assert forall|i: int, j: int| 0 <= i < j < r.len() implies (#[trigger] r[i]).address != (
        #[trigger] r[j]).address by {
            if j < l.len() {
                assert(l[i].address != l[j].address);
            } else {
                assert(w.contains(l[i]));
                let k = choose|k: int| 0 <= k < w.len() && w[k] == l[i];
                assert(v[k].address != v[v.len() - 1].address);
            }
        }
    }
}

fn find(v: &Vec<Entry>, a: u32) -> (r: Option<usize>)
    ensures
        match r {
            Some(i) => i < v.len() && place_of(known(v@), a) == Some(i as int),
            None => place_of(known(v@), a) is None,
        },
{
    let ghost k = known(v@);
    let mut n: usize = v.len();
    assert(k.take(n as int) =~= k);
    while n > 0
        invariant
            n <= v.len(),
            k == known(v@),
            place_of(k, a) == place_of(k.take(n as int), a),
        decreases n,
    {
        proof {
            let w = k.take(n as int);
            assert(w.last().address == v@[n - 1].address);
            assert(w.drop_last() =~= k.take(n - 1));
        }
        n -= 1;
        if v[n].address == a {
            return Some(n);
        }
    }
    None
}

fn keep_live(v: Vec<Entry>, now: u64) -> (r: Vec<Entry>)
    ensures
        known(r@) == live(known(v@), now),
{
    let ghost all = v@;
    let mut rest = v;
    let mut out: Vec<Entry> = Vec::new();
    let mut n: usize = 0;
    let total: usize = rest.len();
    assert(all.skip(0) =~= all);
    assert(known(all).take(0) =~= Seq::<Known>::empty());
    assert(known(out@) =~= Seq::<Known>::empty());
    while n < total
        invariant
            n <= total,
            total == all.len(),
            rest@ == all.skip(n as int),
            known(out@) == live(known(all).take(n as int), now),
        decreases total - n,
    {
        let e = rest.remove(0);
        proof {
            assert(e == all[n as int]);
            assert(rest@ =~= all.skip(n + 1));
            let w = known(all).take(n + 1);
            assert(w.drop_last() =~= known(all).take(n as int));
        }
        if e.until > now {
            let ghost had = out@;
            out.push(e);
            assert(known(out@) =~= known(had).push(known(all)[n as int]));
        }
        n += 1;
    }
    assert(known(all).take(n as int) =~= known(all));
    out
}

/// What every VM resolved.
#[derive(Debug)]
pub struct DnsMemory {
    vms: HashMap<u32, Vec<Entry>>,
}

impl DnsMemory {
    /// What a VM resolved.
    pub closed spec fn of(self, src: u32) -> Seq<Known> {
        if self.vms@.contains_key(src) {
            known(self.vms@[src]@)
        } else {
            Seq::empty()
        }
    }

    /// No VM has two entries for one address.
    pub closed spec fn wf(self) -> bool {
        forall|src: u32| one_each(#[trigger] self.of(src))
    }

    /// Nothing was resolved yet.
    pub fn new() -> (r: DnsMemory)
        ensures
            r.wf(),
            forall|src: u32| #[trigger] r.of(src) == Seq::<Known>::empty(),
    {
        DnsMemory { vms: HashMap::new() }
    }

    /// Records that a VM resolved a name to some addresses. Nothing is recorded
    /// of a caller without an IPv4 address.
    pub fn record(&mut self, src: Option<u32>, name: &str, addrs: &Vec<u32>, ttl_secs: u32, now: u64)
        requires
            old(self).wf(),
            lives_until(now, ttl_secs) <= u64::MAX,
        ensures
            final(self).wf(),
            match src {
                None => *final(self) == *old(self),
                Some(s) => {
                    &&& final(self).of(s) == learned(
                        old(self).of(s),
                        addrs@,
                        name@,
                        lives_until(now, ttl_secs) as u64,
                        now,
                    )
                    &&& forall|other: u32|
                        other != s ==> #[trigger] final(self).of(other) == old(self).of(other)
                },
            },
    {
        broadcast use vstd::std_specs::hash::group_hash_axioms;

        let s: u32 = match src {
            Some(s) => s,
            None => return ,
        };
        let life: u64 = if ttl_secs > MIN_LIFE {
            ttl_secs as u64
        } else {
            MIN_LIFE as u64
        };
        let until: u64 = now + 1000 * life;
        let ghost before = self.of(s);
        let mut mine: Vec<Entry> = match self.vms.remove(&s) {
            Some(v) => v,
            None => Vec::new(),
        };
        assert(known(mine@) =~= before);
        assert(one_each(before));
        if mine.len() >= PER_VM {
            mine = keep_live(mine, now);
            proof {
                lemma_live(before, now);
            }
        }
        let ghost kept = known(mine@);
        if mine.len() < PER_VM {
            let mut i: usize = 0;
            assert(addrs@.take(0) =~= Seq::<u32>::empty());
            while i < addrs.len()
                invariant
                    i <= addrs.len(),
                    one_each(kept),
                    known(mine@) == put_all(kept, addrs@.take(i as int), name@, until),
                decreases addrs.len() - i,
            {
                proof {
                    let w = addrs@.take(i + 1);
                    assert(w.drop_last() =~= addrs@.take(i as int));
                    assert(w.last() == addrs@[i as int]);
                }
                let e = Entry { address: addrs[i], name: name.to_string(), until };
                let ghost k = Known { address: e.address, name: e.name@, until };
                let ghost had = mine@;
                match find(&mine, e.address) {
                    Some(at) => {
                        mine.set(at, e);
                        assert(known(mine@) =~= known(had).update(at as int, k));
                    },
                    None => {
                        mine.push(e);
                        assert(known(mine@) =~= known(had).push(k));
                    },
                }
                i += 1;
            }
            proof {
                assert(addrs@.take(i as int) =~= addrs@);
                lemma_put_all(kept, addrs@, name@, until);
            }
        }
        self.vms.insert(s, mine);
        proof {
            assert forall|src: u32| one_each(#[trigger] self.of(src)) by {
                if src != s {
                    assert(self.of(src) == old(self).of(src));
                }
            }
        }
    }

    /// The name that `src` resolved `dst` from, if it did and the entry lives.
    pub fn name_for(&self, src: u32, dst: u32, now: u64) -> (r: Option<String>)
        ensures
            text_of(r) == resolved_from(self.of(src), dst, now),
    {
        broadcast use vstd::std_specs::hash::group_hash_axioms;

        match self.vms.get(&src) {
            Some(v) => match find(v, dst) {
                Some(at) => if v[at].until > now {
                    Some(v[at].name.clone())
                } else {
                    None
                },
                None => None,
            },
            None => None,
        }
    }

    /// Drops everything a VM resolved, when the VM is gone.
    pub fn forget(&mut self, src: u32)
        requires
            old(self).wf(),
        ensures
            final(self).wf(),
            final(self).of(src) == Seq::<Known>::empty(),
            forall|other: u32|
                other != src ==> #[trigger] final(self).of(other) == old(self).of(other),
    {
        broadcast use vstd::std_specs::hash::group_hash_axioms;

        let _ = self.vms.remove(&src);
        proof {
            assert forall|s: u32| one_each(#[trigger] self.of(s)) by {
                if s != src {
                    assert(self.of(s) == old(self).of(s));
                }
            }
        }
    }
}

/// The name that an address was resolved from, where it was and that still holds.
pub open spec fn resolved_from(v: Seq<Known>, dst: u32, now: u64) -> Option<Seq<char>> {
    match place_of(v, dst) {
        Some(i) => if v[i].until > now {
            Some(v[i].name)
        } else {
            None
        },
        None => None,
    }
}

/// **Law.** The latest answer wins: where there is room, each address of an
/// answer is known by its name until the answer expires.
pub proof fn law_the_latest_answer_wins(
    v: Seq<Known>,
    addrs: Seq<u32>,
    name: Seq<char>,
    until: u64,
    now: u64,
    then: u64,
    a: u32,
)
    requires
        one_each(v),
        v.len() < PER_VM,
        addrs.contains(a),
        then < until,
    ensures
        resolved_from(learned(v, addrs, name, until, now), a, then) == Some(name),
{
    lemma_put_all(v, addrs, name, until);
    let _ = place_of(learned(v, addrs, name, until, now), a);
}

/// **Law.** An address that a VM did not resolve gets no name by what it does
/// resolve: an answer only adds its own addresses.
pub proof fn law_only_what_was_resolved_has_a_name(
    v: Seq<Known>,
    addrs: Seq<u32>,
    name: Seq<char>,
    until: u64,
    now: u64,
    then: u64,
    a: u32,
)
    requires
        one_each(v),
        !addrs.contains(a),
        resolved_from(v, a, then) is None,
        now <= then,
    ensures
        resolved_from(learned(v, addrs, name, until, now), a, then) is None,
{
    let kept = if v.len() >= PER_VM {
        live(v, now)
    } else {
        v
    };
    lemma_live(v, now);
    lemma_place(v, a);
    lemma_place(kept, a);
    if let Some(i) = place_of(kept, a) {
        if v.len() >= PER_VM {
            assert(v.contains(kept[i]));
            let k = choose|k: int| 0 <= k < v.len() && v[k] == kept[i];
            let j = place_of(v, a)->0;
            if k < j {
                assert(v[k].address != v[j].address);
            } else if j < k {
                assert(v[j].address != v[k].address);
            }
            assert(v[j] == kept[i]);
        }
    }
    if kept.len() < PER_VM {
        lemma_put_all(kept, addrs, name, until);
        let _ = place_of(put_all(kept, addrs, name, until), a);
    }
}

/// **Law.** A guest that resolves forever cannot grow the memory without bound:
/// an answer never takes a VM's entries above the limit by more than its own
/// addresses.
pub proof fn law_the_memory_is_bounded(
    v: Seq<Known>,
    addrs: Seq<u32>,
    name: Seq<char>,
    until: u64,
    now: u64,
)
    requires
        one_each(v),
    ensures
        one_each(learned(v, addrs, name, until, now)),
        learned(v, addrs, name, until, now).len() <= v.len() || learned(v, addrs, name, until, now).len()
            < PER_VM + addrs.len(),
{
    lemma_live(v, now);
    if v.len() >= PER_VM {
        if live(v, now).len() < PER_VM {
            lemma_put_all(live(v, now), addrs, name, until);
        }
    } else {
        lemma_put_all(v, addrs, name, until);
    }
}

/// **Law.** An answer is good for as long as it says, and for ten minutes at the
/// least: a name is there until then and gone from then on.
pub proof fn law_an_answer_is_good_for_its_time(now: u64, ttl_secs: u32, v: Seq<Known>, a: u32)
    ensures
        lives_until(now, ttl_secs) >= now + 600_000,
        lives_until(now, ttl_secs) >= now + 1000 * ttl_secs,
        ttl_secs <= 600 ==> lives_until(now, ttl_secs) == now + 600_000,
        ttl_secs >= 600 ==> lives_until(now, ttl_secs) == now + 1000 * ttl_secs,
        place_of(v, a) matches Some(i) ==> forall|then: u64|
            (#[trigger] resolved_from(v, a, then)) is Some <==> then < v[i].until,
{
}

proof fn lemma_live_keeps(v: Seq<Known>, now: u64, i: int)
    requires
        0 <= i < v.len(),
        v[i].until > now,
    ensures
        live(v, now).contains(v[i]),
    decreases v.len(),
{
    let w = v.drop_last();
    let l = live(w, now);
    let r = live(v, now);
    if i < w.len() {
        lemma_live_keeps(w, now, i);
        let k = choose|k: int| 0 <= k < l.len() && l[k] == w[i];
        assert(r[k] == v[i]);
    } else {
        assert(r[r.len() - 1] == v[i]);
    }
}

/// **Law.** A name that a VM has is not taken from it by what it resolves next:
/// until it expires, only an answer with the same address changes it.
pub proof fn law_a_name_is_kept_until_it_expires(
    v: Seq<Known>,
    addrs: Seq<u32>,
    name: Seq<char>,
    until: u64,
    now: u64,
    then: u64,
    a: u32,
)
    requires
        one_each(v),
        !addrs.contains(a),
        resolved_from(v, a, then) is Some,
        now <= then,
    ensures
        resolved_from(learned(v, addrs, name, until, now), a, then) == resolved_from(v, a, then),
{
    let kept = if v.len() >= PER_VM {
        live(v, now)
    } else {
        v
    };
    lemma_place(v, a);
    lemma_live(v, now);
    lemma_place(kept, a);
    let i = place_of(v, a)->0;
    if v.len() >= PER_VM {
        lemma_live_keeps(v, now, i);
        let k = choose|k: int| 0 <= k < kept.len() && kept[k] == v[i];
        assert(kept[k].address == a);
        let j = place_of(kept, a)->0;
        if j < k {
            assert(kept[j].address != kept[k].address);
        } else if k < j {
            assert(kept[k].address != kept[j].address);
        }
        assert(kept[j] == v[i]);
    }
    if kept.len() < PER_VM {
        lemma_put_all(kept, addrs, name, until);
        let _ = place_of(put_all(kept, addrs, name, until), a);
    }
}

} // verus!
