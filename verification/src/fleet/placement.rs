//! Which host gets a VM. Filter to the hosts that can take it, then least loaded
//! first. Capacity is only a hint here: the host enforces it, and a create that
//! loses a race for the last slot moves to the next candidate.

use crate::fleet::store::HostRow;
use crate::text::{lemma_order, list_has, no_later, same, text_le, texts_of};
use vstd::prelude::*;
use vstd::string::*;

verus! {

/// Whether a host can be asked: healthy, the one that was asked for where one
/// was, with the template and a free slot.
pub open spec fn fits(h: HostRow, template: Seq<char>, pin: Option<Seq<char>>) -> bool {
    &&& h.healthy
    &&& pin is Some ==> pin->0 == h.name@
    &&& texts_of(h.templates@).contains(template)
    &&& h.slots_free > 0
}

/// The free share of a host as a fraction: of a host without slots none is free.
pub open spec fn free_share(h: HostRow) -> (int, int) {
    if h.slots_total == 0 {
        (0, 1)
    } else {
        (h.slots_free as int, h.slots_total as int)
    }
}

/// Whether `a` is less loaded than `b`: a larger share of its slots is free.
pub open spec fn less_loaded(a: HostRow, b: HostRow) -> bool {
    free_share(a).0 * free_share(b).1 > free_share(b).0 * free_share(a).1
}

/// Whether `a` is to be asked before `b`, unless they tie: by load, and by name
/// where that is equal.
pub open spec fn ahead(a: HostRow, b: HostRow) -> bool {
    less_loaded(a, b) || (!less_loaded(b, a) && no_later(a.name@, b.name@))
}

/// Whether `r` lists, by their places, exactly the hosts that fit, best first;
/// of two that tie, the earlier.
pub open spec fn ranks(
    hosts: Seq<HostRow>,
    template: Seq<char>,
    pin: Option<Seq<char>>,
    r: Seq<int>,
) -> bool {
    &&& forall|k: int|
        0 <= k < r.len() ==> 0 <= (#[trigger] r[k]) < hosts.len() && fits(
            hosts[r[k]],
            template,
            pin,
        )
    &&& forall|i: int|
        0 <= i < hosts.len() && fits(#[trigger] hosts[i], template, pin) ==> r.contains(i)
    &&& forall|j: int, k: int|
        0 <= j < k < r.len() ==> first(hosts, #[trigger] r[j], #[trigger] r[k])
}

/// Whether the host at one place is asked before that at another.
pub open spec fn first(hosts: Seq<HostRow>, i: int, j: int) -> bool {
    ahead(hosts[i], hosts[j]) && (ahead(hosts[j], hosts[i]) ==> i < j)
}

proof fn lemma_shares(a: HostRow, b: HostRow, c: HostRow)
    ensures
        !less_loaded(a, a),
        less_loaded(a, b) ==> !less_loaded(b, a),
        less_loaded(a, b) && !less_loaded(c, b) ==> less_loaded(a, c),
        !less_loaded(b, a) && less_loaded(b, c) ==> less_loaded(a, c),
        !less_loaded(b, a) && !less_loaded(c, b) ==> !less_loaded(c, a),
{
    let (p, q) = free_share(a);
    let (s, t) = free_share(b);
    let (u, v) = free_share(c);
    assert(q > 0 && t > 0 && v > 0 && p >= 0 && s >= 0 && u >= 0);
    assert(p * t > s * q && s * v >= u * t ==> p * v > u * q) by (nonlinear_arith)
        requires
            q > 0,
            t > 0,
            v > 0,
            p >= 0,
            s >= 0,
            u >= 0,
    {
        if p * t > s * q && s * v >= u * t {
            // multiply out: p t v > s q v >= u t q
            assert(p * t * v > s * q * v);
            assert(s * v * q >= u * t * q);
            assert((p * v) * t > (u * q) * t);
        }
    }
    assert(p * t >= s * q && s * v > u * t ==> p * v > u * q) by (nonlinear_arith)
        requires
            q > 0,
            t > 0,
            v > 0,
            p >= 0,
            s >= 0,
            u >= 0,
    {
        if p * t >= s * q && s * v > u * t {
            assert(p * t * v >= s * q * v);
            assert(s * v * q > u * t * q);
            assert((p * v) * t > (u * q) * t);
        }
    }
    assert(p * t >= s * q && s * v >= u * t ==> p * v >= u * q) by (nonlinear_arith)
        requires
            q > 0,
            t > 0,
            v > 0,
            p >= 0,
            s >= 0,
            u >= 0,
    {
        if p * t >= s * q && s * v >= u * t {
            assert(p * t * v >= s * q * v);
            assert(s * v * q >= u * t * q);
            assert((p * v) * t >= (u * q) * t);
        }
    }
}

/// Hosts are ordered: any two compare, and the order is transitive.
proof fn lemma_ahead(a: HostRow, b: HostRow, c: HostRow)
    ensures
        ahead(a, a),
        ahead(a, b) || ahead(b, a),
        ahead(a, b) && ahead(b, c) ==> ahead(a, c),
{
    lemma_shares(a, b, c);
    lemma_shares(a, a, a);
    lemma_order(a.name@, b.name@, c.name@);
}

fn is_less_loaded(a: &HostRow, b: &HostRow) -> (r: bool)
    ensures
        r == less_loaded(*a, *b),
{
    let (p, q): (u64, u64) = if a.slots_total == 0 {
        (0, 1)
    } else {
        (a.slots_free as u64, a.slots_total as u64)
    };
    let (s, t): (u64, u64) = if b.slots_total == 0 {
        (0, 1)
    } else {
        (b.slots_free as u64, b.slots_total as u64)
    };
    assert(0 <= p * t <= u32::MAX * u32::MAX && 0 <= s * q <= u32::MAX * u32::MAX)
        by (nonlinear_arith)
        requires
            0 <= p <= u32::MAX,
            0 <= q <= u32::MAX,
            0 <= s <= u32::MAX,
            0 <= t <= u32::MAX,
    ;
    p * t > s * q
}

fn is_ahead(a: &HostRow, b: &HostRow) -> (r: bool)
    ensures
        r == ahead(*a, *b),
{
    is_less_loaded(a, b) || (!is_less_loaded(b, a) && text_le(a.name.as_str(), b.name.as_str()))
}

fn can_take(h: &HostRow, template: &str, pin: Option<&str>) -> (r: bool)
    ensures
        r == fits(
            *h,
            template@,
            pinned(pin),
        ),
{
    let wanted = match pin {
        Some(p) => same(p, h.name.as_str()),
        None => true,
    };
    h.healthy && wanted && list_has(&h.templates, template) && h.slots_free > 0
}

/// What a pin says.
pub open spec fn pinned(pin: Option<&str>) -> Option<Seq<char>> {
    match pin {
        Some(p) => Some(p@),
        None => None,
    }
}

/// What a ranking is after the hosts up to some place.
spec fn ranked_so_far(
    hosts: Seq<HostRow>,
    n: int,
    template: Seq<char>,
    pin: Option<Seq<char>>,
    r: Seq<usize>,
) -> bool {
    &&& forall|k: int|
        0 <= k < r.len() ==> 0 <= (#[trigger] r[k]) < n && fits(hosts[r[k] as int], template, pin)
    &&& forall|i: int|
        0 <= i < n && fits(#[trigger] hosts[i], template, pin) ==> r.contains(i as usize)
    &&& forall|j: int, k: int|
        0 <= j < k < r.len() ==> first(hosts, (#[trigger] r[j]) as int, (#[trigger] r[k]) as int)
}

proof fn lemma_insert(
    hosts: Seq<HostRow>,
    n: usize,
    template: Seq<char>,
    pin: Option<Seq<char>>,
    r: Seq<usize>,
    at: int,
)
    requires
        n < hosts.len() <= usize::MAX,
        ranked_so_far(hosts, n as int, template, pin, r),
        fits(hosts[n as int], template, pin),
        0 <= at <= r.len(),
        at > 0 ==> ahead(hosts[r[at - 1] as int], hosts[n as int]),
        forall|k: int| at <= k < r.len() ==> !ahead(hosts[(#[trigger] r[k]) as int], hosts[n as int]),
    ensures
        ranked_so_far(hosts, n + 1, template, pin, r.insert(at, n)),
{
    let s = r.insert(at, n);
    let h = hosts[n as int];
    assert forall|i: int| 0 <= i < n + 1 && fits(#[trigger] hosts[i], template, pin) implies s.contains(
        i as usize,
    ) by {
        if i == n {
            assert(s[at] == n);
        } else {
            let k = choose|k: int| 0 <= k < r.len() && r[k] == i as usize;
            if k < at {
                assert(s[k] == r[k]);
            } else {
                assert(s[k + 1] == r[k]);
            }
        }
    }
    assert forall|k: int| 0 <= k < s.len() implies 0 <= (#[trigger] s[k]) < n + 1 && fits(
        hosts[s[k] as int],
        template,
        pin,
    ) by {
        if k < at {
            assert(s[k] == r[k]);
        } else if k > at {
            assert(s[k] == r[k - 1]);
        }
    }
    assert forall|j: int, k: int| 0 <= j < k < s.len() implies first(
        hosts,
        (#[trigger] s[j]) as int,
        (#[trigger] s[k]) as int,
    ) by {
        if j < at && k < at {
            assert(s[j] == r[j] && s[k] == r[k]);
        } else if j < at && k == at {
            assert(s[j] == r[j]);
            assert(0 <= r[j] < n);
            if j < at - 1 {
                assert(first(hosts, r[j] as int, r[at - 1] as int));
                lemma_ahead(hosts[r[j] as int], hosts[r[at - 1] as int], h);
            }
        } else if j < at && k > at {
            assert(s[j] == r[j] && s[k] == r[k - 1]);
        } else if j == at {
            assert(s[k] == r[k - 1]);
            lemma_ahead(h, hosts[r[k - 1] as int], h);
        } else {
            assert(s[j] == r[j - 1] && s[k] == r[k - 1]);
        }
    }
}

/// The hosts that can take a VM from `template`, best first, by their places. A
/// `pin` restricts to one host.
pub fn rank(hosts: &Vec<HostRow>, template: &str, pin: Option<&str>) -> (r: Vec<usize>)
    ensures
        ranks(
            hosts@,
            template@,
            pinned(pin),
            r@.map_values(|i: usize| i as int),
        ),
{
    let ghost p = pinned(pin);
    let mut out: Vec<usize> = Vec::new();
    let mut n: usize = 0;
    while n < hosts.len()
        invariant
            n <= hosts.len(),
            p == (pinned(pin)),
            ranked_so_far(hosts@, n as int, template@, p, out@),
        decreases hosts.len() - n,
    {
        if can_take(&hosts[n], template, pin) {
            let mut at: usize = out.len();
            while at > 0 && !is_ahead(&hosts[out[at - 1]], &hosts[n])
                invariant
                    at <= out.len(),
                    n < hosts.len(),
                    forall|k: int| 0 <= k < out@.len() ==> (#[trigger] out@[k]) < hosts.len(),
                    forall|k: int|
                        at <= k < out@.len() ==> !ahead(
                            hosts@[(#[trigger] out@[k]) as int],
                            hosts@[n as int],
                        ),
                decreases at,
            {
                at -= 1;
            }
            proof {
                lemma_insert(hosts@, n, template@, p, out@, at as int);
            }
            out.insert(at, n);
        } else {
            assert forall|i: int| 0 <= i < n + 1 && fits(#[trigger] hosts@[i], template@, p) implies out@.contains(
                i as usize,
            ) by {}
        }
        n += 1;
    }
    proof {
        let m = out@.map_values(|i: usize| i as int);
        assert forall|i: int| 0 <= i < hosts@.len() && fits(#[trigger] hosts@[i], template@, p) implies m.contains(
            i,
        ) by {
            let k = choose|k: int| 0 <= k < out@.len() && out@[k] == i as usize;
            assert(m[k] == i);
        }
        assert forall|j: int, k: int| 0 <= j < k < m.len() implies first(
            hosts@,
            #[trigger] m[j],
            #[trigger] m[k],
        ) by {
            assert(m[j] == out@[j] && m[k] == out@[k]);
        }
        assert forall|k: int| 0 <= k < m.len() implies 0 <= (#[trigger] m[k]) < hosts@.len()
            && fits(hosts@[m[k]], template@, p) by {
            assert(m[k] == out@[k]);
        }
    }
    out
}

/// Whether `r` holds the hosts at the places `at`.
pub open spec fn taken_from(hosts: Seq<HostRow>, at: Seq<int>, r: Seq<&HostRow>) -> bool {
    &&& r.len() == at.len()
    &&& forall|k: int| 0 <= k < r.len() ==> *(#[trigger] r[k]) == hosts[at[k]]
}

/// Candidate hosts for `template`, best first. A `pin` restricts to one host.
pub fn candidates<'a>(hosts: &'a Vec<HostRow>, template: &str, pin: Option<&str>) -> (r: Vec<
    &'a HostRow,
>)
    ensures
        exists|at: Seq<int>| #[trigger]
            ranks(
                hosts@,
                template@,
                pinned(pin),
                at,
            ) && taken_from(hosts@, at, r@),
{
    let places = rank(hosts, template, pin);
    let ghost at = places@.map_values(|i: usize| i as int);
    let mut out: Vec<&'a HostRow> = Vec::new();
    let mut i: usize = 0;
    while i < places.len()
        invariant
            i <= places.len(),
            at == places@.map_values(|i: usize| i as int),
            forall|k: int| 0 <= k < at.len() ==> 0 <= (#[trigger] at[k]) < hosts.len(),
            out.len() == i,
            forall|k: int| 0 <= k < i ==> *(#[trigger] out@[k]) == hosts@[at[k]],
        decreases places.len() - i,
    {
        assert(at[i as int] == places@[i as int]);
        out.push(&hosts[places[i]]);
        i += 1;
    }
    proof {
        assert(taken_from(hosts@, at, out@));
    }
    out
}

/// Whether some host has a template.
pub open spec fn known(hosts: Seq<HostRow>, template: Seq<char>) -> bool {
    exists|i: int|
        0 <= i < hosts.len() && texts_of((#[trigger] hosts[i]).templates@).contains(template)
}

/// Whether any host at all, healthy or not, has `template`: the difference
/// between "unknown template" and "no capacity right now".
pub fn template_known(hosts: &Vec<HostRow>, template: &str) -> (r: bool)
    ensures
        r == known(hosts@, template@),
{
    let mut i: usize = 0;
    while i < hosts.len()
        invariant
            i <= hosts.len(),
            forall|k: int|
                0 <= k < i ==> !texts_of((#[trigger] hosts@[k]).templates@).contains(template@),
        decreases hosts.len() - i,
    {
        if list_has(&hosts[i].templates, template) {
            return true;
        }
        i += 1;
    }
    false
}

/// **Law.** A ranking is the only one: there is one order in which hosts are
/// asked.
pub proof fn law_one_ranking(
    hosts: Seq<HostRow>,
    template: Seq<char>,
    pin: Option<Seq<char>>,
    a: Seq<int>,
    b: Seq<int>,
)
    requires
        ranks(hosts, template, pin, a),
        ranks(hosts, template, pin, b),
    ensures
        a == b,
{
    lemma_prefix(hosts, template, pin, a, b, a.len() as int);
    if a.len() < b.len() {
        let i = b[a.len() as int];
        assert(fits(hosts[i], template, pin));
        assert(a.contains(i));
        let k = choose|k: int| 0 <= k < a.len() && a[k] == i;
        assert(b[k] == i);
        assert(first(hosts, b[k], b[a.len() as int]));
    }
    assert(a =~= b);
}

proof fn lemma_prefix(
    hosts: Seq<HostRow>,
    template: Seq<char>,
    pin: Option<Seq<char>>,
    a: Seq<int>,
    b: Seq<int>,
    n: int,
)
    requires
        ranks(hosts, template, pin, a),
        ranks(hosts, template, pin, b),
        0 <= n <= a.len(),
    ensures
        n <= b.len(),
        forall|k: int| 0 <= k < n ==> a[k] == #[trigger] b[k],
    decreases n,
{
    if n > 0 {
        let m = n - 1;
        lemma_prefix(hosts, template, pin, a, b, m);
        let i = a[m];
        assert(b.contains(i));
        let k = choose|k: int| 0 <= k < b.len() && b[k] == i;
        if k < m {
            assert(a[k] == i);
            assert(first(hosts, a[k], a[m]));
        }
        if k > m {
            let j = b[m];
            assert(a.contains(j));
            let l = choose|l: int| 0 <= l < a.len() && a[l] == j;
            if l < m {
                assert(b[l] == j);
                assert(first(hosts, b[l], b[m]));
            } else if l > m {
                assert(first(hosts, a[m], a[l]));
                assert(first(hosts, b[m], b[k]));
            }
        }
    }
}

/// **Law.** The emptier host comes first: of two hosts with as many slots, the
/// one with more of them free; and of two with as many free, the one with fewer
/// in all. Equal shares are told apart by name alone.
pub proof fn law_the_emptier_host_is_asked_first(a: HostRow, b: HostRow)
    ensures
        a.slots_total == b.slots_total && a.slots_total > 0 ==> (less_loaded(a, b)
            <==> a.slots_free > b.slots_free),
        a.slots_free == b.slots_free && a.slots_free > 0 && a.slots_total > 0 && b.slots_total > 0
            ==> (less_loaded(a, b) <==> a.slots_total < b.slots_total),
        less_loaded(a, b) ==> ahead(a, b) && !ahead(b, a),
        !less_loaded(a, b) && !less_loaded(b, a) ==> (ahead(a, b) <==> no_later(a.name@, b.name@)),
        b.slots_total == 0 && a.slots_total > 0 && a.slots_free > 0 ==> less_loaded(a, b),
{
    lemma_shares(a, b, a);
    let (p, q) = free_share(a);
    let (s, t) = free_share(b);
    if q == t && a.slots_total > 0 {
        assert(p * t > s * q <==> p > s) by (nonlinear_arith)
            requires
                q == t,
                q > 0,
        ;
    }
    if p == s && p > 0 {
        assert(p * t > s * q <==> q < t) by (nonlinear_arith)
            requires
                p == s,
                p > 0,
        ;
    }
}

} // verus!
