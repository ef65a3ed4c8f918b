//! Host-port allocator for ingress forwards.
//!
//! Each ingress forward (ssh is just one) gets an externally bound host port
//! assigned from a fixed range. Like the slot allocator, the durable record of
//! which ports are taken lives in the store; this is rebuilt from it on startup.

use std::collections::HashSet;
use vstd::prelude::*;

verus! {

broadcast use vstd::std_specs::hash::group_hash_axioms;

/// A rotating allocator over the ports `base..end`.
pub struct PortAllocator {
    base: u16,
    end: u16,
    used: HashSet<u16>,
    cursor: usize,
}

/// The first free port at or after step `i` of a scan of `base..end` that
/// starts at offset `cursor` and wraps around.
pub open spec fn port_from(used: Set<u16>, base: int, span: int, cursor: int, i: int) -> Option<int>
    decreases span - i,
{
    if i >= span {
        None
    } else if !used.contains((base + (cursor + i) % span) as u16) {
        Some((cursor + i) % span)
    } else {
        port_from(used, base, span, cursor, i + 1)
    }
}

pub(crate) proof fn lemma_port_from(used: Set<u16>, base: int, span: int, cursor: int, i: int)
    requires
        0 <= i <= span,
        0 <= cursor,
    ensures
        match port_from(used, base, span, cursor, i) {
            Some(o) => 0 <= o < span && !used.contains((base + o) as u16),
            None => forall|k: int|
                i <= k < span ==> used.contains(
                    (base + #[trigger] ((cursor + k) % span)) as u16,
                ),
        },
    decreases span - i,
{
    if i < span && used.contains((base + (cursor + i) % span) as u16) {
        lemma_port_from(used, base, span, cursor, i + 1);
    }
}

proof fn lemma_port_scan_is_complete(used: Set<u16>, base: int, span: int, cursor: int)
    requires
        0 <= cursor,
        cursor == 0 || cursor < span,
        0 <= base,
        base + span <= 0xffff,
        port_from(used, base, span, cursor, 0) is None,
        span >= 0,
    ensures
        forall|p: u16| base <= p < base + span ==> used.contains(p),
{
    lemma_port_from(used, base, span, cursor, 0);
    assert forall|p: u16| base <= p < base + span implies used.contains(p) by {
        let o = p - base;
        let k = if o >= cursor {
            o - cursor
        } else {
            o - cursor + span
        };
        if o >= cursor {
            vstd::arithmetic::div_mod::lemma_small_mod(o as nat, span as nat);
        } else {
            vstd::arithmetic::div_mod::lemma_mod_add_multiples_vanish(o, span);
            vstd::arithmetic::div_mod::lemma_small_mod(o as nat, span as nat);
            assert(cursor + k == o + span);
        }
        assert((cursor + k) % span == o);
        assert(used.contains((base + (cursor + k) % span) as u16));
    }
}

impl PortAllocator {
    /// First port of the range.
    pub closed spec fn first(self) -> int {
        self.base as int
    }

    /// How many ports the range has.
    pub closed spec fn span(self) -> int {
        self.end - self.base
    }

    /// The ports that are taken.
    pub closed spec fn taken(self) -> Set<u16> {
        self.used@
    }

    /// Offset at which the next scan starts.
    pub closed spec fn next(self) -> int {
        self.cursor as int
    }

    /// Whether `p` is a port of the range.
    pub open spec fn manages(self, p: u16) -> bool {
        self.first() <= p < self.first() + self.span()
    }

    /// The range is one, only its ports are taken, and the scan starts inside it.
    pub open spec fn wf(self) -> bool {
        &&& 0 <= self.first()
        &&& 0 <= self.span()
        &&& self.first() + self.span() <= 0xffff
        &&& 0 <= self.next()
        &&& self.next() == 0 || self.next() < self.span()
        &&& self.taken().finite()
        &&& forall|p: u16| #[trigger] self.taken().contains(p) ==> self.manages(p)
    }

    /// Offset of the port that the next allocation takes.
    pub open spec fn free_offset(self) -> Option<int> {
        port_from(self.taken(), self.first(), self.span(), self.next(), 0)
    }

    /// Nothing but the set of taken ports and the cursor differs.
    pub open spec fn same_range(self, o: Self) -> bool {
        self.first() == o.first() && self.span() == o.span()
    }

    /// Whether an allocation hands out `r` and leaves `after`.
    pub open spec fn allocates(self, r: Option<u16>, after: Self) -> bool {
        &&& after.same_range(self)
        &&& match self.free_offset() {
            Some(o) => {
                &&& r == Some((self.first() + o) as u16)
                &&& 0 <= o < self.span()
                &&& !self.taken().contains(r->0)
                &&& after.taken() == self.taken().insert(r->0)
                &&& after.next() == (o + 1) % self.span()
            },
            None => {
                &&& r is None
                &&& after.taken() == self.taken()
                &&& after.next() == self.next()
                &&& forall|p: u16| self.manages(p) ==> self.taken().contains(p)
            },
        }
    }

    /// Whether giving `port` back leaves `after`.
    pub open spec fn frees(self, port: u16, after: Self) -> bool {
        &&& after.same_range(self)
        &&& after.next() == self.next()
        &&& after.taken() == self.taken().remove(port)
    }

    /// The allocator over the free ports `base..end`; an `end` below `base`
    /// makes an empty range.
    pub fn new(base: u16, end: u16) -> (a: Self)
        ensures
            a.wf(),
            a.first() == base,
            a.span() == (if end > base {
                end - base
            } else {
                0
            }),
            a.taken() == Set::<u16>::empty(),
            a.next() == 0,
    {
        PortAllocator {
            base,
            end: if end > base {
                end
            } else {
                base
            },
            used: HashSet::new(),
            cursor: 0,
        }
    }

    /// Allocate the next free host port, or `None` if the range is exhausted.
    pub fn allocate(&mut self) -> (r: Option<u16>)
        requires
            old(self).wf(),
        ensures
            final(self).wf(),
            old(self).allocates(r, *final(self)),
    {
        let span: usize = (self.end - self.base) as usize;
        let mut off: usize = 0;
        let ghost start = *self;
        proof {
            lemma_port_from(self.used@, self.base as int, span as int, self.cursor as int, 0);
        }
        while off < span
            invariant
                off <= span,
                start == *old(self),
                start.wf(),
                span == start.span(),
                self.base == start.base,
                self.end == start.end,
                self.cursor == start.cursor,
                self.used@ == start.used@,
                port_from(
                    start.taken(),
                    start.first(),
                    start.span(),
                    start.next(),
                    off as int,
                ) == start.free_offset(),
            decreases span - off,
        {
            let left: usize = span - self.cursor;
            let at: usize = if off < left {
                self.cursor + off
            } else {
                off - left
            };
            proof {
                if off < left {
                    vstd::arithmetic::div_mod::lemma_small_mod(at as nat, span as nat);
                } else {
                    vstd::arithmetic::div_mod::lemma_mod_add_multiples_vanish(
                        at as int,
                        span as int,
                    );
                    vstd::arithmetic::div_mod::lemma_small_mod(at as nat, span as nat);
                    assert(self.cursor + off == at + span);
                }
                assert(at == (self.cursor + off) % span as int);
            }
            let port: u16 = self.base + (at as u16);
            if !self.used.contains(&port) {
                self.used.insert(port);
                self.cursor = if at + 1 == span {
                    0
                } else {
                    at + 1
                };
                proof {
                    if at + 1 < span {
                        vstd::arithmetic::div_mod::lemma_small_mod((at + 1) as nat, span as nat);
                    } else {
                        vstd::arithmetic::div_mod::lemma_mod_self_0(span as int);
                    }
                }
                return Some(port);
            }
            off += 1;
        }
        proof {
            lemma_port_scan_is_complete(
                start.taken(),
                start.first(),
                start.span(),
                start.next(),
            );
        }
        None
    }

    /// Mark a port used (recovery from the store). A port outside the range is
    /// ignored.
    pub fn reserve(&mut self, port: u16)
        requires
            old(self).wf(),
        ensures
            final(self).wf(),
            final(self).same_range(*old(self)),
            final(self).next() == old(self).next(),
            final(self).taken() == (if old(self).manages(port) {
                old(self).taken().insert(port)
            } else {
                old(self).taken()
            }),
    {
        if self.base <= port && port < self.end {
            self.used.insert(port);
        }
    }

    /// Give a port back.
    pub fn free(&mut self, port: u16)
        requires
            old(self).wf(),
        ensures
            final(self).wf(),
            old(self).frees(port, *final(self)),
    {
        self.used.remove(&port);
    }

    /// How many ports are taken.
    pub fn in_use(&self) -> (n: usize)
        ensures
            n == self.taken().len(),
    {
        self.used.len()
    }
}

/// **Law.** An allocation fails exactly when every port of the range is taken;
/// otherwise it hands out a port of the range that was free.
pub proof fn law_allocation_hands_out_a_free_port(a: PortAllocator)
    requires
        a.wf(),
    ensures
        match a.free_offset() {
            Some(o) => a.manages((a.first() + o) as u16) && !a.taken().contains(
                (a.first() + o) as u16,
            ),
            None => forall|p: u16| a.manages(p) ==> a.taken().contains(p),
        },
{
    lemma_port_from(a.taken(), a.first(), a.span(), a.next(), 0);
    if a.free_offset() is None {
        lemma_port_scan_is_complete(a.taken(), a.first(), a.span(), a.next());
    }
}

/// **Law.** As long as a port of the range is free, the next allocation finds
/// one: a port that was given back becomes available again.
pub proof fn law_a_freed_port_is_available(a: PortAllocator, port: u16)
    requires
        a.wf(),
        a.manages(port),
        !a.taken().contains(port),
    ensures
        a.free_offset() is Some,
{
    if a.free_offset() is None {
        lemma_port_scan_is_complete(a.taken(), a.first(), a.span(), a.next());
    }
}

proof fn lemma_port_before(used: Set<u16>, base: int, span: int, cursor: int, i: int, k: int)
    requires
        0 <= i <= k < span,
        0 <= cursor,
        !used.contains((base + (cursor + k) % span) as u16),
    ensures
        exists|j: int|
            i <= j <= k && port_from(used, base, span, cursor, i) == Some(
                #[trigger] ((cursor + j) % span),
            ),
    decreases k - i,
{
    if used.contains((base + (cursor + i) % span) as u16) {
        lemma_port_before(used, base, span, cursor, i + 1, k);
        let j = choose|j: int|
            i + 1 <= j <= k && port_from(used, base, span, cursor, i + 1) == Some(
                #[trigger] ((cursor + j) % span),
            );
        assert(port_from(used, base, span, cursor, i) == Some((cursor + j) % span));
    } else {
        assert(port_from(used, base, span, cursor, i) == Some((cursor + i) % span));
    }
}

/// **Law.** A port that was handed out and given back is not handed out again at
/// once: while another one of the range is free, the next allocation is another.
/// Both leave every other port as it is.
pub proof fn law_a_freed_port_is_not_reused_at_once(
    a: PortAllocator,
    port: u16,
    b: PortAllocator,
    c: PortAllocator,
    other: u16,
    r: Option<u16>,
    d: PortAllocator,
)
    requires
        a.wf(),
        a.allocates(Some(port), b),
        b.frees(port, c),
        c.allocates(r, d),
        a.manages(other),
        other != port,
        !a.taken().contains(other),
    ensures
        r is Some,
        r != Some(port),
        b.taken().contains(port),
        !c.taken().contains(port),
        forall|p: u16| p != port ==> (#[trigger] c.taken().contains(p) <==> a.taken().contains(p)),
{
    let n = a.span();
    let o = a.free_offset()->0;
    let cur = (o + 1) % n;
    let q = other - a.first();
    let k = if q >= cur {
        q - cur
    } else {
        q - cur + n
    };
    if o + 1 < n {
        vstd::arithmetic::div_mod::lemma_small_mod((o + 1) as nat, n as nat);
    } else {
        vstd::arithmetic::div_mod::lemma_mod_self_0(n);
    }
    assert(cur == if o + 1 < n {
        o + 1
    } else {
        0
    });
    lemma_wraps(cur, k, n);
    assert((cur + k) % n == q);
    assert((a.first() + q) as u16 == other);
    assert(!c.taken().contains(other));
    lemma_port_before(c.taken(), c.first(), n, cur, 0, k);
    let j = choose|j: int|
        0 <= j <= k && port_from(c.taken(), c.first(), n, cur, 0) == Some(
            #[trigger] ((cur + j) % n),
        );
    lemma_wraps(cur, j, n);
    assert(k < n - 1);
    assert((cur + j) % n != o);
}

proof fn lemma_wraps(c: int, k: int, n: int)
    requires
        0 <= c < n,
        0 <= k < n,
    ensures
        (c + k) % n == if c + k < n {
            c + k
        } else {
            c + k - n
        },
{
    if c + k < n {
        vstd::arithmetic::div_mod::lemma_small_mod((c + k) as nat, n as nat);
    } else {
        vstd::arithmetic::div_mod::lemma_mod_add_multiples_vanish(c + k - n, n);
        vstd::arithmetic::div_mod::lemma_small_mod((c + k - n) as nat, n as nat);
    }
}

} // verus!
