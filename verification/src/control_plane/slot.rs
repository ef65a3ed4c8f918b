//! Placement-slot allocator.
//!
//! The slot *is* the network allocation. This is a simple rotating bitmap; the
//! durable record of which slots are taken lives in the store, and the
//! allocator is rebuilt from it on startup.

use crate::common::ids::{SlotId, SLOT_MAX};
use vstd::prelude::*;

verus! {

/// A rotating bitmap over the placement slots.
pub struct SlotAllocator {
    used: Vec<bool>,
    cursor: usize,
}

/// The first free place at or after step `i` of a scan that starts at `cursor`
/// and wraps around.
pub open spec fn free_from(used: Seq<bool>, cursor: int, i: int) -> Option<int>
    decreases used.len() - i,
{
    if i >= used.len() {
        None
    } else if !used[(cursor + i) % used.len() as int] {
        Some((cursor + i) % used.len() as int)
    } else {
        free_from(used, cursor, i + 1)
    }
}

/// How many places are taken.
pub open spec fn taken(used: Seq<bool>) -> nat
    decreases used.len(),
{
    if used.len() == 0 {
        0
    } else {
        taken(used.drop_last()) + (if used.last() {
            1nat
        } else {
            0
        })
    }
}

/// The places of a map that have a slot id: those past the slot range have none.
pub open spec fn numbered(used: Seq<bool>) -> Seq<bool> {
    if used.len() <= SLOT_MAX + 1 {
        used
    } else {
        used.take(SLOT_MAX + 1)
    }
}

/// What a scan that finds a free place shows of it.
proof fn lemma_free_from(used: Seq<bool>, cursor: int, i: int)
    requires
        0 <= i <= used.len(),
        0 <= cursor,
    ensures
        match free_from(used, cursor, i) {
            Some(p) => 0 <= p < used.len() && !used[p],
            None => forall|k: int|
                i <= k < used.len() ==> used[#[trigger] ((cursor + k) % used.len() as int)],
        },
    decreases used.len() - i,
{
    if i < used.len() && used[(cursor + i) % used.len() as int] {
        lemma_free_from(used, cursor, i + 1);
    }
}

/// A scan that finds nothing has seen every place.
proof fn lemma_scan_is_complete(used: Seq<bool>, cursor: int)
    requires
        0 <= cursor,
        cursor == 0 || cursor < used.len(),
        free_from(used, cursor, 0) is None,
    ensures
        forall|p: int| 0 <= p < used.len() ==> used[p],
{
    lemma_free_from(used, cursor, 0);
    let n = used.len() as int;
    assert forall|p: int| 0 <= p < n implies used[p] by {
        let k = if p >= cursor {
            p - cursor
        } else {
            p - cursor + n
        };
        assert(0 <= k < n);
        if p >= cursor {
            assert(cursor + k == p);
            vstd::arithmetic::div_mod::lemma_small_mod(p as nat, n as nat);
        } else {
            assert(cursor + k == p + n);
            vstd::arithmetic::div_mod::lemma_mod_add_multiples_vanish(p, n);
            vstd::arithmetic::div_mod::lemma_small_mod(p as nat, n as nat);
        }
        assert((cursor + k) % n == p);
        assert(used[(cursor + k) % n]);
    }
}

impl SlotAllocator {
    /// Which slots are taken.
    pub closed spec fn map(self) -> Seq<bool> {
        self.used@
    }

    /// Where the next scan starts.
    pub closed spec fn next(self) -> int {
        self.cursor as int
    }

    /// How many places have a slot id.
    pub open spec fn span(self) -> int {
        numbered(self.map()).len() as int
    }

    /// The scan starts at a place that has a slot id.
    pub open spec fn wf(self) -> bool {
        0 <= self.next() && (self.next() == 0 || self.next() < self.span())
    }

    /// Whether slot `s` is taken.
    pub open spec fn holds(self, s: SlotId) -> bool {
        s.value() < self.map().len() && self.map()[s.value() as int]
    }

    /// The place the next allocation takes: one that has a slot id.
    pub open spec fn free_place(self) -> Option<int> {
        free_from(numbered(self.map()), self.next(), 0)
    }

    /// The map with a slot taken or free, where it has that slot.
    pub open spec fn marked(self, slot: SlotId, used: bool) -> Seq<bool> {
        if slot.value() < self.map().len() {
            self.map().update(slot.value() as int, used)
        } else {
            self.map()
        }
    }

    /// Whether an allocation hands out `r` and leaves `after`.
    pub open spec fn allocates(self, r: Option<SlotId>, after: SlotAllocator) -> bool {
        match self.free_place() {
            Some(p) => {
                &&& 0 <= p < self.span()
                &&& !self.map()[p]
                &&& after.map() == self.map().update(p, true)
                &&& after.next() == (p + 1) % self.span()
                &&& r matches Some(s) && s.value() == p
            },
            None => {
                &&& r is None
                &&& after == self
                &&& forall|p: int| 0 <= p < self.span() ==> self.map()[p]
            },
        }
    }

    /// The allocator over `capacity` free slots.
    pub fn new(capacity: usize) -> (a: Self)
        ensures
            a.wf(),
            a.map() == Seq::new(capacity as nat, |i: int| false),
            a.next() == 0,
    {
        let used: Vec<bool> = vec![false; capacity];
        assert(used@ =~= Seq::new(capacity as nat, |i: int| false));
        SlotAllocator { used, cursor: 0 }
    }

    /// Allocate the next free slot, scanning from the cursor (so freed slots
    /// aren't immediately reused).
    pub fn allocate(&mut self) -> (r: Option<SlotId>)
        requires
            old(self).wf(),
        ensures
            final(self).wf(),
            old(self).allocates(r, *final(self)),
    {
        let n: usize = if self.used.len() <= SLOT_MAX as usize + 1 {
            self.used.len()
        } else {
            SLOT_MAX as usize + 1
        };
        let ghost places = numbered(self.used@);
        let mut i: usize = 0;
        proof {
            lemma_free_from(places, self.cursor as int, 0);
        }
        while i < n
            invariant
                i <= n,
                n == places.len(),
                places == numbered(self.used@),
                n <= self.used.len(),
                n <= SLOT_MAX + 1,
                *self == *old(self),
                old(self).wf(),
                free_from(places, self.cursor as int, i as int) == old(self).free_place(),
            decreases n - i,
        {
            let left: usize = n - self.cursor;
            let idx: usize = if i < left {
                self.cursor + i
            } else {
                i - left
            };
            proof {
                if i < left {
                    vstd::arithmetic::div_mod::lemma_small_mod(idx as nat, n as nat);
                } else {
                    vstd::arithmetic::div_mod::lemma_mod_add_multiples_vanish(idx as int, n as int);
                    vstd::arithmetic::div_mod::lemma_small_mod(idx as nat, n as nat);
                    assert(self.cursor + i == idx + n);
                }
                assert(idx == (self.cursor + i) % n as int);
                assert(places[idx as int] == self.used@[idx as int]);
            }
            if !self.used[idx] {
                self.used.set(idx, true);
                self.cursor = if idx + 1 == n {
                    0
                } else {
                    idx + 1
                };
                proof {
                    if idx + 1 < n {
                        vstd::arithmetic::div_mod::lemma_small_mod((idx + 1) as nat, n as nat);
                    } else {
                        vstd::arithmetic::div_mod::lemma_mod_self_0(n as int);
                    }
                }
                return match SlotId::new(idx as u16) {
                    Ok(s) => Some(s),
                    Err(_) => None,
                };
            }
            i += 1;
        }
        proof {
            lemma_scan_is_complete(places, self.cursor as int);
            assert forall|p: int| 0 <= p < places.len() implies self.used@[p] by {
                assert(places[p]);
            }
        }
        None
    }

    /// Mark a slot used (recovery from the store).
    pub fn reserve(&mut self, slot: SlotId)
        requires
            old(self).wf(),
        ensures
            final(self).wf(),
            final(self).next() == old(self).next(),
            final(self).map() == old(self).marked(slot, true),
    {
        let i: usize = slot.get() as usize;
        if i < self.used.len() {
            self.used.set(i, true);
        }
    }

    /// Give a slot back.
    pub fn free(&mut self, slot: SlotId)
        requires
            old(self).wf(),
        ensures
            final(self).wf(),
            final(self).next() == old(self).next(),
            final(self).map() == old(self).marked(slot, false),
    {
        let i: usize = slot.get() as usize;
        if i < self.used.len() {
            self.used.set(i, false);
        }
    }

    /// How many slots are taken.
    pub fn in_use(&self) -> (n: usize)
        ensures
            n == taken(self.map()),
            n <= self.map().len(),
    {
        let mut n: usize = 0;
        let mut i: usize = 0;
        assert(self.used@.subrange(0, 0) =~= Seq::<bool>::empty());
        while i < self.used.len()
            invariant
                i <= self.used.len(),
                n <= i,
                n == taken(self.used@.subrange(0, i as int)),
            decreases self.used.len() - i,
        {
            proof {
                let next = self.used@.subrange(0, i + 1);
                assert(next.drop_last() =~= self.used@.subrange(0, i as int));
            }
            if self.used[i] {
                n += 1;
            }
            i += 1;
        }
        assert(self.used@.subrange(0, self.used.len() as int) =~= self.used@);
        n
    }

    /// How many slots there are.
    pub fn capacity(&self) -> (n: usize)
        ensures
            n == self.map().len(),
    {
        self.used.len()
    }
}

/// **Law.** An allocation fails exactly when every slot is taken; otherwise it
/// hands out a slot that was free, takes that one and no other.
pub proof fn law_allocation_hands_out_a_free_slot(before: SlotAllocator)
    requires
        before.wf(),
    ensures
        match before.free_place() {
            Some(p) => {
                &&& 0 <= p < before.map().len()
                &&& p <= SLOT_MAX
                &&& !before.map()[p]
                &&& forall|q: int|
                    0 <= q < before.map().len() && q != p ==> before.map().update(p, true)[q]
                        == before.map()[q]
            },
            None => forall|p: int|
                0 <= p < before.map().len() && p <= SLOT_MAX ==> before.map()[p],
        },
{
    let places = numbered(before.map());
    lemma_free_from(places, before.next(), 0);
    if before.free_place() is None {
        lemma_scan_is_complete(places, before.next());
        assert forall|p: int| 0 <= p < before.map().len() && p <= SLOT_MAX implies before.map()[p] by {
            assert(places[p]);
        }
    }
}

/// **Law.** As long as one slot is free, the next allocation finds one: a slot
/// that was given back becomes available again.
pub proof fn law_a_freed_slot_is_available(after: SlotAllocator, slot: SlotId)
    requires
        after.wf(),
        slot.value() <= SLOT_MAX,
        slot.value() < after.map().len(),
        !after.map()[slot.value() as int],
    ensures
        after.free_place() is Some,
{
    if after.free_place() is None {
        lemma_scan_is_complete(numbered(after.map()), after.next());
        assert(numbered(after.map())[slot.value() as int]);
    }
}

/// **Law.** Taking a free place makes one more slot used, and giving it back
/// makes one less.
pub proof fn law_use_counts_follow(used: Seq<bool>, p: int)
    requires
        0 <= p < used.len(),
        !used[p],
    ensures
        taken(used.update(p, true)) == taken(used) + 1,
        used.update(p, true).update(p, false) == used,
    decreases used.len(),
{
    let with = used.update(p, true);
    if p == used.len() - 1 {
        assert(with.drop_last() =~= used.drop_last());
    } else {
        law_use_counts_follow(used.drop_last(), p);
        assert(with.drop_last() =~= used.drop_last().update(p, true));
    }
    assert(used.update(p, true).update(p, false) =~= used);
}

// ---- a history of calls ----

/// A call that changes an allocator, with the slot it is about: the one that an
/// allocation handed out, if any.
pub enum SlotCall {
    Allocate(Option<SlotId>),
    Reserve(SlotId),
    Free(SlotId),
}

impl SlotCall {
    /// Whether the call turns `before` into `after`.
    pub open spec fn turns(self, before: SlotAllocator, after: SlotAllocator) -> bool {
        match self {
            SlotCall::Allocate(r) => before.allocates(r, after),
            SlotCall::Reserve(s) => after.map() == before.marked(s, true),
            SlotCall::Free(s) => after.map() == before.marked(s, false),
        }
    }

    /// Whether the call takes slot `i`.
    pub open spec fn takes(self, i: int) -> bool {
        match self {
            SlotCall::Allocate(r) => r matches Some(s) && s.value() == i,
            SlotCall::Reserve(s) => s.value() == i,
            SlotCall::Free(_) => false,
        }
    }

    /// Whether the call gives slot `i` back.
    pub open spec fn frees(self, i: int) -> bool {
        self matches SlotCall::Free(s) && s.value() == i
    }
}

/// Whether slot `i` was taken more recently than it was last given back.
pub open spec fn held_after(calls: Seq<SlotCall>, i: int) -> bool
    decreases calls.len(),
{
    if calls.len() == 0 {
        false
    } else if calls.last().takes(i) {
        true
    } else if calls.last().frees(i) {
        false
    } else {
        held_after(calls.drop_last(), i)
    }
}

/// The slots below `n` that were taken more recently than they were last given
/// back.
pub open spec fn held_slots(calls: Seq<SlotCall>, n: int) -> Set<int> {
    Set::new(|i: int| 0 <= i < n && held_after(calls, i))
}

/// Where a map says that a place is taken.
spec fn places(used: Seq<bool>) -> Set<int> {
    Set::new(|i: int| 0 <= i < used.len() && used[i])
}

proof fn lemma_taken_counts(used: Seq<bool>)
    ensures
        places(used).finite(),
        places(used).len() == taken(used),
    decreases used.len(),
{
    if used.len() == 0 {
        assert(places(used) =~= Set::empty());
    } else {
        let before = used.drop_last();
        let n = before.len() as int;
        lemma_taken_counts(before);
        if used.last() {
            assert(places(used) =~= places(before).insert(n));
        } else {
            assert(places(used) =~= places(before));
        }
    }
}

/// **Law.** Whatever was called on an allocator of `n` slots, as many are in use
/// as were taken, by an allocation or a reservation, more recently than they were
/// last given back; and there are still `n`.
pub proof fn law_use_is_what_the_calls_left(states: Seq<SlotAllocator>, calls: Seq<SlotCall>, n: int)
    requires
        0 <= n,
        states.len() == calls.len() + 1,
        states[0].map() == Seq::new(n as nat, |i: int| false),
        forall|k: int| 0 <= k < states.len() ==> (#[trigger] states[k]).wf(),
        forall|k: int| 0 <= k < calls.len() ==> (#[trigger] calls[k]).turns(states[k], states[k + 1]),
    ensures
        states.last().map().len() == n,
        forall|i: int| 0 <= i < n ==> #[trigger] states.last().map()[i] == held_after(calls, i),
        taken(states.last().map()) == held_slots(calls, n).len(),
        taken(states.last().map()) <= n,
    decreases calls.len(),
{
    if calls.len() > 0 {
        let k = calls.len() - 1;
        let s0 = states.drop_last();
        let c0 = calls.drop_last();
        assert forall|j: int| 0 <= j < c0.len() implies (#[trigger] c0[j]).turns(s0[j], s0[j + 1]) by {
            assert(calls[j].turns(states[j], states[j + 1]));
        }
        assert forall|j: int| 0 <= j < s0.len() implies (#[trigger] s0[j]).wf() by {
            assert(states[j].wf());
        }
        law_use_is_what_the_calls_left(s0, c0, n);
        let before = states[k];
        assert(s0.last() == before);
        assert(calls[k].turns(before, states[k + 1]));
        law_allocation_hands_out_a_free_slot(before);
        assert forall|i: int| 0 <= i < n implies #[trigger] states.last().map()[i] == held_after(
            calls,
            i,
        ) by {
            assert(before.map()[i] == held_after(c0, i));
        }
    }
    let m = states.last().map();
    lemma_taken_counts(m);
    assert(places(m) =~= held_slots(calls, n));
    lemma_taken_bound(m);
}

proof fn lemma_taken_bound(used: Seq<bool>)
    ensures
        taken(used) <= used.len(),
    decreases used.len(),
{
    if used.len() > 0 {
        lemma_taken_bound(used.drop_last());
    }
}

proof fn lemma_free_before(used: Seq<bool>, cursor: int, i: int, k: int)
    requires
        0 <= i <= k < used.len(),
        0 <= cursor,
        !used[(cursor + k) % used.len() as int],
    ensures
        exists|j: int|
            i <= j <= k && free_from(used, cursor, i) == Some(
                #[trigger] ((cursor + j) % used.len() as int),
            ),
    decreases k - i,
{
    let n = used.len() as int;
    if used[(cursor + i) % n] {
        lemma_free_before(used, cursor, i + 1, k);
        let j = choose|j: int|
            i + 1 <= j <= k && free_from(used, cursor, i + 1) == Some(
                #[trigger] ((cursor + j) % used.len() as int),
            );
        assert(free_from(used, cursor, i) == Some((cursor + j) % n));
    } else {
        assert(free_from(used, cursor, i) == Some((cursor + i) % n));
    }
}

proof fn lemma_wraps(c: int, k: int, n: int)
    requires
        0 <= c < n,
        0 <= k < n,
    ensures
        (c + k) % n == if c + k < n {
            c + k
        } else {
            c + k - n
        },
{
    if c + k < n {
        vstd::arithmetic::div_mod::lemma_small_mod((c + k) as nat, n as nat);
    } else {
        vstd::arithmetic::div_mod::lemma_mod_add_multiples_vanish(c + k - n, n);
        vstd::arithmetic::div_mod::lemma_small_mod((c + k - n) as nat, n as nat);
    }
}

/// **Law.** A slot that was handed out and given back is not handed out again at
/// once: while another one is free, the next allocation is another, so that what
/// is left of a VM has time to go.
pub proof fn law_a_freed_slot_is_not_reused_at_once(
    a: SlotAllocator,
    slot: SlotId,
    b: SlotAllocator,
    c: SlotAllocator,
    other: int,
    r: Option<SlotId>,
    d: SlotAllocator,
)
    requires
        a.wf(),
        a.allocates(Some(slot), b),
        c.map() == b.marked(slot, false),
        c.next() == b.next(),
        c.allocates(r, d),
        0 <= other < a.span(),
        other != slot.value(),
        !a.map()[other],
    ensures
        r is Some,
        r->0.value() != slot.value(),
{
    let n = a.span();
    let p = slot.value() as int;
    let cur = (p + 1) % n;
    let places = numbered(c.map());
    assert(c.map() =~= a.map());
    assert(places.len() == n);
    let k = if other >= cur {
        other - cur
    } else {
        other - cur + n
    };
    if p + 1 < n {
        vstd::arithmetic::div_mod::lemma_small_mod((p + 1) as nat, n as nat);
    } else {
        vstd::arithmetic::div_mod::lemma_mod_self_0(n);
    }
    assert(cur == if p + 1 < n {
        p + 1
    } else {
        0
    });
    lemma_wraps(cur, k, n);
    assert((cur + k) % n == other);
    assert(!places[other]);
    lemma_free_before(places, cur, 0, k);
    let j = choose|j: int|
        0 <= j <= k && free_from(places, cur, 0) == Some(
            #[trigger] ((cur + j) % places.len() as int),
        );
    lemma_wraps(cur, j, n);
    assert(k < n - 1);
    assert((cur + j) % n != p);
}

} // verus!
