//! Host statistics: how much disk the suspension snapshots take.

use crate::common::storage::PoolStats;
use crate::control_plane::slot::{taken, SlotAllocator};
use crate::control_plane::types::{Stats, VmRecord};
use crate::text::{list_has, texts_of};
use vstd::prelude::*;
use vstd::string::*;

verus! {

/// The snapshot files of some VMs, each as often as a VM has it.
pub open spec fn all_snapshot_files(v: Seq<VmRecord>) -> Seq<Seq<char>>
    decreases v.len(),
{
    if v.len() == 0 {
        Seq::empty()
    } else {
        all_snapshot_files(v.drop_last()) + match v.last().snapshot {
            Some(s) => seq![s.mem_file@, s.vmstate@],
            None => Seq::empty(),
        }
    }
}

/// The first of each of some texts, in order.
pub open spec fn without_repeats(v: Seq<Seq<char>>) -> Seq<Seq<char>>
    decreases v.len(),
{
    if v.len() == 0 {
        Seq::empty()
    } else {
        let before = without_repeats(v.drop_last());
        if before.contains(v.last()) {
            before
        } else {
            before.push(v.last())
        }
    }
}

fn push_new(out: &mut Vec<String>, s: &String, all: Ghost<Seq<Seq<char>>>)
    requires
        texts_of(old(out)@) == without_repeats(all@),
    ensures
        texts_of(final(out)@) == without_repeats(all@.push(s@)),
{
    let ghost had = out@;
    proof {
        assert(all@.push(s@).drop_last() =~= all@);
    }
    if !list_has(out, s.as_str()) {
        out.push(s.clone());
        assert(texts_of(out@) =~= texts_of(had).push(s@));
    }
}

/// The snapshot files of some VMs, each once.
pub fn snapshot_files(v: &Vec<VmRecord>) -> (r: Vec<String>)
    ensures
        texts_of(r@) == without_repeats(all_snapshot_files(v@)),
{
    let mut out: Vec<String> = Vec::new();
    let mut i: usize = 0;
    assert(v@.take(0) =~= Seq::<VmRecord>::empty());
    assert(texts_of(out@) =~= Seq::<Seq<char>>::empty());
    while i < v.len()
        invariant
            i <= v.len(),
            texts_of(out@) == without_repeats(all_snapshot_files(v@.take(i as int))),
        decreases v.len() - i,
    {
        let ghost before = all_snapshot_files(v@.take(i as int));
        proof {
            let w = v@.take(i + 1);
            assert(w.drop_last() =~= v@.take(i as int));
            assert(w.last() == v@[i as int]);
        }
        match &v[i].snapshot {
            Some(s) => {
                push_new(&mut out, &s.mem_file, Ghost(before));
                push_new(&mut out, &s.vmstate, Ghost(before.push(s.mem_file@)));
                proof {
                    assert(before.push(s.mem_file@).push(s.vmstate@) =~= before + seq![
                        s.mem_file@,
                        s.vmstate@,
                    ]);
                }
            },
            None => {
                proof {
                    assert(before + Seq::<Seq<char>>::empty() =~= before);
                }
            },
        }
        i += 1;
    }
    assert(v@.take(i as int) =~= v@);
    out
}

/// What is asked of a file: the device and inode it is, and the blocks of 512
/// bytes that it takes.
#[derive(Clone, Copy, Debug, PartialEq, Eq, Structural)]
pub struct OnDisk {
    pub dev: u64,
    pub ino: u64,
    pub blocks: u64,
}

/// Whether a file is among some.
pub open spec fn seen(v: Seq<Option<OnDisk>>, f: OnDisk) -> bool {
    exists|i: int|
        0 <= i < v.len() && ((#[trigger] v[i]) matches Some(g) && g.dev == f.dev && g.ino == f.ino)
}

/// The bytes that some files take, each file once.
pub open spec fn bytes_taken(v: Seq<Option<OnDisk>>) -> int
    decreases v.len(),
{
    if v.len() == 0 {
        0
    } else {
        bytes_taken(v.drop_last()) + match v.last() {
            Some(f) => if seen(v.drop_last(), f) {
                0
            } else {
                512 * f.blocks as int
            },
            None => 0,
        }
    }
}

/// Whether each of some files could be asked.
pub open spec fn all_there(v: Seq<Option<OnDisk>>) -> bool {
    forall|i: int| 0 <= i < v.len() ==> (#[trigger] v[i]) is Some
}

proof fn lemma_taken_grows(v: Seq<Option<OnDisk>>, n: int)
    requires
        0 <= n <= v.len(),
    ensures
        0 <= bytes_taken(v.take(n)) <= bytes_taken(v),
    decreases v.len(),
{
    if v.len() == 0 {
        assert(v.take(n) =~= v);
    } else if n == v.len() {
        assert(v.take(n) =~= v);
        lemma_taken_grows(v.drop_last(), v.len() - 1);
        assert(v.drop_last().take(v.len() - 1) =~= v.drop_last());
    } else {
        lemma_taken_grows(v.drop_last(), n);
        assert(v.drop_last().take(n) =~= v.take(n));
    }
}

/// The bytes that the snapshot files take; nothing where one could not be asked
/// or the number is too large.
pub fn snapshot_bytes(v: &Vec<Option<OnDisk>>) -> (r: Option<u64>)
    ensures
        match r {
            Some(n) => all_there(v@) && n == bytes_taken(v@),
            None => !all_there(v@) || bytes_taken(v@) > u64::MAX,
        },
{
    let mut total: u64 = 0;
    let mut i: usize = 0;
    assert(v@.take(0) =~= Seq::<Option<OnDisk>>::empty());
    while i < v.len()
        invariant
            i <= v.len(),
            total == bytes_taken(v@.take(i as int)),
            forall|k: int| 0 <= k < i ==> (#[trigger] v@[k]) is Some,
        decreases v.len() - i,
    {
        proof {
            let w = v@.take(i + 1);
            assert(w.drop_last() =~= v@.take(i as int));
            assert(w.last() == v@[i as int]);
            lemma_taken_grows(v@, i + 1);
        }
        let f = match v[i] {
            Some(f) => f,
            None => return None,
        };
        let mut known = false;
        let mut k: usize = 0;
        while k < i
            invariant
                k <= i < v.len(),
                known == seen(v@.take(k as int), f),
            decreases i - k,
        {
            proof {
                let a = v@.take(k as int);
                let b = v@.take(k + 1);
                assert(b[k as int] == v@[k as int]);
                if seen(a, f) {
                    let j = choose|j: int|
                        0 <= j < a.len() && ((#[trigger] a[j]) matches Some(g) && g.dev == f.dev
                            && g.ino == f.ino);
                    assert(b[j] == a[j]);
                }
                if seen(b, f) {
                    let j = choose|j: int|
                        0 <= j < b.len() && ((#[trigger] b[j]) matches Some(g) && g.dev == f.dev
                            && g.ino == f.ino);
                    if j < k {
                        assert(a[j] == b[j]);
                    }
                }
            }
            if let Some(g) = v[k] {
                if g.dev == f.dev && g.ino == f.ino {
                    known = true;
                }
            }
            k += 1;
        }
        if !known {
            if f.blocks > u64::MAX / 512 {
                return None;
            }
            let more: u64 = f.blocks * 512;
            if more > u64::MAX - total {
                return None;
            }
            total = total + more;
        }
        i += 1;
    }
    assert(v@.take(i as int) =~= v@);
    Some(total)
}

/// Host statistics, from what is in use and what was measured.
pub fn stats(
    pool: PoolStats,
    slots: &SlotAllocator,
    snapshot_bytes: Option<u64>,
    vms: usize,
) -> (r: Stats)
    ensures
        r.pool == pool,
        r.snapshot_bytes == snapshot_bytes,
        r.slots_used == taken(slots.map()),
        r.slots_total == slots.map().len(),
        r.vms == vms,
{
    Stats {
        snapshot_bytes,
        pool,
        slots_used: slots.in_use(),
        slots_total: slots.capacity(),
        vms,
    }
}

proof fn lemma_without_repeats(v: Seq<Seq<char>>, s: Seq<char>)
    ensures
        without_repeats(v).contains(s) <==> v.contains(s),
    decreases v.len(),
{
    if v.len() > 0 {
        let w = v.drop_last();
        lemma_without_repeats(w, s);
        let a = without_repeats(w);
        let b = without_repeats(v);
        assert(v[v.len() - 1] == v.last());
        if w.contains(s) {
            let k = choose|k: int| 0 <= k < w.len() && w[k] == s;
            assert(v[k] == s);
            let j = choose|j: int| 0 <= j < a.len() && a[j] == s;
            assert(b[j] == s);
        }
        if v.contains(s) && !w.contains(s) {
            let k = choose|k: int| 0 <= k < v.len() && v[k] == s;
            if k < w.len() {
                assert(w[k] == s);
            }
            if a.contains(v.last()) {
                lemma_without_repeats(w, v.last());
            } else {
                assert(b[b.len() - 1] == v.last());
            }
        }
        if b.contains(s) && !a.contains(s) {
            assert(s == v.last());
        }
    }
}

proof fn lemma_files_of(v: Seq<VmRecord>, i: int)
    requires
        0 <= i < v.len(),
        v[i].snapshot is Some,
    ensures
        all_snapshot_files(v).contains(v[i].snapshot->0.mem_file@),
        all_snapshot_files(v).contains(v[i].snapshot->0.vmstate@),
    decreases v.len(),
{
    let w = v.drop_last();
    let a = all_snapshot_files(w);
    let b = all_snapshot_files(v);
    if i < w.len() {
        lemma_files_of(w, i);
        assert(w[i] == v[i]);
        let m = v[i].snapshot->0.mem_file@;
        let t = v[i].snapshot->0.vmstate@;
        let j = choose|j: int| 0 <= j < a.len() && a[j] == m;
        let k = choose|k: int| 0 <= k < a.len() && a[k] == t;
        assert(b[j] == m && b[k] == t);
    } else {
        assert(b[a.len() as int] == v[i].snapshot->0.mem_file@);
        assert(b[a.len() as int + 1] == v[i].snapshot->0.vmstate@);
    }
}

/// **Law.** Both files of every VM's snapshot are measured, and no file twice.
pub proof fn law_every_snapshot_file_is_measured_once(v: Seq<VmRecord>, i: int)
    requires
        0 <= i < v.len(),
        v[i].snapshot is Some,
    ensures
        without_repeats(all_snapshot_files(v)).contains(v[i].snapshot->0.mem_file@),
        without_repeats(all_snapshot_files(v)).contains(v[i].snapshot->0.vmstate@),
        without_repeats(all_snapshot_files(v)).no_duplicates(),
{
    lemma_files_of(v, i);
    lemma_without_repeats(all_snapshot_files(v), v[i].snapshot->0.mem_file@);
    lemma_without_repeats(all_snapshot_files(v), v[i].snapshot->0.vmstate@);
    lemma_no_repeats(all_snapshot_files(v));
}

proof fn lemma_no_repeats(v: Seq<Seq<char>>)
    ensures
        without_repeats(v).no_duplicates(),
    decreases v.len(),
{
    if v.len() > 0 {
        lemma_no_repeats(v.drop_last());
    }
}

/// **Law.** A file takes what its blocks take, once: under a second name it takes
/// nothing more, and a file on another device or with another inode is another
/// file.
pub proof fn law_a_file_is_counted_once(v: Seq<Option<OnDisk>>, f: OnDisk)
    ensures
        bytes_taken(v.push(Some(f))) == bytes_taken(v) + (if exists|i: int|
            0 <= i < v.len() && (#[trigger] v[i]) is Some && v[i]->0.dev == f.dev && v[i]->0.ino
                == f.ino {
            0
        } else {
            512 * f.blocks as int
        }),
        bytes_taken(v.push(None)) == bytes_taken(v),
        bytes_taken(Seq::empty()) == 0,
{
    assert(v.push(Some(f)).drop_last() =~= v);
    assert(v.push(None::<OnDisk>).drop_last() =~= v);
    if seen(v, f) {
        let i = choose|i: int|
            0 <= i < v.len() && ((#[trigger] v[i]) matches Some(g) && g.dev == f.dev && g.ino
                == f.ino);
        assert(v[i] is Some && v[i]->0.dev == f.dev && v[i]->0.ino == f.ino);
    }
}

} // verus!
