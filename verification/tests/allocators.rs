//! The allocators.

use iso::common::ids::SlotId;
use iso::control_plane::port::PortAllocator;
use iso::control_plane::slot::SlotAllocator;

#[test]
fn allocates_distinct_and_recycles() {
    let mut a = PortAllocator::new(20000, 20003);
    let p0 = a.allocate().unwrap();
    let p1 = a.allocate().unwrap();
    let p2 = a.allocate().unwrap();
    assert_eq!((p0, p1, p2), (20000, 20001, 20002));
    assert!(a.allocate().is_none());
    a.free(p1);
    assert_eq!(a.allocate().unwrap(), 20001);
}

#[test]
fn reserve_excludes() {
    let mut a = PortAllocator::new(20000, 20002);
    a.reserve(20000);
    assert_eq!(a.allocate().unwrap(), 20001);
    assert!(a.allocate().is_none());
}

#[test]
fn an_empty_or_inverted_range_has_no_ports() {
    assert!(PortAllocator::new(20000, 20000).allocate().is_none());
    assert!(PortAllocator::new(20000, 10).allocate().is_none());
}

#[test]
fn a_port_outside_the_range_is_not_reserved() {
    let mut a = PortAllocator::new(20000, 20002);
    a.reserve(9);
    assert_eq!(a.in_use(), 0);
    a.reserve(20001);
    assert_eq!(a.in_use(), 1);
}

#[test]
fn allocates_increasing_then_reuses_freed() {
    let mut a = SlotAllocator::new(4);
    let s0 = a.allocate().unwrap();
    let s1 = a.allocate().unwrap();
    assert_eq!((s0.get(), s1.get()), (0, 1));
    assert_eq!(a.in_use(), 2);
    a.free(s0);
    // cursor has moved past 0; we fill 2,3 then wrap to reuse 0.
    assert_eq!(a.allocate().unwrap().get(), 2);
    assert_eq!(a.allocate().unwrap().get(), 3);
    assert_eq!(a.allocate().unwrap().get(), 0);
    assert!(a.allocate().is_none(), "exhausted");
}

#[test]
fn reserve_marks_used() {
    let mut a = SlotAllocator::new(4);
    a.reserve(SlotId::new(2).unwrap());
    assert_eq!(a.in_use(), 1);
    // allocation skips the reserved slot eventually.
    let got: Vec<u16> = std::iter::from_fn(|| a.allocate().map(|s| s.get())).collect();
    assert_eq!(got, vec![0, 1, 3]);
}

#[test]
fn slots_past_the_capacity_are_ignored() {
    let mut a = SlotAllocator::new(2);
    a.reserve(SlotId::new(7).unwrap());
    a.free(SlotId::new(7).unwrap());
    assert_eq!((a.in_use(), a.capacity()), (0, 2));
}

#[test]
fn slots_in_use_are_those_taken_since_they_were_given_back() {
    let slot = |n: u16| SlotId::new(n).unwrap();
    let mut a = SlotAllocator::new(4);
    assert_eq!(a.allocate().map(|s| s.get()), Some(0));
    a.reserve(slot(2));
    a.reserve(slot(2));
    a.free(slot(0));
    a.free(slot(3));
    a.reserve(slot(9));
    assert_eq!((a.in_use(), a.capacity()), (1, 4));
    assert_eq!(a.allocate().map(|s| s.get()), Some(1));
    a.free(slot(2));
    a.reserve(slot(0));
    assert_eq!((a.in_use(), a.capacity()), (2, 4));
    assert_eq!(slot(SlotId::MAX).get(), 32767);
}

#[test]
fn only_places_with_an_id_are_allocated() {
    let mut a = SlotAllocator::new(32770);
    let got = std::iter::from_fn(|| a.allocate()).count();
    assert_eq!((got, a.in_use(), a.capacity()), (32768, 32768, 32770));
    a.free(SlotId::new(5).unwrap());
    assert_eq!(a.allocate().map(|s| s.get()), Some(5));
}
