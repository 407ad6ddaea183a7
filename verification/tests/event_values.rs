//! Event value wrap arithmetic and the event-slot manager.

use asahi::event::{EventManager, EventValue};
use asahi::gpu::ID;

#[test]
fn wrap_safe_comparison_orders_across_the_boundary() {
    let a = EventValue::new(0xffff_fff0);
    let b = EventValue::new(0x0000_0010);
    // b lies 0x20 steps ahead of a, across the 32-bit boundary.
    assert!(a.le(&b));
    assert!(!b.le(&a));
    assert_eq!(b.delta_from(&a), 0x20);
    // Every value compares equal to itself.
    assert!(a.le(&a));
    assert_eq!(a.delta_from(&a), 0);
}

#[test]
fn next_and_sub_are_inverse() {
    let v = EventValue::new(0xffff_ffff);
    let n = v.next();
    assert_eq!(n.raw, 0);
    let mut back = n;
    back.sub(1);
    assert_eq!(back, v);

    let mut w = EventValue::new(5);
    w.increment();
    w.increment();
    assert_eq!(w.raw, 7);
    w.sub(10);
    assert_eq!(w.raw, 0xffff_fffd);
}

#[test]
fn slot_acquisition_prefers_the_previous_slot() {
    let mut mgr = EventManager::new(4);
    let (s0, v0) = mgr.get(None, 100).unwrap();
    assert_eq!(s0, 0);
    assert_eq!(v0.raw, 0);
    let (s1, _) = mgr.get(None, 101).unwrap();
    assert_eq!(s1, 1);
    assert_eq!(mgr.get_owner(0), Some(100));
    assert_eq!(mgr.get_owner(1), Some(101));

    // Release and re-acquire with a preference.
    mgr.release(1);
    assert_eq!(mgr.get_owner(1), None);
    let (s1b, _) = mgr.get(Some(1), 102).unwrap();
    assert_eq!(s1b, 1);

    // Occupy the rest, then acquisition fails with Busy.
    let (_, _) = mgr.get(None, 103).unwrap();
    let (_, _) = mgr.get(None, 104).unwrap();
    let r = mgr.get(None, 105);
    assert_eq!(r, Err(asahi::DriverError::Busy));
}

#[test]
fn firmware_stamp_updates_are_visible() {
    let mut mgr = EventManager::new(2);
    mgr.fw_update_stamp(1, EventValue::new(0x42));
    assert_eq!(mgr.current(1).raw, 0x42);
    assert_eq!(mgr.current(0).raw, 0);
}

#[test]
fn id_draws_are_monotonic_and_injective() {
    let mut id = ID::default();
    let mut last = id.next();
    assert_eq!(last, 2);
    let mut seen = vec![last];
    for _ in 0..100 {
        let next = id.next();
        assert!(next > last);
        assert!(!seen.contains(&next));
        seen.push(next);
        last = next;
    }
}
