use mpris_bridge::slot::CoalescingSlot;

#[test]
fn burst_collapses_to_latest() {
    let mut slot: CoalescingSlot<u64> = CoalescingSlot::make();
    let mut deliveries: Vec<u64> = Vec::new();
    for v in 1..=5u64 {
        assert!(slot.publish(v));
    }
    if let Some(v) = slot.drain() {
        deliveries.push(v);
    }
    assert!(deliveries.len() < 5);
    assert_eq!(deliveries.last().copied(), Some(5));
    assert_eq!(slot.drain(), None);
}

#[test]
fn first_value_is_delivered() {
    let mut slot: CoalescingSlot<u64> = CoalescingSlot::make();
    assert!(slot.publish(7));
    assert_eq!(slot.drain(), Some(7));
}

#[test]
fn publish_fails_after_close() {
    let mut slot: CoalescingSlot<u64> = CoalescingSlot::make();
    assert!(slot.publish(1));
    slot.close();
    assert!(!slot.publish(2));
    assert_eq!(slot.drain(), Some(1));
}

#[test]
fn interleaved_drains_keep_order() {
    let mut slot: CoalescingSlot<u64> = CoalescingSlot::make();
    let mut deliveries: Vec<u64> = Vec::new();
    for v in [10u64, 11, 12] {
        assert!(slot.publish(v));
        if v % 2 == 0 {
            if let Some(d) = slot.drain() {
                deliveries.push(d);
            }
        }
    }
    if let Some(d) = slot.drain() {
        deliveries.push(d);
    }
    assert_eq!(deliveries, vec![10, 12]);
}

#[test]
fn two_slots_do_not_cross_talk() {
    let mut a: CoalescingSlot<u64> = CoalescingSlot::make();
    let mut b: CoalescingSlot<u64> = CoalescingSlot::make();
    assert!(a.publish(1));
    assert!(b.publish(100));
    assert!(a.publish(2));
    assert_eq!(b.drain(), Some(100));
    assert_eq!(a.drain(), Some(2));
    a.close();
    assert!(b.publish(101));
    assert_eq!(b.drain(), Some(101));
}
