use green_vita::rtc::reorder::{PacketOrder, GAP_GRACE_US, MAX_HELD_PACKETS, REPAIR_GRACE_US};

const START: u64 = 1_000_000_000;

fn ms(n: u64) -> u64 {
    n * 1000
}

#[test]
fn ordered_packets_are_immediate_and_wrap_correctly() {
    let mut order = PacketOrder::default();
    let now = START;
    for sequence in [65534u16, 65535, 0, 1] {
        assert_eq!(order.push(sequence, sequence, now), Some(sequence));
        assert!(order.pop(now).is_none());
    }
    assert_eq!(order.stats.max_depth, 0);
}

#[test]
fn gap_closes_before_deadline_without_losing_or_duplicating_packets() {
    let mut order = PacketOrder::default();
    let now = START;
    assert_eq!(order.push(65534, 65534, now), Some(65534));
    assert_eq!(order.push(0, 0, now), None);
    assert_eq!(order.push(0, 0, now), None);
    assert_eq!(order.push(65535, 65535, now + ms(1)), Some(65535));
    assert_eq!(order.pop(now + ms(1)), Some(0));
    assert_eq!(order.pop(now + ms(1)), None);
    assert_eq!(order.stats.filled, 1);
    assert_eq!(order.stats.missing, 0);
    assert_eq!(order.stats.duplicates, 1);
}

#[test]
fn new_arrivals_do_not_extend_the_gap_deadline() {
    let mut order = PacketOrder::default();
    let now = START;
    assert_eq!(order.push(10, 10, now), Some(10));
    assert_eq!(order.push(12, 12, now), None);
    assert_eq!(order.push(13, 13, now + ms(5)), None);
    assert_eq!(order.pop(now + GAP_GRACE_US), Some(12));
    assert_eq!(order.pop(now + GAP_GRACE_US), Some(13));
    assert_eq!(order.push(11, 11, now + GAP_GRACE_US), None);
    assert_eq!(order.stats.missing, 1);
    assert_eq!(order.stats.too_late, 1);
}

#[test]
fn burst_pressure_releases_early_instead_of_growing_the_queue() {
    let mut order = PacketOrder::default();
    let now = START;
    assert_eq!(order.push(0, 0, now), Some(0));
    for sequence in 2..25u16 {
        assert_eq!(order.push(sequence, sequence, now), None);
    }
    assert_eq!(order.push(25, 25, now), Some(2));
    for sequence in 3..=25u16 {
        assert_eq!(order.pop(now), Some(sequence));
    }
    assert_eq!(order.stats.max_depth, MAX_HELD_PACKETS);
    assert_eq!(order.stats.capacity_releases, 1);
    assert_eq!(order.stats.missing, 1);
}

#[test]
fn nack_repairs_a_wrapped_hole_at_44ms_without_delaying_ordered_packets() {
    let mut q = PacketOrder::default();
    q.enable_repair(true);
    let start = START;
    assert_eq!(q.push(65534, 65534, start), Some(65534));
    assert_eq!(q.push(0, 0, start), None);
    assert!(q.missing_for_nack(start + ms(1)).is_empty());
    assert_eq!(q.missing_for_nack(start + ms(2)), vec![65535]);
    assert!(q.missing_for_nack(start + ms(21)).is_empty());
    assert!(q.pop(start + ms(30)).is_none());
    let repaired = start + ms(46);
    assert_eq!(q.push(65535, 65535, repaired), Some(65535));
    assert_eq!(q.pop_ready(repaired), Some(0));
    assert!(q.missing_for_nack(repaired).is_empty());
    assert_eq!(q.push(1, 1, repaired), Some(1));
    assert_eq!(q.stats.missing, 0);
}

#[test]
fn nack_retry_never_extends_deadline_or_requests_unretained_packets() {
    let mut q = PacketOrder::default();
    q.enable_repair(true);
    let t = START;
    q.push(10, 10, t);
    q.push(13, 13, t);
    for n in [2u64, 22, 42] {
        assert_eq!(q.missing_for_nack(t + ms(n)), vec![11, 12]);
    }
    assert!(q.missing_for_nack(t + REPAIR_GRACE_US).is_empty());
    assert_eq!(q.pop(t + REPAIR_GRACE_US), Some(13));
    assert_eq!(q.stats.missing, 2);
    assert!(q.missing_for_nack(t + ms(100)).is_empty());
    q.push(15, 15, t + ms(100));
    q.clear();
    assert!(q.missing_for_nack(t + ms(150)).is_empty());
    assert_eq!(q.push(200, 200, t + ms(150)), Some(200));
}

#[test]
fn repair_queue_stays_bounded_on_a_large_burst() {
    let mut q = PacketOrder::default();
    q.enable_repair(true);
    let t = START;
    q.push(0, 0, t);
    for seq in 2..=65u16 {
        q.push(seq, seq, t);
    }
    assert_eq!(q.stats.max_depth, 64);
    assert_eq!(q.stats.capacity_releases, 1);
    assert!(q.missing_for_nack(t + ms(2)).is_empty());
}

#[test]
fn duplicate_of_a_held_packet_is_counted_and_not_queued() {
    let mut q = PacketOrder::default();
    let t = START;
    assert_eq!(q.push(1, "a", t), Some("a"));
    assert_eq!(q.push(3, "c", t), None);
    assert_eq!(q.push(4, "d", t), None);
    // 3 again: not the newest arrival, already held
    assert_eq!(q.push(3, "c2", t), None);
    assert_eq!(q.stats.duplicates, 1);
    assert_eq!(q.stats.out_of_order, 1);
    assert_eq!(q.pop(t + GAP_GRACE_US), Some("c"));
    assert_eq!(q.pop(t + GAP_GRACE_US), Some("d"));
    assert_eq!(q.pop(t + GAP_GRACE_US), None);
}

#[test]
fn repair_summary_counts_fill_loss_and_wait() {
    let mut q = PacketOrder::default();
    let t = START;
    q.push(1, 1u8, t);
    q.push(3, 3, t);
    assert_eq!(q.pop(t + ms(7)), Some(3));
    assert_eq!(q.summary(), "Order 6ms fill:0 lost:1 late:0 q:0/1 cap:0 wait:7ms");
}

#[test]
fn a_shuffled_run_hands_out_each_pushed_packet_once() {
    let mut order = PacketOrder::default();
    let now = START;
    let mut out = Vec::new();
    for sequence in [100u16, 103, 101, 101, 105, 102, 104, 99] {
        if let Some(v) = order.push(sequence, sequence, now) {
            out.push(v);
        }
        while let Some(v) = order.pop_ready(now) {
            out.push(v);
        }
    }
    while let Some(v) = order.pop(now + GAP_GRACE_US) {
        out.push(v);
    }
    assert_eq!(out, vec![100, 101, 102, 103, 104, 105]);
}
