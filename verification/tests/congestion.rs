use green_vita::rtc::congestion::{ReceiveBudget, MIN_BPS};

const START: u64 = 1_000_000_000;

fn ms(n: u64) -> u64 {
    n * 1000
}

#[test]
fn audit_regression_fixed_offset_does_not_collapse_receive_budget() {
    let start = START;
    let mut budget = ReceiveBudget::new(2_000_000);
    for tick in 0..=18_000u64 {
        // Thirty virtual minutes, with an idle-scene/path offset and a
        // small clock skew. Neither is sustained queue growth.
        let delay = if tick < 100 { 5 } else { 200 + tick / 1000 };
        budget.receive(25_000, delay, start + ms(tick * 100));
    }
    assert_eq!(budget.target(), 2_000_000);
    assert_eq!(budget.reductions, 0);
}

#[test]
fn fixed_arrival_offset_does_not_repeat_legacy_floor_collapse() {
    let start = START;
    let mut budget = ReceiveBudget::new(2_000_000);
    for tick in 0..=300u64 {
        budget.receive(25_000, 200, start + ms(tick * 100));
    }
    assert_eq!(budget.target(), 2_000_000);
    assert_eq!(budget.reductions, 0);
}

#[test]
fn growing_delay_reduces_but_settled_offset_and_idle_do_not_pin_quality() {
    let start = START;
    let mut budget = ReceiveBudget::new(2_000_000);
    for tick in 0..=150u64 {
        budget.receive(25_000, tick * 10, start + ms(tick * 200));
    }
    assert_eq!(budget.target(), MIN_BPS);
    for tick in 151..=211u64 {
        budget.receive(25_000, 1500, start + ms(tick * 200));
    }
    assert_eq!(budget.target(), MIN_BPS + 100_000);
    budget.receive(25_000, 70, start + 80_000_000);
    budget.receive(25_000, 70, start + 100_000_000);
    assert_eq!(budget.target(), MIN_BPS + 100_000, "idle time cannot recover bandwidth");
}

#[test]
fn late_packet_at_every_sample_boundary_does_not_cut_a_clear_path() {
    let start = START;
    let mut budget = ReceiveBudget::new(2_000_000);
    for tick in 0..=300u64 {
        budget.receive(12_500, if tick % 2 == 0 { 160 } else { 10 }, start + ms(tick * 100));
    }
    assert_eq!(budget.target(), 2_000_000);
    assert_eq!(budget.reductions, 0);
}

#[test]
fn sustained_growth_reduces_demand_not_a_single_path_step() {
    let now = START;
    let mut budget = ReceiveBudget::new(2_000_000);
    for tick in 0..=30u64 {
        budget.receive(10_000, tick * 4, now + ms(tick * 100));
    }
    assert!(budget.target() < 1_000_000);
    assert_eq!(budget.reductions, 1);
}

#[test]
fn brief_jitter_is_ignored_and_recovery_is_deliberate() {
    let now = START;
    let mut budget = ReceiveBudget::new(2_000_000);
    for tick in 0..=30u64 {
        budget.receive(25_000, if tick == 2 { 150 } else { 5 }, now + ms(tick * 100));
    }
    assert_eq!(budget.target(), 2_000_000);
    for tick in 31..=100u64 {
        budget.receive(1_000, (tick - 30) * 10, now + ms(tick * 100));
    }
    assert_eq!(budget.target(), MIN_BPS);
    for tick in 101..=150u64 {
        budget.receive(10_000, 5, now + ms(tick * 100));
    }
    assert_eq!(budget.target(), MIN_BPS);
    for tick in 151..=220u64 {
        budget.receive(10_000, 5, now + ms(tick * 100));
    }
    assert_eq!(budget.target(), MIN_BPS + 100_000);
}

#[test]
fn rate_feedback_clears_a_bandwidth_drop_instead_of_accumulating_delay() {
    // A virtual bottleneck: 2 Mbps fits initially, then capacity drops to
    // 1 Mbps. Feedback reaches the sender after 100 ms. The old fixed cap
    // continues filling the queue; the adaptive budget drains it.
    let start = START;
    let mut adaptive = ReceiveBudget::new(2_000_000);
    let mut queued_bits = 0f64;
    let mut fixed_bits = 0f64;
    let mut sender_bps = 2_000_000;
    let mut previous_target = sender_bps;
    let mut last_delay = 0;
    for step in 0..600u64 {
        let capacity: f64 = if step < 20 { 3_000_000.0 } else { 1_000_000.0 };
        queued_bits += f64::from(sender_bps) / 10.0;
        let delivered = queued_bits.min(capacity / 10.0);
        queued_bits -= delivered;
        fixed_bits = (fixed_bits + 200_000.0 - capacity / 10.0).max(0.0);
        last_delay = (queued_bits / capacity * 1_000.0) as u64;
        adaptive.receive((delivered / 8.0) as usize, last_delay, start + ms(step * 100));
        sender_bps = previous_target;
        previous_target = adaptive.target();
    }
    assert!(fixed_bits / 1_000_000.0 > 50.0, "fixed budget must reproduce drift");
    assert!(last_delay < 100, "adaptive budget must clear the queue");
    assert!(adaptive.reductions > 0);
}

#[test]
fn reduction_is_capped_by_the_received_rate_and_the_floor() {
    let mut budget = ReceiveBudget::new(400_000);
    assert_eq!(budget.target(), 400_000);
    for tick in 0..=40u64 {
        budget.receive(1_000, tick * 50, START + ms(tick * 100));
    }
    // the floor is the maximum when the maximum is below 500 kbps
    assert_eq!(budget.target(), 400_000);
    assert_eq!(budget.reductions, 0);
}
