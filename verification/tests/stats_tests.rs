use lanwatch::StatTable;

const A: [u8; 6] = [0x00, 0x11, 0x22, 0x33, 0x44, 0x55];
const B: [u8; 6] = [0xaa, 0xbb, 0xcc, 0xdd, 0xee, 0xff];

#[test]
fn record_counts_both_windows() {
    let mut t = StatTable::new();
    for _ in 0..5 {
        t.record(&A);
    }
    t.record(&B);
    let snap = t.snapshot_and_reset_period();
    assert_eq!(snap.len(), 2);
    assert_eq!(snap[0].addr, A);
    assert_eq!(snap[0].total, 5);
    assert_eq!(snap[0].period, 5);
    assert_eq!(snap[1].addr, B);
    assert_eq!(snap[1].total, 1);
    assert_eq!(snap[1].period, 1);
}

#[test]
fn reset_restarts_period_and_keeps_total() {
    let mut t = StatTable::new();
    for _ in 0..3 {
        t.record(&A);
    }
    t.snapshot_and_reset_period();
    t.record(&A);
    t.record(&A);
    let snap = t.snapshot_and_reset_period();
    assert_eq!(snap.len(), 1);
    assert_eq!(snap[0].total, 5);
    assert_eq!(snap[0].period, 2);
}

#[test]
fn snapshot_twice_reports_zero_periods_and_same_totals() {
    let mut t = StatTable::new();
    for _ in 0..4 {
        t.record(&A);
    }
    t.record(&B);
    let first = t.snapshot_and_reset_period();
    let second = t.snapshot_and_reset_period();
    assert_eq!(first.len(), second.len());
    for (f, s) in first.iter().zip(second.iter()) {
        assert_eq!(f.addr, s.addr);
        assert_eq!(f.total, s.total);
        assert_eq!(s.period, 0);
    }
}

#[test]
fn take_period_resets_only_the_tracked_address() {
    let mut t = StatTable::new();
    t.record(&A);
    t.record(&A);
    t.record(&B);
    assert_eq!(t.take_period(&A), 2);
    assert_eq!(t.take_period(&A), 0);
    let snap = t.snapshot_and_reset_period();
    assert_eq!(snap[0].addr, A);
    assert_eq!(snap[0].total, 2);
    assert_eq!(snap[0].period, 0);
    assert_eq!(snap[1].addr, B);
    assert_eq!(snap[1].total, 1);
    assert_eq!(snap[1].period, 1);
}

#[test]
fn take_period_creates_entry_for_unseen_address() {
    let mut t = StatTable::new();
    assert_eq!(t.take_period(&A), 0);
    let snap = t.snapshot_and_reset_period();
    assert_eq!(snap.len(), 1);
    assert_eq!(snap[0].addr, A);
    assert_eq!(snap[0].total, 0);
    assert_eq!(snap[0].period, 0);
}

#[test]
fn can_record_is_true_for_fresh_addresses() {
    let mut t = StatTable::new();
    assert!(t.can_record(&A));
    t.record(&A);
    assert!(t.can_record(&A));
    assert!(t.can_record(&B));
}
