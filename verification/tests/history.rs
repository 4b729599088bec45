use matched_filter::history::HistoryTracker;

#[test]
fn tracker_evicts_oldest() {
    let mut t = HistoryTracker::<f32>::new(2);
    t.push(1.0);
    t.push(2.0);
    t.push(3.0);
    assert_eq!(t.snapshot(), &[3.0f32, 2.0]);
}

#[test]
fn tracker_never_exceeds_capacity() {
    let mut t = HistoryTracker::<f32>::new(5);
    for i in 0..12 {
        t.push(i as f32);
        assert!(t.len() <= 5);
    }
    assert_eq!(t.len(), 5);
    assert_eq!(t.get(0), 11.0);
    assert_eq!(t.snapshot(), &[11.0f32, 10.0, 9.0, 8.0, 7.0]);
}

#[test]
fn tracker_readiness_and_clear() {
    let mut t = HistoryTracker::<f32>::new(3);
    assert!(!t.is_ready());
    t.push(0.5);
    t.push(0.25);
    assert!(!t.is_ready());
    t.push(0.125);
    assert!(t.is_ready());
    t.clear();
    assert!(!t.is_ready());
    assert_eq!(t.len(), 0);
    assert_eq!(t.capacity(), 3);
}
