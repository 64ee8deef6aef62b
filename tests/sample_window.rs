use tactical_core::SampleWindow;

#[test]
fn window_evicts_oldest_when_full() {
    let mut w: SampleWindow<u32> = SampleWindow::new(3);
    assert!(w.is_empty());
    for x in 1..=5u32 {
        w.push(x);
    }
    assert_eq!(w.len(), 3);
    assert_eq!(w.as_slice(), &[3, 4, 5]);
    assert_eq!(w.get(0), &3);
    assert_eq!(w.last(), Some(&5));
}

#[test]
fn window_below_capacity_keeps_everything() {
    let mut w: SampleWindow<i64> = SampleWindow::new(100);
    for x in 0..10i64 {
        w.push(-x);
    }
    assert_eq!(w.len(), 10);
    assert_eq!(w.get(9), &-9);
    assert_eq!(w.capacity(), 100);
}

#[test]
fn window_evict_and_clear() {
    let mut w: SampleWindow<u8> = SampleWindow::new(2);
    w.evict_oldest();
    assert!(w.is_empty());
    w.push(1);
    w.push(2);
    w.evict_oldest();
    assert_eq!(w.as_slice(), &[2]);
    w.clear();
    assert!(w.is_empty());
    assert_eq!(w.last(), None);
}

#[test]
fn window_holds_float_samples() {
    let mut w: SampleWindow<(f64, f64)> = SampleWindow::new(1);
    w.push((1.5, 2.5));
    w.push((3.5, 4.5));
    assert_eq!(w.as_slice(), &[(3.5, 4.5)]);
}
