use limber::stats::Counter;

#[test]
fn counter_starts_where_told() {
    let counter = Counter::new(7);
    assert_eq!(counter.get(), 7);
}

#[test]
fn increment_returns_the_new_value() {
    let mut counter = Counter::new(0);
    assert_eq!(counter.increment(3), 3);
    assert_eq!(counter.increment(0), 3);
    assert_eq!(counter.increment(5), 8);
    assert_eq!(counter.get(), 8);
}

#[test]
fn counter_never_decreases() {
    let mut counter = Counter::new(0);
    let mut last = 0usize;
    for amount in [4usize, 0, 1, 9, 0, 2] {
        let now = counter.increment(amount);
        assert!(now >= last);
        last = now;
    }
    assert_eq!(last, 16);
}

#[test]
fn interleaving_order_does_not_change_the_total() {
    // One worker reports pages of 3 and 2 hits, a sibling a page of 4;
    // the two interleavings end at the same total.
    let mut first = Counter::new(0);
    for n in [3usize, 4, 2] {
        first.increment(n);
    }
    let mut second = Counter::new(0);
    for n in [4usize, 3, 2] {
        second.increment(n);
    }
    assert_eq!(first.get(), second.get());
    assert_eq!(first.get(), 9);
}

#[test]
fn shared_counter_starts_where_told() {
    let counter = Counter::shared(3);
    assert_eq!(counter.get(), 3);
}
