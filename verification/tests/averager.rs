use camview::averager::Averager;

#[test]
fn average_counts_implicit_zeros_before_capacity() {
    let mut a: Averager<5> = Averager::new();
    // (10 + 0 + 0 + 0 + 0) / 5
    assert_eq!(a.add(10), 2);
    // (10 + 20 + 0 + 0 + 0) / 5
    assert_eq!(a.add(20), 6);
}

#[test]
fn average_is_mean_of_last_five() {
    let mut a: Averager<5> = Averager::new();
    a.add(10);
    a.add(20);
    a.add(30);
    a.add(40);
    assert_eq!(a.add(50), 30); // (10+20+30+40+50)/5
    assert_eq!(a.add(60), 40); // 10 evicted: (20+30+40+50+60)/5
    assert_eq!(a.add(70), 50); // 20 evicted
}

#[test]
fn average_rounds_down() {
    let mut a: Averager<5> = Averager::new();
    assert_eq!(a.add(1), 0); // 1/5
    assert_eq!(a.add(3), 0); // 4/5
    assert_eq!(a.add(3), 1); // 7/5
}

#[test]
fn capacity_one_tracks_the_last_sample() {
    let mut a: Averager<1> = Averager::new();
    assert_eq!(a.add(7), 7);
    assert_eq!(a.add(9), 9);
}
