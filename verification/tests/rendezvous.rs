use membench::barrier::CountdownBarrier;

#[test]
fn releases_only_after_the_fourth_arrival() {
    let mut b = CountdownBarrier::new(4);
    assert!(!b.is_released());
    b.arrive();
    assert!(!b.is_released());
    b.arrive();
    assert!(!b.is_released());
    b.arrive();
    assert!(!b.is_released());
    b.arrive();
    assert!(b.is_released());
    b.await_release();
}

#[test]
fn a_single_party_releases_itself() {
    let mut b = CountdownBarrier::new(1);
    assert!(!b.is_released());
    b.arrive();
    assert!(b.is_released());
    b.await_release();
}
