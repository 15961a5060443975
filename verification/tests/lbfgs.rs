use dressed_trajectory_fields::lbfgs::CurvatureHistory;

#[test]
fn history_evicts_oldest_when_full() {
    let mut h = CurvatureHistory::new(3);
    for k in 0..5 {
        h.record(k);
    }
    assert_eq!(h.len(), 3);
    assert_eq!(h.capacity(), 3);
    assert_eq!((*h.get(0), *h.get(1), *h.get(2)), (2, 3, 4));
    assert_eq!(h.newest(), Some(&4));
}

#[test]
fn history_grows_until_full() {
    let mut h = CurvatureHistory::new(10);
    assert_eq!(h.newest(), None);
    h.record((vec![1.0], vec![2.0], 0.5));
    h.record((vec![3.0], vec![4.0], 0.25));
    assert_eq!(h.len(), 2);
    assert_eq!(h.get(0).2, 0.5);
    assert_eq!(h.newest().unwrap().2, 0.25);
}
