use edt::progress::ProgressUpdate;

#[test]
fn cancel_flag_round_trips() {
    let u = ProgressUpdate::new(10);
    assert!(!u.is_cancelled());
    u.cancel();
    assert!(u.is_cancelled());
}

#[test]
fn progress_counts_follow_updates() {
    let u = ProgressUpdate::new(100);
    assert_eq!(u.counts(), (0, 100));
    u.inc_done(30);
    assert_eq!(u.counts(), (30, 100));
    let shared = u.clone();
    shared.inc_done(70);
    assert_eq!(u.counts(), (100, 100));
    u.set_done(5);
    assert_eq!(shared.counts(), (5, 100));
}
