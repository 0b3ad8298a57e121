use auto_backup::debounce::Debouncer;

fn path(parts: &[&str]) -> Vec<Vec<u8>> {
    parts.iter().map(|p| p.as_bytes().to_vec()).collect()
}

#[test]
fn fresh_debouncer_has_nothing_due() {
    let mut d = Debouncer::new(1000);
    assert!(d.take_due(u64::MAX).is_empty());
}

#[test]
fn burst_collapses_into_one_hand_out() {
    let p = path(&["", "src", "a.txt"]);
    let mut d = Debouncer::new(1000);
    // three notifications, intervals all shorter than the window
    d.notify(&p, 0);
    d.notify(&p, 300);
    d.notify(&p, 600);
    // not due before last notification + window
    assert!(d.take_due(1599).is_empty());
    // due exactly once at last + window
    let due = d.take_due(1600);
    assert_eq!(due.len(), 1);
    assert_eq!(due[0], p);
    // and never again without a new notification
    assert!(d.take_due(5000).is_empty());
}

#[test]
fn first_fire_time_is_rearmed_by_later_notification() {
    let p = path(&["", "src", "a.txt"]);
    let mut d = Debouncer::new(1000);
    d.notify(&p, 0);
    // quiet until 999, then activity again: the fire time moves to 1999
    d.notify(&p, 999);
    assert!(d.take_due(1000).is_empty());
    assert!(d.take_due(1998).is_empty());
    assert_eq!(d.take_due(1999).len(), 1);
}

#[test]
fn paths_debounce_independently() {
    let a = path(&["", "src", "a.txt"]);
    let b = path(&["", "src", "proj", "b.txt"]);
    let mut d = Debouncer::new(1000);
    d.notify(&a, 0);
    d.notify(&b, 500);
    let due = d.take_due(1000);
    assert_eq!(due.len(), 1);
    assert_eq!(due[0], a);
    let due = d.take_due(1500);
    assert_eq!(due.len(), 1);
    assert_eq!(due[0], b);
}

#[test]
fn quiet_path_survives_other_paths_bursts() {
    let a = path(&["", "src", "a.txt"]);
    let b = path(&["", "src", "b.txt"]);
    let mut d = Debouncer::new(1000);
    d.notify(&a, 0);
    d.notify(&b, 100);
    d.notify(&b, 900);
    let due = d.take_due(1000);
    assert_eq!(due, vec![a]);
    assert!(d.take_due(1899).is_empty());
    assert_eq!(d.take_due(1900), vec![b]);
}
