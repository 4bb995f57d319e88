use catalog_notify::lifecycle::Controller;
use catalog_notify::SubscriberSet;

#[test]
fn subscribe_twice_keeps_one_entry_and_one_loop() {
    let mut c = Controller::new();
    let first = c.subscribe(7);
    assert!(first.newly_added);
    assert!(first.start_loop);
    let second = c.subscribe(7);
    assert!(!second.newly_added);
    assert!(!second.start_loop);
    assert_eq!(c.subscriber_count(), 1);
    assert!(c.is_running());
}

#[test]
fn last_unsubscribe_stops_and_resubscribe_restarts() {
    let mut c = Controller::new();
    c.subscribe(7);
    let gone = c.unsubscribe(7);
    assert!(gone.removed);
    assert!(gone.stop_loop);
    assert!(!c.is_running());
    assert_eq!(c.subscriber_count(), 0);
    let back = c.subscribe(8);
    assert!(back.start_loop);
    assert!(c.is_running());
}

#[test]
fn unsubscribe_of_stranger_changes_nothing() {
    let mut c = Controller::new();
    c.subscribe(1);
    c.subscribe(2);
    let o = c.unsubscribe(9);
    assert!(!o.removed);
    assert!(!o.stop_loop);
    assert!(c.is_running());
    assert_eq!(c.subscriber_count(), 2);
}

#[test]
fn non_last_unsubscribe_keeps_loop() {
    let mut c = Controller::new();
    c.subscribe(1);
    c.subscribe(2);
    let o = c.unsubscribe(1);
    assert!(o.removed);
    assert!(!o.stop_loop);
    assert!(c.is_running());
}

#[test]
fn note_loop_exit_allows_fresh_start() {
    let mut c = Controller::new();
    c.subscribe(1);
    c.note_loop_exit();
    assert!(!c.is_running());
    let again = c.subscribe(1);
    assert!(!again.newly_added);
    assert!(again.start_loop);
}

#[test]
fn registry_keeps_subscription_order() {
    let mut s = SubscriberSet::new();
    assert!(s.subscribe(3));
    assert!(s.subscribe(1));
    assert!(s.subscribe(2));
    assert!(!s.subscribe(1));
    assert_eq!(s.snapshot(), vec![3, 1, 2]);
    assert!(s.unsubscribe(1));
    assert!(!s.unsubscribe(1));
    assert_eq!(s.snapshot(), vec![3, 2]);
    assert!(s.contains(2));
    assert!(!s.contains(1));
}
