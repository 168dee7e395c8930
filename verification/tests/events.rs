use rustmine::event::{last_some, EventBus, ListenerEntry};

#[test]
fn registration_order_is_dispatch_order() {
    let mut bus = EventBus::default();
    // three awaited listeners A, B, C on the same event type, in order
    bus.listen(7, false, 100);
    bus.listen(7, false, 200);
    bus.listen(7, false, 300);
    let (spawned, awaited) = bus.dispatch_plan(7);
    assert!(spawned.is_empty());
    assert_eq!(awaited, vec![100, 200, 300]);
}

#[test]
fn awaited_results_are_last_write_wins() {
    // each listener yields a distinct value: the final result is C's
    let results: Vec<Option<&str>> = vec![Some("a"), Some("b"), Some("c")];
    assert_eq!(last_some(results), Some("c"));

    // later listeners that yield nothing leave the earlier value standing
    let results: Vec<Option<&str>> = vec![Some("a"), None, None];
    assert_eq!(last_some(results), Some("a"));

    let results: Vec<Option<&str>> = vec![None, Some("b"), None];
    assert_eq!(last_some(results), Some("b"));

    let results: Vec<Option<&str>> = vec![None, None];
    assert_eq!(last_some(results), None);

    let results: Vec<Option<&str>> = Vec::new();
    assert_eq!(last_some(results), None);
}

#[test]
fn lazy_listeners_are_spawned_not_awaited() {
    let mut bus = EventBus::default();
    bus.listen(3, true, 1);
    bus.listen(3, false, 2);
    bus.listen(3, true, 3);
    bus.listen(3, false, 4);
    let (spawned, awaited) = bus.dispatch_plan(3);
    assert_eq!(spawned, vec![1, 3]);
    assert_eq!(awaited, vec![2, 4]);
}

#[test]
fn listeners_are_scoped_to_their_tag() {
    let mut bus = EventBus::default();
    bus.listen(1, false, 10);
    bus.listen(2, false, 20);
    bus.listen(1, false, 11);
    assert_eq!(
        bus.listeners_for(1),
        vec![
            ListenerEntry { lazy: false, handler: 10 },
            ListenerEntry { lazy: false, handler: 11 },
        ]
    );
    assert_eq!(bus.listeners_for(2), vec![ListenerEntry { lazy: false, handler: 20 }]);
    assert!(bus.listeners_for(9).is_empty());
}
