use hydro_cli::broadcast::SubscriberRegistry;

#[test]
fn subscribers_receive_lines_in_order() {
    let mut reg = SubscriberRegistry::new();
    let a = reg.subscribe();
    let b = reg.subscribe();
    for line in ["one", "two", "three"] {
        assert!(!reg.deliver(line.to_string()));
    }
    for r in [&a, &b] {
        assert_eq!(r.try_recv().unwrap(), "one");
        assert_eq!(r.try_recv().unwrap(), "two");
        assert_eq!(r.try_recv().unwrap(), "three");
        assert!(r.try_recv().is_err());
    }
}

#[test]
fn late_subscriber_sees_no_earlier_lines() {
    let mut reg = SubscriberRegistry::new();
    let early = reg.subscribe();
    assert!(!reg.deliver("first".to_string()));
    let late = reg.subscribe();
    assert!(!reg.deliver("second".to_string()));
    assert_eq!(early.try_recv().unwrap(), "first");
    assert_eq!(early.try_recv().unwrap(), "second");
    assert_eq!(late.try_recv().unwrap(), "second");
    assert!(late.try_recv().is_err());
}

#[test]
fn without_subscribers_every_line_falls_back() {
    let mut reg = SubscriberRegistry::new();
    assert_eq!(reg.len(), 0);
    assert!(reg.deliver("x".to_string()));
    assert!(reg.deliver("y".to_string()));
    assert_eq!(reg.len(), 0);
}

#[test]
fn closed_subscribers_are_pruned() {
    let mut reg = SubscriberRegistry::new();
    let gone = reg.subscribe();
    let kept = reg.subscribe();
    drop(gone);
    assert!(!reg.deliver("a".to_string()));
    assert_eq!(reg.len(), 1);
    assert_eq!(kept.try_recv().unwrap(), "a");
    drop(kept);
    assert!(reg.deliver("b".to_string()));
    assert_eq!(reg.len(), 0);
}

#[test]
fn settle_pass_keeps_only_accepted_open_subscribers() {
    let mut reg = SubscriberRegistry::new();
    let a = reg.subscribe();
    let b = reg.subscribe();
    let c = reg.subscribe();
    let line = "x".to_string();
    assert!(!reg.settle_pass(&line, &vec![(true, false), (false, true), (true, true)]));
    assert_eq!(reg.len(), 1);
    assert!(!reg.deliver("y".to_string()));
    assert_eq!(a.try_recv().unwrap(), "y");
    assert!(b.try_recv().is_err());
    assert!(c.try_recv().is_err());
}

#[test]
fn settle_pass_with_no_acceptance_falls_back() {
    let mut reg = SubscriberRegistry::new();
    let _a = reg.subscribe();
    let _b = reg.subscribe();
    let line = "x".to_string();
    assert!(reg.settle_pass(&line, &vec![(false, true), (false, true)]));
    assert_eq!(reg.len(), 0);
}

#[test]
fn settle_pass_closed_after_accepting_is_observed_but_dropped() {
    let mut reg = SubscriberRegistry::new();
    let _a = reg.subscribe();
    let line = "x".to_string();
    assert!(!reg.settle_pass(&line, &vec![(true, true)]));
    assert_eq!(reg.len(), 0);
}
