use preprintd::connect::{
    connect_start, connect_step, is_probeable_host, remaining_ns, ConnectAction, ConnectEvent,
    ConnectFailure,
};

#[test]
fn remaining_time_saturates() {
    assert_eq!(remaining_ns(100, 40), 60);
    assert_eq!(remaining_ns(100, 100), 0);
    assert_eq!(remaining_ns(100, 150), 0);
}

#[test]
fn start_sets_the_deadline() {
    let s = connect_start(1_000, 500);
    assert_eq!(s.deadline_ns, 1_500);
    assert_eq!(connect_start(u64::MAX - 1, 10).deadline_ns, u64::MAX);
}

#[test]
fn resolve_failures() {
    let s = connect_start(0, 1_000);
    assert_eq!(
        connect_step(s, ConnectEvent::ResolveTimedOut, 10).1,
        ConnectAction::Fail(ConnectFailure::TimedOut)
    );
    assert_eq!(
        connect_step(s, ConnectEvent::ResolveFailed, 10).1,
        ConnectAction::Fail(ConnectFailure::ResolveFailed)
    );
    assert_eq!(
        connect_step(s, ConnectEvent::Resolved(0), 10).1,
        ConnectAction::Fail(ConnectFailure::NoAddresses)
    );
}

#[test]
fn addresses_tried_in_order_within_the_deadline() {
    let s = connect_start(0, 1_000);
    let (s, a) = connect_step(s, ConnectEvent::Resolved(3), 100);
    assert_eq!(a, ConnectAction::Attempt { index: 0, timeout_ns: 900 });
    let (s, a) = connect_step(s, ConnectEvent::AttemptFailed, 400);
    assert_eq!(a, ConnectAction::Attempt { index: 1, timeout_ns: 600 });
    let (s2, a) = connect_step(s, ConnectEvent::AttemptSucceeded, 500);
    assert_eq!(a, ConnectAction::Connected);
    assert_eq!(s2, s);
    let (s, a) = connect_step(s, ConnectEvent::AttemptFailed, 700);
    assert_eq!(a, ConnectAction::Attempt { index: 2, timeout_ns: 300 });
    let (_, a) = connect_step(s, ConnectEvent::AttemptFailed, 800);
    assert_eq!(a, ConnectAction::Fail(ConnectFailure::LastAttemptFailed));
}

#[test]
fn deadline_passing_stops_the_attempts() {
    let s = connect_start(0, 1_000);
    let (s, _) = connect_step(s, ConnectEvent::Resolved(3), 0);
    let (_, a) = connect_step(s, ConnectEvent::AttemptFailed, 1_000);
    assert_eq!(a, ConnectAction::Fail(ConnectFailure::LastAttemptFailed));
    let (_, a) = connect_step(connect_start(0, 1_000), ConnectEvent::Resolved(2), 2_000);
    assert_eq!(a, ConnectAction::Fail(ConnectFailure::NoAddresses));
}

#[test]
fn empty_host_is_not_probed() {
    assert!(!is_probeable_host(""));
    assert!(is_probeable_host("printer.lan"));
}
