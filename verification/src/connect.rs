//! Connecting to a printer within a deadline: the host name is resolved
//! with a bounded wait, then the resolved addresses are tried in order, each
//! attempt cut to the time left before the deadline, until one connects or
//! the addresses or the time run out.
use vstd::prelude::*;

verus! {

/// A printer host is worth probing only when it is named: an empty host
/// counts as offline without any connection attempt.
pub fn is_probeable_host(host: &str) -> (b: bool)
    ensures
        b == (host@.len() > 0),
{
    !host.is_empty()
}

/// Time left before `deadline_ns` at `now_ns`, saturating at zero.
pub fn remaining_ns(deadline_ns: u64, now_ns: u64) -> (r: u64)
    ensures
        r == if now_ns < deadline_ns {
            deadline_ns - now_ns
        } else {
            0
        },
{
    if now_ns < deadline_ns {
        deadline_ns - now_ns
    } else {
        0
    }
}

/// What came of a step of the caller's work.
#[derive(Clone, Copy, Debug, PartialEq, Eq, Structural)]
pub enum ConnectEvent {
    /// Resolving the host name took longer than the timeout.
    ResolveTimedOut,
    /// Resolving the host name failed.
    ResolveFailed,
    /// The host name resolved to this many addresses.
    Resolved(usize),
    /// The last connection attempt failed.
    AttemptFailed,
    /// The last connection attempt succeeded.
    AttemptSucceeded,
}

/// Why no connection was made.
#[derive(Clone, Copy, Debug, PartialEq, Eq, Structural)]
pub enum ConnectFailure {
    /// Resolving the host name took longer than the timeout.
    TimedOut,
    /// Resolving the host name failed (the resolver's error stands).
    ResolveFailed,
    /// Every attempt made failed (the last attempt's error stands).
    LastAttemptFailed,
    /// No attempt was made: there was no address, or no time left.
    NoAddresses,
}

/// What the caller is to do next.
#[derive(Clone, Copy, Debug, PartialEq, Eq, Structural)]
pub enum ConnectAction {
    /// Try the address at `index`, for at most `timeout_ns`.
    Attempt { index: usize, timeout_ns: u64 },
    /// The last attempt connected.
    Connected,
    /// Give up.
    Fail(ConnectFailure),
}

/// Where a connection stands: the deadline, how many addresses there are,
/// the next one to try, and whether any attempt was made.
#[derive(Clone, Copy, Debug, PartialEq, Eq, Structural)]
pub struct ConnectState {
    pub deadline_ns: u64,
    pub count: usize,
    pub next: usize,
    pub attempted: bool,
}

/// The state at `now_ns` of a connection that must be made within
/// `timeout_ns`, before the host name is resolved.
pub fn connect_start(now_ns: u64, timeout_ns: u64) -> (s: ConnectState)
    ensures
        s.deadline_ns == if now_ns + timeout_ns <= u64::MAX {
            (now_ns + timeout_ns) as u64
        } else {
            u64::MAX
        },
        s.count == 0,
        s.next == 0,
        !s.attempted,
{
    let deadline_ns = if now_ns <= u64::MAX - timeout_ns {
        now_ns + timeout_ns
    } else {
        u64::MAX
    };
    ConnectState { deadline_ns, count: 0, next: 0, attempted: false }
}

/// The next thing to do in state `s` at `now_ns`: try the next address while
/// there is one and time is left; otherwise give up, with the last attempt's
/// failure if one was made.
pub open spec fn connect_decide(s: ConnectState, now_ns: u64) -> ConnectAction {
    if s.next < s.count && now_ns < s.deadline_ns {
        ConnectAction::Attempt { index: s.next, timeout_ns: (s.deadline_ns - now_ns) as u64 }
    } else if s.attempted {
        ConnectAction::Fail(ConnectFailure::LastAttemptFailed)
    } else {
        ConnectAction::Fail(ConnectFailure::NoAddresses)
    }
}

/// The state after an event, and what to do next.
pub open spec fn connect_step_spec(s: ConnectState, e: ConnectEvent, now_ns: u64) -> (ConnectState, ConnectAction) {
    match e {
        ConnectEvent::ResolveTimedOut => (s, ConnectAction::Fail(ConnectFailure::TimedOut)),
        ConnectEvent::ResolveFailed => (s, ConnectAction::Fail(ConnectFailure::ResolveFailed)),
        ConnectEvent::Resolved(n) => {
            let t = ConnectState { count: n, next: 0, attempted: false, ..s };
            (t, connect_decide(t, now_ns))
        },
        ConnectEvent::AttemptFailed => {
            let t = ConnectState {
                next: if s.next < s.count {
                    (s.next + 1) as usize
                } else {
                    s.next
                },
                attempted: true,
                ..s
            };
            (t, connect_decide(t, now_ns))
        },
        ConnectEvent::AttemptSucceeded => (s, ConnectAction::Connected),
    }
}

/// The state after an event, and what to do next.
pub fn connect_step(s: ConnectState, e: ConnectEvent, now_ns: u64) -> (r: (ConnectState, ConnectAction))
    ensures
        r == connect_step_spec(s, e, now_ns),
        r.1 matches ConnectAction::Attempt { index, timeout_ns } ==> {
            &&& index == r.0.next
            &&& r.0.next < r.0.count
            &&& now_ns < r.0.deadline_ns
            &&& timeout_ns == r.0.deadline_ns - now_ns
        },
{
    let t = match e {
        ConnectEvent::ResolveTimedOut => {
            return (s, ConnectAction::Fail(ConnectFailure::TimedOut));
        },
        ConnectEvent::ResolveFailed => {
            return (s, ConnectAction::Fail(ConnectFailure::ResolveFailed));
        },
        ConnectEvent::AttemptSucceeded => {
            return (s, ConnectAction::Connected);
        },
        ConnectEvent::Resolved(n) => ConnectState {
            deadline_ns: s.deadline_ns,
            count: n,
            next: 0,
            attempted: false,
        },
        ConnectEvent::AttemptFailed => ConnectState {
            deadline_ns: s.deadline_ns,
            count: s.count,
            next: if s.next < s.count {
                s.next + 1
            } else {
                s.next
            },
            attempted: true,
        },
    };
    let action = if t.next < t.count && now_ns < t.deadline_ns {
        ConnectAction::Attempt { index: t.next, timeout_ns: remaining_ns(t.deadline_ns, now_ns) }
    } else if t.attempted {
        ConnectAction::Fail(ConnectFailure::LastAttemptFailed)
    } else {
        ConnectAction::Fail(ConnectFailure::NoAddresses)
    };
    (t, action)
}

/// After resolving, every attempt is cut to the time left before the
/// deadline, so no attempt runs past it; the addresses are tried in order,
/// each at most once; the deadline never moves; and a failure is blamed on
/// the last attempt only when an attempt was made.
pub proof fn lemma_connect_within_deadline(s: ConnectState, e: ConnectEvent, now_ns: u64)
    requires
        s.next <= s.count,
    ensures
        ({
            let (t, a) = connect_step_spec(s, e, now_ns);
            &&& t.deadline_ns == s.deadline_ns
            &&& t.next <= t.count
            &&& (a matches ConnectAction::Attempt { index, timeout_ns } ==> now_ns + timeout_ns
                == s.deadline_ns && timeout_ns > 0 && index < t.count)
            &&& (e == ConnectEvent::AttemptFailed ==> t.next == if s.next < s.count {
                s.next + 1
            } else {
                s.count as int
            })
            &&& (a == ConnectAction::Fail(ConnectFailure::LastAttemptFailed) ==> t.attempted)
            &&& (a == ConnectAction::Fail(ConnectFailure::NoAddresses) ==> !t.attempted)
            &&& (e == ConnectEvent::ResolveTimedOut <==> a == ConnectAction::Fail(
                ConnectFailure::TimedOut,
            ))
        }),
{
}

} // verus!
