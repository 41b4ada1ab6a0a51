use std::cell::Cell;
use std::rc::Rc;

use flywheel::task::{resolve_step, sleep, sleep_until, timeout, timeout_at, Poll, Pollable};
use flywheel::time::{Duration, Instant};

/// Never resolves; counts how often it is polled.
struct Never {
    polls: Rc<Cell<u32>>,
}

impl Pollable for Never {
    type Output = u32;

    fn poll(&mut self, _now: Instant) -> Poll<u32> {
        self.polls.set(self.polls.get() + 1);
        Poll::Pending
    }
}

/// Resolves immediately with a fixed value.
struct Now(u32);

impl Pollable for Now {
    type Output = u32;

    fn poll(&mut self, _now: Instant) -> Poll<u32> {
        Poll::Ready(self.0)
    }
}

#[test]
fn sleep_pends_until_deadline() {
    let t0 = Instant::from_parts(100, 0);
    let mut s = sleep(t0, Duration::from_secs(5));
    assert!(matches!(s.poll(t0), Poll::Pending));
    assert!(matches!(s.poll(Instant::from_parts(104, 999_999_999)), Poll::Pending));
    assert!(matches!(s.poll(Instant::from_parts(105, 0)), Poll::Ready(())));
    assert!(matches!(s.poll(Instant::from_parts(200, 0)), Poll::Ready(())));
}

#[test]
fn sleep_until_uses_given_deadline() {
    let deadline = Instant::from_parts(50, 1);
    let mut s = sleep_until(deadline);
    assert!(matches!(s.poll(Instant::from_parts(50, 0)), Poll::Pending));
    assert!(matches!(s.poll(deadline), Poll::Ready(())));
}

#[test]
fn timeout_fails_with_original_deadline_and_drops_inner() {
    let polls = Rc::new(Cell::new(0));
    let t0 = Instant::from_parts(10, 0);
    let mut t = timeout(t0, Duration::from_secs(3), Never { polls: polls.clone() });
    assert!(t.live());

    assert!(matches!(t.poll(t0), Poll::Pending));
    assert_eq!(polls.get(), 1);
    assert!(t.live());
    assert!(matches!(t.poll(Instant::from_parts(12, 999_999_999)), Poll::Pending));
    assert_eq!(polls.get(), 2);

    let late = Instant::from_parts(13, 0);
    match t.poll(late) {
        Poll::Ready(Err(e)) => assert_eq!(e.at.to_parts(), (13, 0)),
        _ => panic!("expected the timeout failure"),
    }
    assert_eq!(polls.get(), 3);
    // the wrapped computation was dropped and cannot be polled again
    assert!(!t.live());
}

#[test]
fn timeout_at_carries_exceeded_deadline() {
    let deadline = Instant::from_parts(42, 7);
    let polls = Rc::new(Cell::new(0));
    let mut t = timeout_at(deadline, Never { polls });
    match t.poll(Instant::from_parts(42, 7)) {
        Poll::Ready(Err(e)) => assert_eq!(e.at.to_parts(), (42, 7)),
        _ => panic!("expected the timeout failure"),
    }
}

#[test]
fn timeout_returns_inner_result_first() {
    let t0 = Instant::from_parts(0, 0);
    let mut t = timeout(t0, Duration::from_secs(1), Now(31));
    // the wrapped computation is polled first, even past the deadline
    match t.poll(Instant::from_parts(100, 0)) {
        Poll::Ready(Ok(v)) => assert_eq!(v, 31),
        _ => panic!("expected the inner result"),
    }
}

#[test]
fn resolve_step_decides_one_timeout_step() {
    let deadline = Instant::from_parts(5, 0);
    let before = Instant::from_parts(4, 999_999_999);
    let at = Instant::from_parts(5, 0);
    // a ready inner wins as success, even past the deadline
    match resolve_step(deadline, Instant::from_parts(9, 0), Poll::Ready(17u32)) {
        Poll::Ready(Ok(v)) => assert_eq!(v, 17),
        _ => panic!("expected success"),
    }
    // a pending inner before the deadline stays suspended
    assert!(matches!(resolve_step::<u32>(deadline, before, Poll::Pending), Poll::Pending));
    // the deadline check is inclusive, and the failure carries the deadline
    match resolve_step::<u32>(deadline, at, Poll::Pending) {
        Poll::Ready(Err(e)) => assert_eq!(e.at.to_parts(), (5, 0)),
        _ => panic!("expected the timeout failure"),
    }
}
