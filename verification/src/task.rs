//! Deadline-based suspension primitives.
//!
//! A suspended computation makes progress only when the scheduler polls it
//! again: there is no wake mechanism, and the clock reading used by a poll
//! step is handed in by the caller. [`Sleep`] resolves once the reading
//! reaches its deadline; [`Timeout`] wraps another suspended computation and
//! cancels it once the reading passes the deadline.

use vstd::prelude::*;
use crate::time::{Duration, Instant, max_instant_nanos};

verus! {

/// The outcome of one poll step: either the computation's result, or the
/// request to be polled again later.
pub enum Poll<T> {
    Ready(T),
    Pending,
}

/// A suspended computation that the scheduler advances one step at a time.
///
/// Each step receives the current clock reading; the computation either
/// resolves with its output or stays pending. Handler authors implement this
/// for their own computations; the scheduler only ever polls.
pub trait Pollable {
    type Output;

    /// Advance this computation by one step at clock reading `now`.
    fn poll(&mut self, now: Instant) -> Poll<Self::Output>;
}

/// A suspended computation which waits until a specific point in time.
///
/// See [`sleep`] and [`sleep_until`].
pub struct Sleep {
    deadline: Instant,
}

impl Sleep {
    /// The point in time this sleep waits for, in nanoseconds since the
    /// epoch.
    pub closed spec fn spec_deadline(&self) -> int {
        self.deadline@
    }
}

impl Pollable for Sleep {
    type Output = ();

    /// Resolves the instant the clock reading is at or past the deadline;
    /// never earlier. Polling does not change the sleep.
    fn poll(&mut self, now: Instant) -> (r: Poll<()>)
        ensures
            *final(self) == *old(self),
            r is Ready <==> now@ >= old(self).spec_deadline(),
    {
        if now.at_or_after(&self.deadline) {
            Poll::Ready(())
        } else {
            Poll::Pending
        }
    }
}

/// Pauses the current task for some duration from the clock reading `now`.
///
/// Execution might not be paused for the exact duration given, but it will
/// never unpause before the duration expires.
pub fn sleep(now: Instant, duration: Duration) -> (r: Sleep)
    requires
        now@ + duration@ <= max_instant_nanos(),
    ensures
        r.spec_deadline() == now@ + duration@,
{
    match now.checked_add(duration) {
        Some(deadline) => Sleep { deadline },
        None => Sleep { deadline: now },  // unreachable: the sum fits
    }
}

/// Pauses the current task until some point in time.
///
/// Execution might not be paused until the exact point in time given, but it
/// will never unpause before the deadline expires.
pub fn sleep_until(deadline: Instant) -> (r: Sleep)
    ensures
        r.spec_deadline() == deadline@,
{
    Sleep { deadline }
}

/// An error returned by [`Timeout`] if the wrapped computation exceeded its
/// maximum execution time.
pub struct TimeoutError {
    /// The deadline that was exceeded.
    pub at: Instant,
}

/// A suspended computation which polls another one until a specific point in
/// time, then cancels it.
///
/// See [`timeout`] and [`timeout_at`].
pub struct Timeout<F: Pollable> {
    deadline: Instant,
    inner: Option<F>,
}

/// What one timeout step returns, given what the wrapped computation's own
/// step returned: a ready computation wins as success, even past the
/// deadline; a pending one times out with the failure carrying the deadline
/// once the clock reading `now` is at or past it (the check is inclusive),
/// and otherwise stays suspended.
pub fn resolve_step<T>(deadline: Instant, now: Instant, step: Poll<T>) -> (r: Poll<
    Result<T, TimeoutError>,
>)
    ensures
        match step {
            Poll::Ready(v) => r == Poll::<Result<T, TimeoutError>>::Ready(Ok(v)),
            Poll::Pending => if now@ >= deadline@ {
                r == Poll::<Result<T, TimeoutError>>::Ready(Err(TimeoutError { at: deadline }))
            } else {
                r is Pending
            },
        },
{
    match step {
        Poll::Ready(v) => Poll::Ready(Ok(v)),
        Poll::Pending => {
            if now.at_or_after(&deadline) {
                Poll::Ready(Err(TimeoutError { at: deadline }))
            } else {
                Poll::Pending
            }
        },
    }
}

impl<F: Pollable> Timeout<F> {
    /// The point in time at which the wrapped computation is cancelled, in
    /// nanoseconds since the epoch.
    pub closed spec fn spec_deadline(&self) -> int {
        self.deadline@
    }

    /// The wrapped computation, while this wrapper has not resolved; `None`
    /// once it has.
    pub closed spec fn spec_fut(&self) -> Option<F> {
        self.inner
    }

    /// Whether the wrapped computation is still held, i.e. this wrapper has
    /// not resolved yet.
    pub open spec fn is_live(&self) -> bool {
        self.spec_fut() is Some
    }

    /// Whether the wrapped computation is still held. Polling is allowed
    /// exactly while it is.
    pub fn live(&self) -> (r: bool)
        ensures
            r == self.is_live(),
    {
        match &self.inner {
            Some(_) => true,
            None => false,
        }
    }

    /// Advance by one step at clock reading `now`: the wrapped computation is
    /// polled exactly once, first; its step result decides the outcome as
    /// [`resolve_step`] states. On a timeout the computation is dropped and
    /// can never be polled again; what a still-pending computation holds
    /// after its step is the computation's own business (its poll step
    /// promises nothing), so only its presence is stated here.
    pub fn poll(&mut self, now: Instant) -> (r: Poll<Result<F::Output, TimeoutError>>)
        requires
            old(self).is_live(),
        ensures
            final(self).spec_deadline() == old(self).spec_deadline(),
            match r {
                Poll::Ready(res) => !final(self).is_live() && (res matches Err(e) ==> e.at@
                    == old(self).spec_deadline() && now@ >= old(self).spec_deadline()),
                Poll::Pending => final(self).is_live() && now@ < old(self).spec_deadline(),
            },
    {
        let fut_opt = self.inner.take();
        match fut_opt {
            Some(mut fut) => {
                let step = fut.poll(now);
                match resolve_step(self.deadline, now, step) {
                    Poll::Pending => {
                        self.inner = Some(fut);
                        Poll::Pending
                    },
                    Poll::Ready(out) => Poll::Ready(out),
                }
            },
            None => Poll::Pending,  // unreachable: the wrapper is live
        }
    }
}

/// Polls a suspended computation for some duration from the clock reading
/// `now`.
///
/// If the computation completes, the result is returned. If it takes longer
/// than the given duration, it is cancelled.
pub fn timeout<F: Pollable>(now: Instant, duration: Duration, fut: F) -> (r: Timeout<F>)
    requires
        now@ + duration@ <= max_instant_nanos(),
    ensures
        r.spec_deadline() == now@ + duration@,
        r.spec_fut() == Some(fut),
{
    match now.checked_add(duration) {
        Some(deadline) => Timeout { deadline, inner: Some(fut) },
        None => Timeout { deadline: now, inner: Some(fut) },  // unreachable: the sum fits
    }
}

/// Polls a suspended computation until some point in time.
///
/// If the computation completes, the result is returned. If it does not
/// finish before the given point in time, it is cancelled.
pub fn timeout_at<F: Pollable>(deadline: Instant, fut: F) -> (r: Timeout<F>)
    ensures
        r.spec_deadline() == deadline@,
        r.spec_fut() == Some(fut),
{
    Timeout { deadline, inner: Some(fut) }
}

} // verus!
