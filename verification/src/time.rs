//! Durations and a monotonic instant derived from the host clock.
//!
//! The host exposes the clock as a (seconds, nanoseconds)-since-epoch pair;
//! [`Instant::from_parts`] turns one reading into an `Instant`. All arithmetic
//! that could leave the representable range is checked or saturating and
//! never wraps.

use vstd::prelude::*;

verus! {

/// Nanoseconds in one second.
pub const NANOS_PER_SEC: u32 = 1_000_000_000;

/// The largest span representable by [`Duration`], in nanoseconds.
pub open spec fn max_duration_nanos() -> int {
    u64::MAX * 1_000_000_000 + 999_999_999
}

/// A span of time, counted in whole seconds and a sub-second nanosecond part.
#[derive(Clone, Copy, Debug, PartialEq, Eq, Structural, Hash)]
pub struct Duration {
    secs: u64,
    nanos: u32,
}

impl View for Duration {
    type V = int;

    /// A duration is modelled as its total length in nanoseconds.
    closed spec fn view(&self) -> int {
        self.secs * 1_000_000_000 + self.nanos
    }
}

impl Duration {
    /// The nanosecond part always stays below one second.
    #[verifier::type_invariant]
    spec fn wf(self) -> bool {
        self.nanos < 1_000_000_000
    }

    /// Creates a new `Duration` from whole seconds and additional nanoseconds.
    ///
    /// Extra nanoseconds above one second carry into the seconds, which must
    /// not overflow.
    pub fn new(secs: u64, nanos: u32) -> (r: Self)
        requires
            secs + nanos as int / 1_000_000_000 <= u64::MAX,
        ensures
            r@ == secs * 1_000_000_000 + nanos,
    {
        if nanos < NANOS_PER_SEC {
            Duration { secs, nanos }
        } else {
            let carry: u32 = nanos / NANOS_PER_SEC;
            let rest: u32 = nanos % NANOS_PER_SEC;
            Duration { secs: secs + carry as u64, nanos: rest }
        }
    }

    /// The zero-length duration.
    pub fn zero() -> (r: Self)
        ensures
            r@ == 0,
    {
        Duration { secs: 0, nanos: 0 }
    }

    /// Creates a new `Duration` from the given number of whole seconds.
    pub fn from_secs(secs: u64) -> (r: Self)
        ensures
            r@ == secs * 1_000_000_000,
    {
        Duration { secs, nanos: 0 }
    }

    /// Creates a new `Duration` from the given number of milliseconds.
    pub fn from_millis(millis: u64) -> (r: Self)
        ensures
            r@ == millis * 1_000_000,
    {
        let secs: u64 = millis / 1000;
        let nanos: u32 = ((millis % 1000) as u32) * 1_000_000;
        proof {
            assert(millis == 1000 * (millis as int / 1000) + millis as int % 1000);
        }
        Duration { secs, nanos }
    }

    /// Creates a new `Duration` from the given number of nanoseconds.
    pub fn from_nanos(nanos: u64) -> (r: Self)
        ensures
            r@ == nanos,
    {
        let secs: u64 = nanos / (NANOS_PER_SEC as u64);
        let rest: u32 = (nanos % (NANOS_PER_SEC as u64)) as u32;
        proof {
            assert(nanos == 1_000_000_000 * (nanos as int / 1_000_000_000) + nanos as int
                % 1_000_000_000);
        }
        Duration { secs, nanos: rest }
    }

    /// The whole-second part of this duration.
    pub fn secs(&self) -> (r: u64)
        ensures
            r == self@ / 1_000_000_000,
    {
        proof {
            use_type_invariant(self);
            assert(self@ == 1_000_000_000 * self.secs + self.nanos);
            assert(self@ / 1_000_000_000 == self.secs + self.nanos as int / 1_000_000_000) by {
                vstd::arithmetic::div_mod::lemma_div_multiples_vanish_fancy(
                    self.secs as int,
                    self.nanos as int,
                    1_000_000_000,
                );
            }
        }
        self.secs
    }

    /// The sub-second part of this duration, in nanoseconds.
    pub fn subsec_nanos(&self) -> (r: u32)
        ensures
            r == self@ % 1_000_000_000,
            r < 1_000_000_000,
    {
        proof {
            use_type_invariant(self);
            assert(self@ == self.nanos + 1_000_000_000 * self.secs);
            assert(self@ % 1_000_000_000 == self.nanos as int % 1_000_000_000) by {
                vstd::arithmetic::div_mod::lemma_mod_multiples_vanish(
                    self.secs as int,
                    self.nanos as int,
                    1_000_000_000,
                );
            }
        }
        self.nanos
    }

    /// The sub-second part of this duration, in whole milliseconds.
    pub fn subsec_millis(&self) -> (r: u32)
        ensures
            r == (self@ % 1_000_000_000) / 1_000_000,
            r < 1000,
    {
        let n = self.subsec_nanos();
        n / 1_000_000
    }

    /// The total number of whole milliseconds in this duration.
    pub fn as_millis(&self) -> (r: u128)
        ensures
            r == self@ / 1_000_000,
    {
        proof {
            use_type_invariant(self);
        }
        let r: u128 = (self.secs as u128) * 1000 + (self.subsec_nanos() / 1_000_000) as u128;
        proof {
            let s = self.secs as int;
            let n = self.nanos as int;
            assert(self@ % 1_000_000_000 == n) by {
                vstd::arithmetic::div_mod::lemma_mod_multiples_vanish(s, n, 1_000_000_000);
            }
            assert(r == s * 1000 + n / 1_000_000);
            assert(self@ / 1_000_000 == (s * 1_000_000_000 + n) / 1_000_000);
            assert(n / 1_000_000 + s * 1000 == (n + (s * 1000) * 1_000_000) / 1_000_000) by {
                vstd::arithmetic::div_mod::lemma_hoist_over_denominator(n, s * 1000, 1_000_000);
            }
            assert((s * 1000) * 1_000_000 == s * 1_000_000_000) by (nonlinear_arith);
        }
        r
    }

    /// Checked duration addition; `None` when the sum does not fit.
    pub fn checked_add(&self, other: Duration) -> (r: Option<Duration>)
        ensures
            match r {
                Some(d) => d@ == self@ + other@ && self@ + other@ <= max_duration_nanos(),
                None => self@ + other@ > max_duration_nanos(),
            },
    {
        proof {
            use_type_invariant(self);
            use_type_invariant(&other);
        }
        let mut nanos: u32 = self.nanos + other.nanos;
        let mut carry: u64 = 0;
        if nanos >= NANOS_PER_SEC {
            nanos = nanos - NANOS_PER_SEC;
            carry = 1;
        }
        match self.secs.checked_add(other.secs) {
            Some(s) => match s.checked_add(carry) {
                Some(s2) => Some(Duration { secs: s2, nanos }),
                None => None,
            },
            None => None,
        }
    }

    /// Checked duration subtraction; `None` when `other` is longer than `self`.
    pub fn checked_sub(&self, other: Duration) -> (r: Option<Duration>)
        ensures
            match r {
                Some(d) => d@ == self@ - other@ && self@ >= other@,
                None => self@ < other@,
            },
    {
        proof {
            use_type_invariant(self);
            use_type_invariant(&other);
        }
        if self.secs >= other.secs {
            if self.nanos >= other.nanos {
                Some(Duration { secs: self.secs - other.secs, nanos: self.nanos - other.nanos })
            } else if self.secs > other.secs {
                Some(
                    Duration {
                        secs: self.secs - other.secs - 1,
                        nanos: (self.nanos + NANOS_PER_SEC) - other.nanos,
                    },
                )
            } else {
                None
            }
        } else {
            None
        }
    }

    /// Saturating duration subtraction: zero when `other` is longer than `self`.
    pub fn saturating_sub(&self, other: Duration) -> (r: Duration)
        ensures
            r@ == if self@ >= other@ {
                self@ - other@
            } else {
                0
            },
    {
        match self.checked_sub(other) {
            Some(d) => d,
            None => Duration { secs: 0, nanos: 0 },
        }
    }

    /// Whether this duration is no longer than `other`.
    pub fn le(&self, other: &Duration) -> (r: bool)
        ensures
            r == (self@ <= other@),
    {
        proof {
            use_type_invariant(self);
            use_type_invariant(other);
        }
        if self.secs != other.secs {
            self.secs < other.secs
        } else {
            self.nanos <= other.nanos
        }
    }
}

/// Law: every duration models a nonnegative count of nanoseconds. (With
/// this, a checked subtraction that undoes a successful checked addition is
/// always possible.)
pub proof fn lemma_duration_nonneg(d: Duration)
    ensures
        0 <= d@,
{
}

/// The number of whole milliseconds in one game tick.
pub const MILLIS_PER_TICK: u64 = 50;

/// Extends [`Duration`] with methods for game tick lengths.
///
/// One game tick is equivalent to 50 milliseconds, or 0.05 seconds.
pub trait DurationExt: Sized {
    /// Creates a new duration from the specified number of game ticks.
    fn from_ticks(ticks: u32) -> Self;

    /// Returns the total number of whole game ticks contained by this
    /// duration, truncated to 32 bits.
    fn as_ticks(&self) -> u32;

    /// Returns the fractional part of this duration, in whole game ticks.
    ///
    /// The returned number always represents a fractional portion of a
    /// second (i.e., it is less than 20).
    fn subsec_ticks(&self) -> u32;
}

impl DurationExt for Duration {
    /// One tick is 50 milliseconds.
    fn from_ticks(ticks: u32) -> (r: Self)
        ensures
            r@ == ticks * 50_000_000,
    {
        let d = Duration::from_millis((ticks as u64) * MILLIS_PER_TICK);
        proof {
            assert(ticks * 50 * 1_000_000 == ticks * 50_000_000) by (nonlinear_arith);
        }
        d
    }

    /// Total whole ticks: total milliseconds divided by 50, truncated to 32
    /// bits.
    fn as_ticks(&self) -> (r: u32)
        ensures
            r == (self@ / 1_000_000 / 50) % 0x1_0000_0000,
    {
        let m = self.as_millis();
        let q: u128 = m / 50;
        (q % 0x1_0000_0000) as u32
    }

    /// Whole ticks in the sub-second part; always below 20.
    fn subsec_ticks(&self) -> (r: u32)
        ensures
            r == (self@ % 1_000_000_000) / 1_000_000 / 50,
            r < 20,
    {
        self.subsec_millis() / 50
    }
}

/// The largest point in time representable by [`Instant`], in nanoseconds
/// since the epoch.
pub open spec fn max_instant_nanos() -> int {
    max_duration_nanos()
}

/// A monotonic point in time, measured as a duration since the epoch.
///
/// Readings come from the host clock as a (seconds, nanoseconds) pair.
#[derive(Clone, Copy, Debug, PartialEq, Eq, Structural, Hash)]
pub struct Instant {
    after_epoch: Duration,
}

impl View for Instant {
    type V = int;

    /// An instant is modelled as its distance from the epoch in nanoseconds.
    closed spec fn view(&self) -> int {
        self.after_epoch@
    }
}

/// Law: every instant lies at or after the epoch. (With this, a checked
/// subtraction that undoes a successful checked addition is always
/// possible.)
pub proof fn lemma_instant_nonneg(i: Instant)
    ensures
        0 <= i@,
{
}

impl Instant {
    /// The anchor in time from which the host clock counts:
    /// "1970-01-01 00:00:00 UTC" on all systems.
    pub fn unix_epoch() -> (r: Self)
        ensures
            r@ == 0,
    {
        Instant { after_epoch: Duration::zero() }
    }

    /// Builds the instant a host clock reading describes: `secs` whole
    /// seconds plus `nanos` nanoseconds after the epoch.
    pub fn from_parts(secs: u64, nanos: u32) -> (r: Self)
        requires
            secs + nanos as int / 1_000_000_000 <= u64::MAX,
        ensures
            r@ == secs * 1_000_000_000 + nanos,
    {
        Instant { after_epoch: Duration::new(secs, nanos) }
    }

    /// The time elapsed from `earlier` to this instant, or zero when
    /// `earlier` is the later of the two.
    pub fn duration_since(&self, earlier: Instant) -> (r: Duration)
        ensures
            r@ == if self@ >= earlier@ {
                self@ - earlier@
            } else {
                0
            },
    {
        self.after_epoch.saturating_sub(earlier.after_epoch)
    }

    /// The time elapsed from `earlier` to this instant, or `None` when
    /// `earlier` is the later of the two.
    pub fn checked_duration_since(&self, earlier: Instant) -> (r: Option<Duration>)
        ensures
            match r {
                Some(d) => d@ == self@ - earlier@ && self@ >= earlier@,
                None => self@ < earlier@,
            },
    {
        self.after_epoch.checked_sub(earlier.after_epoch)
    }

    /// The time elapsed from `earlier` to this instant, or zero when
    /// `earlier` is the later of the two.
    pub fn saturating_duration_since(&self, earlier: Instant) -> (r: Duration)
        ensures
            r@ == if self@ >= earlier@ {
                self@ - earlier@
            } else {
                0
            },
    {
        self.after_epoch.saturating_sub(earlier.after_epoch)
    }

    /// The time elapsed from this instant to the clock reading `now`, or
    /// zero when the reading lies before this instant.
    pub fn elapsed(&self, now: Instant) -> (r: Duration)
        ensures
            r@ == if now@ >= self@ {
                now@ - self@
            } else {
                0
            },
    {
        now.saturating_duration_since(*self)
    }

    /// This instant moved `duration` into the future; `None` when the sum
    /// does not fit.
    pub fn checked_add(&self, duration: Duration) -> (r: Option<Instant>)
        ensures
            match r {
                Some(i) => i@ == self@ + duration@ && self@ + duration@ <= max_instant_nanos(),
                None => self@ + duration@ > max_instant_nanos(),
            },
    {
        match self.after_epoch.checked_add(duration) {
            Some(d) => Some(Instant { after_epoch: d }),
            None => None,
        }
    }

    /// This instant moved `duration` into the past; `None` when that lies
    /// before the epoch.
    pub fn checked_sub(&self, duration: Duration) -> (r: Option<Instant>)
        ensures
            match r {
                Some(i) => i@ == self@ - duration@ && self@ >= duration@,
                None => self@ < duration@,
            },
    {
        match self.after_epoch.checked_sub(duration) {
            Some(d) => Some(Instant { after_epoch: d }),
            None => None,
        }
    }

    /// This instant as the host clock would report it: whole seconds and the
    /// sub-second nanoseconds since the epoch.
    pub fn to_parts(&self) -> (r: (u64, u32))
        ensures
            r.0 == self@ / 1_000_000_000,
            r.1 == self@ % 1_000_000_000,
    {
        (self.after_epoch.secs(), self.after_epoch.subsec_nanos())
    }

    /// Whether this instant lies at or after `other`.
    pub fn at_or_after(&self, other: &Instant) -> (r: bool)
        ensures
            r == (self@ >= other@),
    {
        other.after_epoch.le(&self.after_epoch)
    }
}

} // verus!
