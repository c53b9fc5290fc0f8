//! Time abstractions: opaque instants and explicit durations, both counted
//! in nanoseconds.

use vstd::prelude::*;
use vstd::std_specs::ops::{AddSpec, SubSpec};

verus! {

/// A point in time, in nanoseconds since an arbitrary epoch.
#[derive(Debug, Clone, Copy, PartialEq, Eq, PartialOrd, Ord, Hash)]
pub struct Instant {
    nanos: u64,
}

/// A span of time, in nanoseconds.
#[derive(Debug, Clone, Copy, PartialEq, Eq, PartialOrd, Ord, Hash)]
pub struct Duration {
    nanos: u64,
}

impl View for Instant {
    type V = u64;

    closed spec fn view(&self) -> u64 {
        self.nanos
    }
}

impl View for Duration {
    type V = u64;

    closed spec fn view(&self) -> u64 {
        self.nanos
    }
}

/// Two instants with the same nanosecond count are the same instant.
pub proof fn lemma_instant_view_injective(a: Instant, b: Instant)
    requires
        a@ == b@,
    ensures
        a == b,
{
}

/// Two durations with the same nanosecond count are the same duration.
pub proof fn lemma_duration_view_injective(a: Duration, b: Duration)
    requires
        a@ == b@,
    ensures
        a == b,
{
}

impl Instant {
    /// Creates an instant from nanoseconds.
    pub fn from_nanos(nanos: u64) -> (r: Instant)
        ensures
            r@ == nanos,
    {
        Instant { nanos }
    }

    /// Returns nanoseconds since the epoch.
    pub fn as_nanos(&self) -> (r: u64)
        ensures
            r == self@,
    {
        self.nanos
    }

    /// Returns the duration since `earlier`, or zero when `earlier` is later.
    pub fn duration_since(&self, earlier: Instant) -> (r: Duration)
        ensures
            r@ == (if self@ >= earlier@ { (self@ - earlier@) as u64 } else { 0u64 }),
    {
        Duration::from_nanos(self.nanos.saturating_sub(earlier.nanos))
    }

    /// Whether `self` is strictly earlier than `other`.
    pub fn is_before(&self, other: &Instant) -> (r: bool)
        ensures
            r == (self@ < other@),
    {
        self.nanos < other.nanos
    }
}

impl Duration {
    /// Creates a duration from nanoseconds.
    pub fn from_nanos(nanos: u64) -> (r: Duration)
        ensures
            r@ == nanos,
    {
        Duration { nanos }
    }

    /// Creates a duration from microseconds.
    pub fn from_micros(micros: u64) -> (r: Duration)
        requires
            micros * 1_000 <= u64::MAX,
        ensures
            r@ == micros * 1_000,
    {
        Duration { nanos: micros * 1_000 }
    }

    /// Creates a duration from milliseconds.
    pub fn from_millis(millis: u64) -> (r: Duration)
        requires
            millis * 1_000_000 <= u64::MAX,
        ensures
            r@ == millis * 1_000_000,
    {
        Duration { nanos: millis * 1_000_000 }
    }

    /// Creates a duration from seconds.
    pub fn from_secs(secs: u64) -> (r: Duration)
        requires
            secs * 1_000_000_000 <= u64::MAX,
        ensures
            r@ == secs * 1_000_000_000,
    {
        Duration { nanos: secs * 1_000_000_000 }
    }

    /// Returns the duration in nanoseconds.
    pub fn as_nanos(&self) -> (r: u64)
        ensures
            r == self@,
    {
        self.nanos
    }

    /// Returns the duration in whole microseconds.
    pub fn as_micros(&self) -> (r: u64)
        ensures
            r == self@ / 1_000,
    {
        self.nanos / 1_000
    }

    /// Returns the duration in whole milliseconds.
    pub fn as_millis(&self) -> (r: u64)
        ensures
            r == self@ / 1_000_000,
    {
        self.nanos / 1_000_000
    }

    /// Returns the duration in whole seconds.
    pub fn as_secs(&self) -> (r: u64)
        ensures
            r == self@ / 1_000_000_000,
    {
        self.nanos / 1_000_000_000
    }
}

impl vstd::std_specs::ops::AddSpecImpl<Duration> for Instant {
    open spec fn obeys_add_spec() -> bool {
        true
    }

    open spec fn add_req(self, rhs: Duration) -> bool {
        self@ + rhs@ <= u64::MAX
    }

    closed spec fn add_spec(self, rhs: Duration) -> Instant {
        Instant { nanos: (self@ + rhs@) as u64 }
    }
}

impl std::ops::Add<Duration> for Instant {
    type Output = Instant;

    fn add(self, duration: Duration) -> (r: Instant)
        ensures
            r@ == self@ + duration@,
    {
        Instant::from_nanos(self.nanos + duration.nanos)
    }
}

impl vstd::std_specs::ops::SubSpecImpl<Duration> for Instant {
    open spec fn obeys_sub_spec() -> bool {
        true
    }

    open spec fn sub_req(self, rhs: Duration) -> bool {
        true
    }

    closed spec fn sub_spec(self, rhs: Duration) -> Instant {
        Instant { nanos: if self@ >= rhs@ { (self@ - rhs@) as u64 } else { 0 } }
    }
}

impl std::ops::Sub<Duration> for Instant {
    type Output = Instant;

    /// Moves the instant back by `duration`, saturating at the epoch.
    fn sub(self, duration: Duration) -> (r: Instant)
        ensures
            r@ == (if self@ >= duration@ { (self@ - duration@) as u64 } else { 0u64 }),
    {
        Instant::from_nanos(self.nanos.saturating_sub(duration.nanos))
    }
}

impl vstd::std_specs::ops::AddSpecImpl<Duration> for Duration {
    open spec fn obeys_add_spec() -> bool {
        true
    }

    open spec fn add_req(self, rhs: Duration) -> bool {
        self@ + rhs@ <= u64::MAX
    }

    closed spec fn add_spec(self, rhs: Duration) -> Duration {
        Duration { nanos: (self@ + rhs@) as u64 }
    }
}

impl std::ops::Add<Duration> for Duration {
    type Output = Duration;

    fn add(self, other: Duration) -> (r: Duration)
        ensures
            r@ == self@ + other@,
    {
        Duration::from_nanos(self.nanos + other.nanos)
    }
}

impl vstd::std_specs::ops::SubSpecImpl<Duration> for Duration {
    open spec fn obeys_sub_spec() -> bool {
        true
    }

    open spec fn sub_req(self, rhs: Duration) -> bool {
        true
    }

    closed spec fn sub_spec(self, rhs: Duration) -> Duration {
        Duration { nanos: if self@ >= rhs@ { (self@ - rhs@) as u64 } else { 0 } }
    }
}

impl std::ops::Sub<Duration> for Duration {
    type Output = Duration;

    /// Difference of two durations, saturating at zero.
    fn sub(self, other: Duration) -> (r: Duration)
        ensures
            r@ == (if self@ >= other@ { (self@ - other@) as u64 } else { 0u64 }),
    {
        Duration::from_nanos(self.nanos.saturating_sub(other.nanos))
    }
}

/// Moving an instant forward by a duration and back again returns the
/// original instant.
pub proof fn lemma_instant_add_sub_roundtrip(i: Instant, d: Duration)
    requires
        i.add_req(d),
    ensures
        i.add_spec(d).sub_spec(d) == i,
{
}

/// Adding a duration and then subtracting it again returns the original
/// duration.
pub proof fn lemma_duration_add_sub_roundtrip(a: Duration, b: Duration)
    requires
        a.add_req(b),
    ensures
        a.add_spec(b).sub_spec(b) == a,
{
}

/// An instant moved forward by a duration lies exactly that duration after
/// the original instant.
pub proof fn lemma_instant_add_view(i: Instant, d: Duration)
    requires
        i.add_req(d),
    ensures
        i.add_spec(d)@ == i@ + d@,
        i.add_spec(d)@ >= i@,
{
}

} // verus!
