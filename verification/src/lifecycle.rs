//! Deterministic cancellation and timeout primitives: why an operation was
//! cancelled, absolute deadlines and relative timeouts.

use vstd::prelude::*;
use crate::text::{owned, push_str};
use crate::time::{Duration, Instant};

verus! {

/// Reason for cancellation.
#[derive(Debug, Clone, PartialEq, Eq)]
pub enum CancellationReason {
    /// User-initiated cancellation
    UserCancel,
    /// Operation timed out
    Timeout,
    /// Supervisor/orchestrator cancelled the operation
    SupervisorCancel,
    /// Dependency failed, causing cascade cancellation
    DependencyFailed,
    /// Custom reason with description
    Custom(String),
}

/// The message that describes a cancellation reason.
pub open spec fn reason_text(r: CancellationReason) -> Seq<char> {
    match r {
        CancellationReason::UserCancel => "user cancelled"@,
        CancellationReason::Timeout => "timeout"@,
        CancellationReason::SupervisorCancel => "supervisor cancelled"@,
        CancellationReason::DependencyFailed => "dependency failed"@,
        CancellationReason::Custom(msg) => msg@,
    }
}

impl CancellationReason {
    /// Human-readable rendering of the reason.
    pub fn to_string(&self) -> (r: String)
        ensures
            r@ == reason_text(*self),
    {
        match self {
            CancellationReason::UserCancel => owned("user cancelled"),
            CancellationReason::Timeout => owned("timeout"),
            CancellationReason::SupervisorCancel => owned("supervisor cancelled"),
            CancellationReason::DependencyFailed => owned("dependency failed"),
            CancellationReason::Custom(msg) => owned(msg.as_str()),
        }
    }
}

/// Errors related to lifecycle operations.
#[derive(Debug, Clone, PartialEq, Eq)]
pub enum LifecycleError {
    Cancelled { reason: CancellationReason },
    Timeout,
}

/// What checking a cancellation gives: the error of the reason it was
/// cancelled for, or success while it was not.
pub fn cancellation_check(reason: Option<CancellationReason>) -> (r: Result<(), LifecycleError>)
    ensures
        match reason {
            Some(why) => r == Err::<(), LifecycleError>(LifecycleError::Cancelled { reason: why }),
            None => r is Ok,
        },
{
    match reason {
        Some(why) => Err(LifecycleError::Cancelled { reason: why }),
        None => Ok(()),
    }
}

impl LifecycleError {
    /// Human-readable rendering of the error.
    pub fn to_string(&self) -> (r: String)
        ensures
            r@ == (match *self {
                LifecycleError::Cancelled { reason } => "Operation was cancelled: "@ + reason_text(
                    reason,
                ),
                LifecycleError::Timeout => "Operation timed out"@,
            }),
    {
        match self {
            LifecycleError::Cancelled { reason } => {
                let mut s = owned("Operation was cancelled: ");
                let t = reason.to_string();
                push_str(&mut s, t.as_str());
                s
            },
            LifecycleError::Timeout => owned("Operation timed out"),
        }
    }
}

/// Turns the observed cancellation state of a token into the result of a
/// cancellation check: an error carrying the reason once cancelled.
pub fn check_cancellation(reason: Option<CancellationReason>) -> (r: Result<(), LifecycleError>)
    ensures
        r == (match reason {
            Some(reason) => Err(LifecycleError::Cancelled { reason }),
            None => Ok(()),
        }),
{
    match reason {
        Some(reason) => Err(LifecycleError::Cancelled { reason }),
        None => Ok(()),
    }
}

/// A point in time when an operation should time out.
#[derive(Debug, Clone, Copy, PartialEq, Eq, PartialOrd, Ord)]
pub struct Deadline {
    instant: Instant,
}

impl View for Deadline {
    type V = u64;

    closed spec fn view(&self) -> u64 {
        self.instant@
    }
}

impl Deadline {
    /// Creates a deadline at the given instant.
    pub fn at(instant: Instant) -> (r: Self)
        ensures
            r@ == instant@,
    {
        Deadline { instant }
    }

    /// Returns the instant of this deadline.
    pub fn instant(&self) -> (r: Instant)
        ensures
            r@ == self@,
    {
        self.instant
    }

    /// Whether the deadline has passed at `now` (reaching it counts).
    pub fn has_passed(&self, now: Instant) -> (r: bool)
        ensures
            r == (now@ >= self@),
    {
        !now.is_before(&self.instant)
    }

    /// Time remaining until the deadline, or `None` once it has passed.
    pub fn time_remaining(&self, now: Instant) -> (r: Option<Duration>)
        ensures
            match r {
                Some(d) => now@ < self@ && d@ == self@ - now@,
                None => now@ >= self@,
            },
    {
        if now.is_before(&self.instant) {
            Some(self.instant.duration_since(now))
        } else {
            None
        }
    }
}

/// A relative timeout, converted to a deadline when an operation starts.
#[derive(Debug, Clone, Copy, PartialEq, Eq)]
pub struct Timeout {
    duration: Duration,
}

impl View for Timeout {
    type V = u64;

    closed spec fn view(&self) -> u64 {
        self.duration@
    }
}

impl Timeout {
    /// Creates a timeout with the given duration.
    pub fn after(duration: Duration) -> (r: Self)
        ensures
            r@ == duration@,
    {
        Timeout { duration }
    }

    /// Creates a timeout from milliseconds.
    pub fn from_millis(millis: u64) -> (r: Self)
        requires
            millis * 1_000_000 <= u64::MAX,
        ensures
            r@ == millis * 1_000_000,
    {
        Timeout { duration: Duration::from_millis(millis) }
    }

    /// Creates a timeout from seconds.
    pub fn from_secs(secs: u64) -> (r: Self)
        requires
            secs * 1_000_000_000 <= u64::MAX,
        ensures
            r@ == secs * 1_000_000_000,
    {
        Timeout { duration: Duration::from_secs(secs) }
    }

    /// Returns the duration of this timeout.
    pub fn duration(&self) -> (r: Duration)
        ensures
            r@ == self@,
    {
        self.duration
    }

    /// The deadline that lies this timeout after `now`.
    pub fn to_deadline(&self, now: Instant) -> (r: Deadline)
        requires
            now@ + self@ <= u64::MAX,
        ensures
            r@ == now@ + self@,
    {
        Deadline::at(now + self.duration)
    }
}

/// A deadline made from a non-zero timeout at `now` has not passed at
/// `now` and leaves exactly the timeout remaining; a zero timeout has
/// already passed.
pub proof fn lemma_timeout_deadline(now: Instant, timeout: Timeout, deadline: Deadline)
    requires
        deadline@ == now@ + timeout@,
    ensures
        timeout@ > 0 ==> !(now@ >= deadline@) && deadline@ - now@ == timeout@,
        timeout@ == 0 ==> now@ >= deadline@,
{
}

/// Once a deadline has passed it stays passed at every later instant, and
/// time remains exactly while it has not passed.
pub proof fn lemma_deadline_monotone(deadline: Deadline, t1: Instant, t2: Instant)
    requires
        t1@ <= t2@,
    ensures
        t1@ >= deadline@ ==> t2@ >= deadline@,
{
}

} // verus!
