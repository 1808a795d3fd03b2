//! Periodic work: the liveness heartbeat and the interval timer of the editor.

use vstd::prelude::*;

verus! {

/// How often the daemon rewrites its liveness marker, in milliseconds.
pub const HEARTBEAT_INTERVAL_MS: u64 = 500;

/// The age past which a liveness marker no longer shows a running daemon.
pub const HEARTBEAT_MAX_AGE_MS: u64 = HEARTBEAT_INTERVAL_MS * 3 / 2;

/// Whether a liveness marker last written `age_ms` milliseconds ago shows a
/// running daemon.
pub fn heartbeat_is_fresh(age_ms: u64) -> (r: bool)
    ensures
        r == (age_ms <= HEARTBEAT_MAX_AGE_MS),
{
    age_ms <= HEARTBEAT_MAX_AGE_MS
}

#[verifier::external_type_specification]
#[verifier::external_body]
pub struct ExInstant(std::time::Instant);

/// Relies on `Instant::now`: an instant of the monotonic clock.
#[verifier::external_body]
pub(crate) fn now() -> (r: std::time::Instant) {
    std::time::Instant::now()
}

/// Relies on `Instant::elapsed` and `Duration::as_millis`: the whole
/// milliseconds since `since`, `u64::MAX` if more.
#[verifier::external_body]
fn elapsed_ms(since: &std::time::Instant) -> (r: u64) {
    u64::try_from(since.elapsed().as_millis()).unwrap_or(u64::MAX)
}

/// An interval is over once as much time as the interval has elapsed.
pub fn interval_over(interval_ms: u64, elapsed: u64) -> (r: bool)
    ensures
        r == (elapsed >= interval_ms),
{
    elapsed >= interval_ms
}

/// Fires at most once per interval, when polled.
#[derive(Debug)]
pub struct TickTimer {
    interval_ms: u64,
    last: std::time::Instant,
}

impl TickTimer {
    pub closed spec fn interval(&self) -> u64 {
        self.interval_ms
    }

    pub closed spec fn last_fired(&self) -> std::time::Instant {
        self.last
    }

    /// A timer of `interval_ms` milliseconds, started now.
    pub fn new(interval_ms: u64) -> (r: Self)
        ensures
            r.interval() == interval_ms,
    {
        TickTimer { interval_ms, last: now() }
    }

    /// Whether the interval has elapsed since the timer last fired; if so the
    /// timer fires and starts over now, otherwise it is left as it was.
    pub fn ready(&mut self) -> (r: bool)
        ensures
            final(self).interval() == old(self).interval(),
            !r ==> final(self).last_fired() == old(self).last_fired(),
    {
        if interval_over(self.interval_ms, elapsed_ms(&self.last)) {
            self.last = now();
            true
        } else {
            false
        }
    }
}

} // verus!
