//! Clock abstraction: determinism first. Wall-clock time crosses the crate
//! as `i64` milliseconds since the Unix epoch.

use vstd::prelude::*;

verus! {

/// Milliseconds since the Unix epoch.
pub type UnixMillis = i64;

/// Source of wall-clock time; injectable for deterministic tests.
pub trait SyncClock: Send + Sync {
    /// Current wall time in milliseconds since the epoch.
    fn now_unix_ms(&self) -> UnixMillis;
}

/// Production clock backed by the system clock.
#[derive(Debug, Default, Clone, Copy)]
pub struct SystemClock;

/// `std::time::SystemTime::elapsed` on the Unix epoch, in milliseconds;
/// `None` where the system time lies before the epoch. It depends on the
/// machine's time, so nothing is claimed of the result.
#[verifier::external_body]
fn elapsed_since_epoch() -> (r: Option<u128>) {
    std::time::UNIX_EPOCH.elapsed().ok().map(|d| d.as_millis())
}

/// The wall time for an elapsed number of milliseconds since the epoch:
/// capped at the largest representable time, and the epoch itself where the
/// system time lies before it.
pub open spec fn unix_ms(elapsed: Option<u128>) -> UnixMillis {
    match elapsed {
        Some(ms) => if ms <= i64::MAX {
            ms as i64
        } else {
            i64::MAX
        },
        None => 0,
    }
}

/// The wall time for an elapsed number of milliseconds since the epoch.
pub fn unix_ms_from_elapsed(elapsed: Option<u128>) -> (r: UnixMillis)
    ensures
        r == unix_ms(elapsed),
{
    match elapsed {
        Some(ms) => if ms <= i64::MAX as u128 {
            ms as i64
        } else {
            i64::MAX
        },
        None => 0,
    }
}

impl SyncClock for SystemClock {
    fn now_unix_ms(&self) -> (r: UnixMillis)
        ensures
            r >= 0,
    {
        unix_ms_from_elapsed(elapsed_since_epoch())
    }
}

/// Deterministic fake clock for tests and reproducible ingestion runs.
#[derive(Debug)]
pub struct FakeClock {
    now: UnixMillis,
}

impl View for FakeClock {
    type V = int;

    closed spec fn view(&self) -> int {
        self.now as int
    }
}

impl FakeClock {
    /// Creates a clock fixed at `start`.
    #[must_use]
    pub fn new(start: UnixMillis) -> (r: Self)
        ensures
            r@ == start,
    {
        Self { now: start }
    }

    /// Advances the clock by `millis`.
    pub fn advance(&mut self, millis: UnixMillis)
        requires
            i64::MIN <= old(self)@ + millis <= i64::MAX,
        ensures
            final(self)@ == old(self)@ + millis,
    {
        self.now = self.now + millis;
    }
}

impl Default for FakeClock {
    fn default() -> (r: Self)
        ensures
            r@ == 0,
    {
        Self { now: 0 }
    }
}

impl SyncClock for FakeClock {
    fn now_unix_ms(&self) -> (r: UnixMillis)
        ensures
            r == self@,
    {
        self.now
    }
}

/// The wall time is the elapsed number of milliseconds, up to the largest
/// representable time, and the epoch where the system time lies before it.
pub proof fn law_wall_time_is_the_elapsed_time(elapsed: Option<u128>)
    ensures
        unix_ms(elapsed) >= 0,
        match elapsed {
            Some(ms) => if ms <= 0x7fff_ffff_ffff_ffff {
                unix_ms(elapsed) == ms
            } else {
                unix_ms(elapsed) == 0x7fff_ffff_ffff_ffff
            },
            None => unix_ms(elapsed) == 0,
        },
{
}

}
