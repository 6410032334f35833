//! Points in time as whole seconds since the Unix epoch (UTC), and whole-day
//! differences between them.
use vstd::prelude::*;

verus! {

/// The number of seconds in one day.
pub const SECONDS_PER_DAY: u64 = 86400;

/// An instant, in whole seconds since 1970-01-01T00:00:00Z.
#[derive(Clone, Copy, Debug, PartialEq, Eq, Structural)]
pub struct Timestamp {
    pub secs: i64,
}

/// The number of whole days from `start` to `query`, rounded down, so that a
/// query before the start gives a negative count.
pub open spec fn whole_days_between(start: int, query: int) -> int {
    (query - start) / (SECONDS_PER_DAY as int)
}

/// Relies on chrono::Utc::now and DateTime::timestamp: the current time, in
/// whole seconds since the epoch. `Utc::now` panics on a clock set before the
/// epoch, so a value that comes back is never negative; nothing else is known.
#[verifier::external_body]
fn unix_seconds_now() -> (r: i64)
    ensures
        r >= 0,
{
    chrono::Utc::now().timestamp()
}

impl Timestamp {
    /// The instant `secs` seconds after the epoch.
    pub fn from_unix_seconds(secs: i64) -> (r: Timestamp)
        ensures
            r.secs == secs,
    {
        Timestamp { secs }
    }

    /// The current time, as the system clock gives it.
    pub fn now() -> (r: Timestamp)
        ensures
            r.secs >= 0,
    {
        Timestamp { secs: unix_seconds_now() }
    }

    /// Whole days elapsed from `self` to `later`, rounded down.
    pub fn days_until(&self, later: &Timestamp) -> (r: i64)
        ensures
            r as int == whole_days_between(self.secs as int, later.secs as int),
    {
        let diff: i128 = later.secs as i128 - self.secs as i128;
        let day: u128 = SECONDS_PER_DAY as u128;
        if diff >= 0 {
            let n: u128 = diff as u128;
            let q: u128 = n / day;
            proof {
                lemma_floor_div_bound(n as int);
            }
            q as i64
        } else {
            let n: u128 = (-diff) as u128;
            let q: u128 = (n + (day - 1)) / day;
            proof {
                lemma_floor_div_negative(n as int);
            }
            -(q as i128) as i64
        }
    }
}

proof fn lemma_floor_div_bound(n: int)
    requires
        0 <= n < 0x2_0000_0000_0000_0000,
    ensures
        n / 86400 < 0x8000_0000_0000_0000,
        n / 86400 >= 0,
{
    assert(n / 86400 < 0x8000_0000_0000_0000) by (nonlinear_arith)
        requires 0 <= n < 0x2_0000_0000_0000_0000;
}

proof fn lemma_floor_div_negative(n: int)
    requires
        0 < n <= 0x2_0000_0000_0000_0000,
    ensures
        (-n) / 86400 == -((n + 86399) / 86400),
        (n + 86399) / 86400 <= 0x8000_0000_0000_0000,
{
    let q = (n + 86399) / 86400;
    let r = (n + 86399) % 86400;
    assert(n + 86399 == 86400 * q + r && 0 <= r < 86400) by (nonlinear_arith)
        requires q == (n + 86399) / 86400, r == (n + 86399) % 86400;
    assert(-n == 86400 * (-q) + (86399 - r));
    assert((-n) / 86400 == -q) by (nonlinear_arith)
        requires -n == 86400 * (-q) + (86399 - r), 0 <= 86399 - r < 86400;
    assert(q <= 0x8000_0000_0000_0000) by (nonlinear_arith)
        requires n + 86399 == 86400 * q + r, 0 <= r, n <= 0x2_0000_0000_0000_0000;
}

} // verus!
