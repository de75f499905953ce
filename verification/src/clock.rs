//! Points in time.
use vstd::prelude::*;

verus! {

/// Nanoseconds in a millisecond.
pub const NANOS_PER_MILLI: u128 = 1_000_000;

/// Nanoseconds in a second.
pub const NANOS_PER_SECOND: u128 = 1_000_000_000;

/// Nanoseconds in a minute.
pub const NANOS_PER_MINUTE: u128 = 60_000_000_000;

/// A point in time: the nanoseconds that have passed since the Unix epoch.
#[derive(Clone, Copy, Debug, PartialEq, Eq, Structural)]
pub struct Timestamp {
    pub nanos: u128,
}

impl View for Timestamp {
    type V = nat;

    open spec fn view(&self) -> nat {
        self.nanos as nat
    }
}

/// `nanos` after `at`, at the latest the last point in time there is.
pub open spec fn later(at: nat, nanos: nat) -> nat {
    if at + nanos <= u128::MAX {
        at + nanos
    } else {
        u128::MAX as nat
    }
}

/// `now` is a time that the clock can show.
pub open spec fn is_reading(now: nat) -> bool {
    now <= i64::MAX * NANOS_PER_SECOND + 999_999_999
}

/// `chrono::Utc::now`, read with `DateTime::timestamp` and
/// `DateTime::timestamp_subsec_nanos`: whole seconds since the Unix epoch,
/// which are never negative, and the nanoseconds of the second that has begun.
/// What the clock shows is left open.
#[verifier::external_body]
fn utc_now_parts() -> (parts: (i64, u32))
    ensures
        0 <= parts.0,
        parts.1 < 1_000_000_000,
{
    let now = chrono::Utc::now();
    (now.timestamp(), now.timestamp_subsec_nanos())
}

impl Timestamp {
    /// The point in time that lies `seconds` and `nanos` after the epoch.
    pub fn from_parts(seconds: u64, nanos: u32) -> (at: Timestamp)
        ensures
            at@ == seconds * NANOS_PER_SECOND + nanos,
    {
        Timestamp { nanos: seconds as u128 * NANOS_PER_SECOND + nanos as u128 }
    }

    /// What the clock shows. Nothing more is said of when that is.
    pub fn now() -> (at: Timestamp)
        ensures
            is_reading(at@),
    {
        let (seconds, nanos) = utc_now_parts();
        Timestamp::from_parts(seconds as u64, nanos)
    }

    /// The point in time that lies `nanos` later.
    pub fn plus(self, nanos: u128) -> (at: Timestamp)
        ensures
            at@ == later(self@, nanos as nat),
    {
        Timestamp { nanos: self.nanos.saturating_add(nanos) }
    }

    /// The whole seconds since the epoch.
    pub fn whole_seconds(self) -> (seconds: u128)
        ensures
            seconds == self@ / NANOS_PER_SECOND as nat,
    {
        self.nanos / NANOS_PER_SECOND
    }

    /// The nanoseconds since the last whole second.
    pub fn subsec_nanos(self) -> (nanos: u32)
        ensures
            nanos == self@ % NANOS_PER_SECOND as nat,
    {
        (self.nanos % NANOS_PER_SECOND) as u32
    }
}

/// A point in time is shown in nanoseconds, and time that passes is added, up to the
/// last point there is.
pub proof fn law_time_is_counted_in_nanoseconds(at: Timestamp, nanos: nat)
    ensures
        at@ == at.nanos,
        at@ + nanos <= u128::MAX ==> later(at@, nanos) == at@ + nanos,
        at@ + nanos > u128::MAX ==> later(at@, nanos) == u128::MAX,
{
}

} // verus!
