//! Points in time, as the history stamps its entries with them.

use vstd::prelude::*;

verus! {

/// A point in time in UTC: whole seconds since the UNIX epoch, and the
/// nanoseconds elapsed since the last second boundary (at least a billion
/// during a leap second). The derived order compares the seconds, then the
/// nanoseconds, as `not_after` does.
#[derive(Clone, Copy, Debug, PartialEq, Eq, PartialOrd, Ord, Structural)]
pub struct Timestamp {
    pub seconds: i64,
    pub nanos: u32,
}

impl Timestamp {
    /// `self` is not later than `other`: time order is the order of the
    /// seconds, then of the nanoseconds.
    pub open spec fn not_after(self, other: Timestamp) -> bool {
        ||| self.seconds < other.seconds
        ||| (self.seconds == other.seconds && self.nanos <= other.nanos)
    }

    /// Whether `self` is not later than `other`.
    pub fn is_not_after(&self, other: &Timestamp) -> (res: bool)
        ensures
            res == self.not_after(*other),
    {
        self.seconds < other.seconds || (self.seconds == other.seconds && self.nanos <= other.nanos)
    }

    /// The current time, as chrono represents it. The system clock's reading
    /// is always turned into a time: a reading beyond the range of years that
    /// chrono can represent is taken as the nearest end of that range (see
    /// `clamped_clock_time`), so the result is never `None`.
    pub fn now() -> (now: Option<Timestamp>)
        ensures
            now is Some,
            now matches Some(time) ==> time.nanos < 1_000_000_000 && chrono_accepts_timestamp(
                time.seconds,
                time.nanos,
            ),
    {
        let (seconds, nanos) = clamped_clock_time(time_since_unix_epoch());
        utc_from_timestamp(seconds, nanos)
    }
}

/// The earliest time chrono can represent, in seconds since the UNIX epoch:
/// January 1st of year -262143, at midnight.
pub const CHRONO_MIN_SECONDS: i64 = -8_334_601_228_800;

/// The latest whole second chrono can represent, in seconds since the UNIX
/// epoch: December 31st of year 262142, at 23:59:59.
pub const CHRONO_MAX_SECONDS: i64 = 8_210_266_876_799;

/// Whether chrono can build a `DateTime<Utc>` from `seconds` since the UNIX
/// epoch and `nanos` past that second: the seconds must lie within chrono's
/// range of years, and the nanoseconds must be under a billion, or under two
/// billion in the last second of a minute (a leap second).
pub open spec fn chrono_accepts_timestamp(seconds: i64, nanos: u32) -> bool {
    &&& CHRONO_MIN_SECONDS <= seconds <= CHRONO_MAX_SECONDS
    &&& (nanos < 1_000_000_000 || (nanos < 2_000_000_000 && seconds % 60 == 59))
}

/// The time since the UNIX epoch according to the system clock, as whole
/// seconds and the nanoseconds past them: `Ok` when the clock reads a time not
/// before the epoch, `Err` with how long before the epoch it reads otherwise.
///
/// Calls `std::time::SystemTime::elapsed` on `UNIX_EPOCH` (the current time
/// minus the epoch; its error holds the distance when the epoch is later) and
/// reads the `Duration` with `as_secs` and `subsec_nanos`. The reading itself
/// is not stated, since it depends on the clock; the contract claims only what
/// std documents of every `Duration`: the sub-second nanoseconds are under a
/// billion.
#[verifier::external_body]
fn time_since_unix_epoch() -> (elapsed: Result<(u64, u32), (u64, u32)>)
    ensures
        match elapsed {
            Ok((_, nanos)) => nanos < 1_000_000_000,
            Err((_, nanos)) => nanos < 1_000_000_000,
        },
{
    match std::time::UNIX_EPOCH.elapsed() {
        Ok(since) => Ok((since.as_secs(), since.subsec_nanos())),
        Err(error) => Err((error.duration().as_secs(), error.duration().subsec_nanos())),
    }
}

/// The signed UNIX time of a clock reading: the time since the epoch as is,
/// or the time before the epoch negated, borrowing one second when it has a
/// sub-second part (so that the nanoseconds stay non-negative). `None` when
/// the seconds do not fit in an `i64`.
pub fn signed_unix_time(elapsed: Result<(u64, u32), (u64, u32)>) -> (time: Option<(i64, u32)>)
    requires
        match elapsed {
            Ok((_, nanos)) => nanos < 1_000_000_000,
            Err((_, nanos)) => nanos < 1_000_000_000,
        },
    ensures
        match elapsed {
            Ok((seconds, nanos)) => if seconds <= i64::MAX {
                time == Some((seconds as i64, nanos))
            } else {
                time is None
            },
            Err((seconds, nanos)) => if seconds > i64::MAX {
                time is None
            } else if nanos == 0 {
                time == Some(((-seconds) as i64, 0u32))
            } else {
                time == Some(((-seconds - 1) as i64, (1_000_000_000 - nanos) as u32))
            },
        },
        time matches Some((_, nanos)) ==> nanos < 1_000_000_000,
{
    match elapsed {
        Ok((seconds, nanos)) => {
            if seconds <= i64::MAX as u64 {
                Some((seconds as i64, nanos))
            } else {
                None
            }
        },
        Err((seconds, nanos)) => {
            if seconds > i64::MAX as u64 {
                None
            } else if nanos == 0 {
                Some((-(seconds as i64), 0))
            } else {
                Some((-(seconds as i64) - 1, 1_000_000_000 - nanos))
            }
        },
    }
}

/// The signed seconds since the UNIX epoch of a clock reading (see
/// `signed_unix_time`), unbounded.
pub open spec fn reading_seconds(elapsed: Result<(u64, u32), (u64, u32)>) -> int {
    match elapsed {
        Ok((seconds, _)) => seconds as int,
        Err((seconds, nanos)) => if nanos == 0 {
            -seconds
        } else {
            -seconds - 1
        },
    }
}

/// The nanoseconds past the second of a clock reading (see `signed_unix_time`).
pub open spec fn reading_nanos(elapsed: Result<(u64, u32), (u64, u32)>) -> int {
    match elapsed {
        Ok((_, nanos)) => nanos as int,
        Err((_, nanos)) => if nanos == 0 {
            0
        } else {
            1_000_000_000 - nanos
        },
    }
}

/// The time of a clock reading, as signed seconds and nanoseconds, with the
/// seconds brought into the range that chrono can represent: a reading before
/// that range is taken as its first second, one after it as its last second.
pub fn clamped_clock_time(elapsed: Result<(u64, u32), (u64, u32)>) -> (time: (i64, u32))
    requires
        match elapsed {
            Ok((_, nanos)) => nanos < 1_000_000_000,
            Err((_, nanos)) => nanos < 1_000_000_000,
        },
    ensures
        time.1 == reading_nanos(elapsed),
        time.1 < 1_000_000_000,
        reading_seconds(elapsed) < CHRONO_MIN_SECONDS ==> time.0 == CHRONO_MIN_SECONDS,
        reading_seconds(elapsed) > CHRONO_MAX_SECONDS ==> time.0 == CHRONO_MAX_SECONDS,
        CHRONO_MIN_SECONDS <= reading_seconds(elapsed) <= CHRONO_MAX_SECONDS ==> time.0
            == reading_seconds(elapsed),
        chrono_accepts_timestamp(time.0, time.1),
{
    let nanos: u32 = match elapsed {
        Ok((_, nanos)) => nanos,
        Err((_, nanos)) => if nanos == 0 {
            0
        } else {
            1_000_000_000 - nanos
        },
    };
    let seconds: i64 = match signed_unix_time(elapsed) {
        Some((seconds, _)) => if seconds < CHRONO_MIN_SECONDS {
            CHRONO_MIN_SECONDS
        } else if seconds > CHRONO_MAX_SECONDS {
            CHRONO_MAX_SECONDS
        } else {
            seconds
        },
        None => match elapsed {
            Ok(_) => CHRONO_MAX_SECONDS,
            Err(_) => CHRONO_MIN_SECONDS,
        },
    };
    (seconds, nanos)
}

/// The chrono time at `seconds` since the UNIX epoch and `nanos` past them.
///
/// Calls `chrono::DateTime::<Utc>::from_timestamp`, which returns `None` on an
/// out-of-range time or invalid nanoseconds and never panics, and reads the
/// result back with `DateTime::timestamp` and `DateTime::timestamp_subsec_nanos`.
/// chrono documents that this round-trips, so a built time holds exactly the
/// given seconds and nanoseconds. It refuses seconds outside its range of
/// years (`NaiveDate`'s `MIN_YEAR` to `MAX_YEAR`) and nanoseconds that
/// `NaiveTime::from_num_seconds_from_midnight_opt` refuses, as
/// `chrono_accepts_timestamp` states.
#[verifier::external_body]
fn utc_from_timestamp(seconds: i64, nanos: u32) -> (time: Option<Timestamp>)
    ensures
        time is Some <==> chrono_accepts_timestamp(seconds, nanos),
        time matches Some(time) ==> time == (Timestamp { seconds, nanos }),
{
    match chrono::DateTime::<chrono::Utc>::from_timestamp(seconds, nanos) {
        Some(time) => Some(Timestamp { seconds: time.timestamp(), nanos: time.timestamp_subsec_nanos() }),
        None => None,
    }
}

/// Time order is a total preorder: reflexive, transitive and total (and, on
/// equal-valued timestamps, antisymmetric).
pub proof fn lemma_time_order(a: Timestamp, b: Timestamp, c: Timestamp)
    ensures
        a.not_after(a),
        a.not_after(b) && b.not_after(c) ==> a.not_after(c),
        a.not_after(b) || b.not_after(a),
        a.not_after(b) && b.not_after(a) ==> a == b,
{
}

} // verus!
