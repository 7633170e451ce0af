//! Points in time and the windows that recent activity is measured by.

use std::time::SystemTime;
use vstd::prelude::*;

verus! {

/// Nanoseconds in a second.
pub const NANOS_PER_SECOND: i128 = 1_000_000_000;

/// Nanoseconds in a millisecond.
pub const NANOS_PER_MILLI: i128 = 1_000_000;

/// A point in time, as nanoseconds after the Unix epoch (negative before it).
#[derive(Debug, Clone, Copy, PartialEq, Eq)]
pub struct UnixTime {
    pub nanos: i128,
}

impl View for UnixTime {
    type V = int;

    open spec fn view(&self) -> int {
        self.nanos as int
    }
}

/// The nanoseconds of an optional point in time.
pub open spec fn nanos_of(time: Option<UnixTime>) -> Option<int> {
    match time {
        Some(t) => Some(t@),
        None => None,
    }
}

/// An optional time is known by whether it is there and by its nanoseconds.
pub proof fn nanos_of_tells_all(time: Option<UnixTime>)
    ensures
        nanos_of(time) is Some <==> time is Some,
        time matches Some(t) ==> nanos_of(time) == Some(t.nanos as int),
{
}

/// Whether something last modified at `modified` counts as recent at `now`: the
/// time is known, does not lie in the future, and is at most the window ago.
pub open spec fn is_recent(modified: Option<int>, now: int, window_seconds: nat) -> bool {
    match modified {
        Some(m) => m <= now && now - m <= window_seconds * NANOS_PER_SECOND,
        None => false,
    }
}

/// The integer in the range of `i128` that is nearest to `n`.
pub open spec fn clamped(n: int) -> int {
    if n > i128::MAX {
        i128::MAX as int
    } else if n < i128::MIN {
        i128::MIN as int
    } else {
        n
    }
}

/// Something is recent exactly if it was modified at a known time that is not in
/// the future and no longer ago than the window, to the nanosecond, however wide
/// the window is.
pub proof fn recent_to_the_nanosecond(modified: Option<UnixTime>, now: UnixTime, window: nat)
    ensures
        is_recent(nanos_of(modified), now@, window) <==> (modified matches Some(m) && m.nanos
            <= now.nanos && now.nanos - m.nanos <= window * 1_000_000_000),
{
}

/// However long ago something was modified, there is a window wide enough for it
/// to be recent, and from that one on every window is.
pub proof fn some_window_is_wide_enough(modified: int, now: int, window: nat)
    requires
        modified <= now,
        window * 1_000_000_000 >= now - modified,
    ensures
        is_recent(Some(modified), now, window),
        is_recent(Some(modified), now, window + 1),
{
}

/// Time passing and the file being touched cancel out: only the distance counts.
pub proof fn only_the_distance_counts(modified: int, now: int, shift: int, window: nat)
    ensures
        is_recent(Some(modified), now, window) == is_recent(
            Some(modified + shift),
            now + shift,
            window,
        ),
{
}

impl UnixTime {
    /// The point in time that lies the given number of nanoseconds after the
    /// epoch (`Ok`) or before it (`Err`). Times that a nanosecond count of 128
    /// bits cannot hold become the nearest one that it can.
    pub fn from_epoch_distance(distance: Result<u128, u128>) -> (time: UnixTime)
        ensures
            distance matches Ok(n) ==> time@ == clamped(n as int),
            distance matches Err(n) ==> time@ == clamped(-(n as int)),
            distance matches Ok(n) ==> (if n <= i128::MAX {
                time.nanos == n
            } else {
                time.nanos == i128::MAX
            }),
            distance matches Err(n) ==> (if -(n as int) >= i128::MIN {
                time.nanos == -(n as int)
            } else {
                time.nanos == i128::MIN
            }),
    {
        let limit: u128 = 0x7fff_ffff_ffff_ffff_ffff_ffff_ffff_ffff;
        match distance {
            Ok(n) => {
                if n <= limit {
                    UnixTime { nanos: n as i128 }
                } else {
                    UnixTime { nanos: i128::MAX }
                }
            },
            Err(n) => {
                if n <= limit {
                    UnixTime { nanos: -(n as i128) }
                } else {
                    UnixTime { nanos: i128::MIN }
                }
            },
        }
    }

    /// Whole milliseconds after the epoch, rounded down.
    pub fn millis(self) -> (ms: i128)
        ensures
            ms == self@ / NANOS_PER_MILLI as int,
            ms * 1_000_000 <= self.nanos < (ms + 1) * 1_000_000,
    {
        if self.nanos >= 0 {
            self.nanos / NANOS_PER_MILLI
        } else {
            -((-(self.nanos + 1)) / NANOS_PER_MILLI) - 1
        }
    }
}

/// Whether something last modified at `modified` counts as recent at `now`.
pub fn modified_within(modified: Option<UnixTime>, now: UnixTime, window_seconds: u64) -> (recent:
    bool)
    ensures
        recent == is_recent(nanos_of(modified), now@, window_seconds as nat),
        recent <==> (modified matches Some(m) && m.nanos <= now.nanos && now.nanos - m.nanos
            <= window_seconds * 1_000_000_000),
{
    match modified {
        None => false,
        Some(m) => {
            if m.nanos > now.nanos {
                false
            } else {
                let window: i128 = (window_seconds as i128) * NANOS_PER_SECOND;
                match now.nanos.checked_sub(m.nanos) {
                    Some(elapsed) => elapsed <= window,
                    None => false,
                }
            }
        },
    }
}

/// Reads the system clock with `SystemTime::now` and converts the reading with
/// `SystemTime::duration_since`: nanoseconds after the epoch, or before it as
/// the error. Nothing is claimed of the reading, which is the clock's alone.
#[verifier::external_body]
pub(crate) fn system_clock() -> Result<u128, u128> {
    match SystemTime::now().duration_since(SystemTime::UNIX_EPOCH) {
        Ok(after) => Ok(after.as_nanos()),
        Err(before) => Err(before.duration().as_nanos()),
    }
}

} // verus!
