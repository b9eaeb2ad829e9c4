use vstd::prelude::*;

verus! {

/// Source of timestamps for metric updates.
///
/// A clock with `test_time == 0` passes the system time through. Any other
/// value is a manual clock in milliseconds that advances by 100 ms on every
/// reading, so that a sequence of updates gets distinct, predictable times.
pub struct Clock {
    pub test_time: u64,
}

/// Milliseconds that a manual clock advances on each reading.
pub const TEST_STEP_MILLIS: u64 = 100;

/// Nanoseconds in one millisecond.
pub const NANOS_PER_MILLI: u64 = 1_000_000;

/// The reading of a manual clock that stands at `millis`, in nanoseconds,
/// truncated to 64 bits.
pub open spec fn manual_reading(millis: u64) -> int {
    ((millis + TEST_STEP_MILLIS) * NANOS_PER_MILLI) % 0x1_0000_0000_0000_0000
}

impl Clock {
    /// A clock that passes the system time through.
    pub fn system() -> (r: Clock)
        ensures
            r.test_time == 0,
    {
        Clock { test_time: 0 }
    }

    /// Whether one more reading of the clock keeps its state in range.
    pub open spec fn can_read(&self) -> bool {
        self.test_time == 0 || self.test_time <= u64::MAX - TEST_STEP_MILLIS
    }
}

/// Reads the clock: the system time `system_nanos` for a system clock, or,
/// for a manual clock, its time after advancing it by 100 ms, in nanoseconds.
pub fn current_time(clock: &mut Clock, system_nanos: u64) -> (r: u64)
    requires
        old(clock).can_read(),
    ensures
        old(clock).test_time == 0 ==> r == system_nanos && final(clock).test_time == 0,
        old(clock).test_time != 0 ==> final(clock).test_time == old(clock).test_time
            + TEST_STEP_MILLIS && r == manual_reading(old(clock).test_time),
{
    if clock.test_time == 0 {
        system_nanos
    } else {
        clock.test_time = clock.test_time + TEST_STEP_MILLIS;
        clock.test_time.wrapping_mul(NANOS_PER_MILLI)
    }
}

/// Sets the manual time of the clock in milliseconds; zero returns it to the
/// system time.
pub fn set_time(clock: &mut Clock, time: u64)
    ensures
        final(clock).test_time == time,
{
    clock.test_time = time;
}

} // verus!
