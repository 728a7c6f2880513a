//! Points in time.

use vstd::prelude::*;

verus! {

/// A point in time, in nanoseconds after a moment that is the same for all those of one clock.
#[derive(Clone, Copy, Debug, PartialEq, Eq, Structural)]
pub struct Instant {
    pub nanos: u64,
}

/// The nanoseconds from one point in time to a later one; zero if it is not later.
pub open spec fn nanos_between(earlier: Instant, later: Instant) -> nat {
    if earlier.nanos <= later.nanos {
        (later.nanos - earlier.nanos) as nat
    } else {
        0
    }
}

/// The whole milliseconds from one point in time to a later one; zero if it is not later.
pub open spec fn millis_between(earlier: Instant, later: Instant) -> nat {
    nanos_between(earlier, later) / 1_000_000
}

/// The whole seconds from one point in time to a later one; zero if it is not later.
pub open spec fn secs_between(earlier: Instant, later: Instant) -> nat {
    nanos_between(earlier, later) / 1_000_000_000
}

/// The point in time `millis` milliseconds later, or the last one that can be told.
pub open spec fn later_by(t: Instant, millis: nat) -> Instant {
    if t.nanos + millis * 1_000_000 <= u64::MAX {
        Instant { nanos: (t.nanos + millis * 1_000_000) as u64 }
    } else {
        Instant { nanos: u64::MAX }
    }
}

/// `SystemTime::elapsed` on the Unix epoch: the nanoseconds since the start of 1970. Of the value
/// nothing is known; a clock set before 1970 reads as zero.
#[verifier::external_body]
fn read_clock() -> (nanos: u64) {
    std::time::UNIX_EPOCH.elapsed().unwrap_or_default().as_nanos() as u64
}

/// A reading of the clock that is never set back.
#[verifier::external_type_specification]
#[verifier::external_body]
pub struct ExSteadyReading(std::time::Instant);

/// `std::time::Instant::now`: a reading of the clock that is never set back. Of the reading nothing is
/// known.
#[verifier::external_body]
fn read_steady_clock() -> std::time::Instant {
    std::time::Instant::now()
}

/// `std::time::Instant::checked_sub`: whether that clock can tell a point in time so long before a
/// reading. Which points it can tell is a matter of the machine; nothing is said of it.
#[verifier::external_body]
fn reaches_back(reading: &std::time::Instant, secs: u64, nanos: u32) -> bool
    requires
        nanos < 1_000_000_000,
{
    reading.checked_sub(std::time::Duration::new(secs, nanos)).is_some()
}

/// The nanoseconds from the first point in time that the clock can tell to a reading of it: how far it
/// reaches back from there. That first point is the same for all readings.
fn nanos_since_first(reading: &std::time::Instant) -> u64 {
    let mut secs: u64 = 0;
    let mut step: u64 = 0x8000_0000_0000_0000;
    while step > 0
        decreases step,
    {
        if let Some(more) = secs.checked_add(step) {
            if reaches_back(reading, more, 0) {
                secs = more;
            }
        }
        step = step / 2;
    }
    let mut nanos: u32 = 0;
    let mut part: u32 = 0x2000_0000;
    while part > 0
        invariant
            nanos < 1_000_000_000,
            part <= 0x2000_0000,
        decreases part,
    {
        let more: u32 = nanos + part;
        if more < 1_000_000_000 && reaches_back(reading, secs, more) {
            nanos = more;
        }
        part = part / 2;
    }
    secs.wrapping_mul(1_000_000_000).wrapping_add(nanos as u64)
}

/// The nanoseconds of the first point in time that the clock can tell: there is room before it.
pub const FIRST_NANOS: u64 = 0x4000_0000_0000_0000;

impl Instant {
    /// The present, by a clock that is never set back.
    pub fn now() -> (res: Instant) {
        Instant { nanos: FIRST_NANOS.wrapping_add(nanos_since_first(&read_steady_clock())) }
    }

    /// The present, by the clock of the system, which counts from the start of 1970 and may be set
    /// back.
    pub fn wall_clock() -> (res: Instant) {
        Instant { nanos: read_clock() }
    }

    /// The whole milliseconds since an earlier point in time.
    pub fn millis_since(self, earlier: Instant) -> (res: u64)
        ensures
            res == millis_between(earlier, self),
    {
        self.nanos.saturating_sub(earlier.nanos) / 1_000_000
    }

    /// The whole seconds since an earlier point in time.
    pub fn secs_since(self, earlier: Instant) -> (res: u64)
        ensures
            res == secs_between(earlier, self),
    {
        self.nanos.saturating_sub(earlier.nanos) / 1_000_000_000
    }

    /// The point in time `millis` milliseconds later.
    pub fn plus_millis(self, millis: u64) -> (res: Instant)
        ensures
            res == later_by(self, millis as nat),
    {
        if millis <= u64::MAX / 1_000_000 {
            Instant { nanos: self.nanos.saturating_add(millis * 1_000_000) }
        } else {
            Instant { nanos: u64::MAX }
        }
    }
}

/// Milliseconds and seconds count whole ones: as many as fit between the two points in time, and
/// none if the second one is not later.
pub proof fn whole_units_are_counted(earlier: Instant, later: Instant)
    ensures
        later.nanos >= earlier.nanos ==> millis_between(earlier, later) * 1_000_000 <= later.nanos
            - earlier.nanos < (millis_between(earlier, later) + 1) * 1_000_000,
        later.nanos >= earlier.nanos ==> secs_between(earlier, later) * 1_000_000_000 <= later.nanos
            - earlier.nanos < (secs_between(earlier, later) + 1) * 1_000_000_000,
        later.nanos <= earlier.nanos ==> millis_between(earlier, later) == 0 && secs_between(
            earlier,
            later,
        ) == 0,
{
}

/// Counting the milliseconds to a point in time so many milliseconds later gives them back, as far
/// as it can be told.
pub proof fn later_is_later(t: Instant, millis: nat)
    requires
        t.nanos + millis * 1_000_000 <= u64::MAX,
    ensures
        millis_between(t, later_by(t, millis)) == millis,
        later_by(t, millis).nanos == t.nanos + millis * 1_000_000,
{
}

} // verus!
