//! Instants and durations, counted in whole nanoseconds.
use vstd::prelude::*;

verus! {

/// Nanoseconds in one Julian century of 36 525 days.
pub const NANOSECONDS_PER_CENTURY: i128 = 3_155_760_000_000_000_000;

/// The longest duration that can be told: 32 768 centuries.
pub const MAX_NANOSECONDS: i128 = 103_407_943_680_000_000_000_000;

/// The most negative duration that can be told: minus 32 768 centuries.
pub const MIN_NANOSECONDS: i128 = -103_407_943_680_000_000_000_000;

/// Nanoseconds in one millisecond.
pub const NANOSECONDS_PER_MILLISECOND: i128 = 1_000_000;

/// The time systems an instant may be counted in.
#[derive(Clone, Copy, Debug, PartialEq, Eq, Structural, Hash)]
pub enum TimeScale {
    /// International Atomic Time
    TAI,
    /// Terrestrial Time
    TT,
    /// Ephemeris Time
    ET,
    /// Dynamic Barycentric Time
    TDB,
    /// Universal Coordinated Time
    UTC,
    /// GPS Time
    GPST,
    /// Galileo Time
    GST,
    /// BeiDou Time
    BDT,
    /// QZSS Time
    QZSST,
    /// Geocentric Coordinate Time
    TCG,
    /// Barycentric Coordinate Time
    TCB,
    /// Lunar Time
    TL,
    /// Lunar Coordinate Time
    TCL,
}

impl Default for TimeScale {
    fn default() -> (r: Self)
        ensures
            r == TimeScale::TAI,
    {
        TimeScale::TAI
    }
}

/// `n` brought back into the range of durations that can be told.
pub open spec fn saturate(n: int) -> int {
    if n < MIN_NANOSECONDS {
        MIN_NANOSECONDS as int
    } else if n > MAX_NANOSECONDS {
        MAX_NANOSECONDS as int
    } else {
        n
    }
}

/// Calls `hifitime::Duration::sub` on the two durations that
/// `hifitime::Duration::from_total_nanoseconds` makes of `a` and `b`, and
/// reads the difference back with `total_nanoseconds`. Unproved: the
/// conversion saturates each operand at plus or minus 32 768 centuries, the
/// subtraction is exact on centuries and nanoseconds and saturates at the
/// same two bounds.
#[verifier::external_body]
fn total_nanoseconds_sub(a: i128, b: i128) -> (r: i128)
    ensures
        r == saturate(saturate(a as int) - saturate(b as int)),
{
    let lhs = hifitime::Duration::from_total_nanoseconds(a);
    let rhs = hifitime::Duration::from_total_nanoseconds(b);
    (lhs - rhs).total_nanoseconds()
}

/// A signed span of time, in nanoseconds.
#[derive(Clone, Copy, Debug, PartialEq, Eq, Structural, Hash)]
pub struct Duration {
    pub nanoseconds: i128,
}

impl Default for Duration {
    fn default() -> (r: Self)
        ensures
            r.total() == 0,
    {
        Duration { nanoseconds: 0 }
    }
}

impl Duration {
    /// The span as a mathematical integer, in nanoseconds.
    pub open spec fn total(self) -> int {
        self.nanoseconds as int
    }

    /// The span lies within plus or minus 32 768 centuries.
    pub open spec fn in_range(self) -> bool {
        MIN_NANOSECONDS <= self.nanoseconds <= MAX_NANOSECONDS
    }

    /// The empty span.
    pub fn zero() -> (d: Duration)
        ensures
            d.total() == 0,
            d.in_range(),
    {
        Duration { nanoseconds: 0 }
    }

    /// A span of `nanoseconds`, saturated at plus or minus 32 768 centuries.
    pub fn from_total_nanoseconds(nanoseconds: i128) -> (d: Duration)
        ensures
            d.total() == saturate(nanoseconds as int),
            d.in_range(),
    {
        if nanoseconds < MIN_NANOSECONDS {
            Duration { nanoseconds: MIN_NANOSECONDS }
        } else if nanoseconds > MAX_NANOSECONDS {
            Duration { nanoseconds: MAX_NANOSECONDS }
        } else {
            Duration { nanoseconds }
        }
    }

    /// The span in nanoseconds.
    pub fn total_nanoseconds(&self) -> (n: i128)
        ensures
            n == self.total(),
    {
        self.nanoseconds
    }

    /// `self - rhs`, saturated.
    pub fn sub(&self, rhs: &Duration) -> (d: Duration)
        ensures
            d.total() == saturate(saturate(self.total()) - saturate(rhs.total())),
            d.in_range(),
            self.in_range() && rhs.in_range() ==> d.total() == saturate(self.total() - rhs.total()),
    {
        Duration { nanoseconds: total_nanoseconds_sub(self.nanoseconds, rhs.nanoseconds) }
    }

    /// `self + rhs`, saturated.
    pub fn add(&self, rhs: &Duration) -> (d: Duration)
        ensures
            d.total() == saturate(saturate(self.total()) + saturate(rhs.total())),
            d.in_range(),
            self.in_range() && rhs.in_range() ==> d.total() == saturate(self.total() + rhs.total()),
    {
        let opposite = Duration::zero().sub(rhs);
        self.sub(&opposite)
    }

    /// `self < rhs`.
    pub fn lt(&self, rhs: &Duration) -> (r: bool)
        ensures
            r == (self.total() < rhs.total()),
    {
        self.nanoseconds < rhs.nanoseconds
    }

    /// `self <= rhs`.
    pub fn le(&self, rhs: &Duration) -> (r: bool)
        ensures
            r == (self.total() <= rhs.total()),
    {
        self.nanoseconds <= rhs.nanoseconds
    }
}

/// An instant: the time elapsed since the origin of its time scale.
#[derive(Clone, Copy, Debug, PartialEq, Eq, Structural, Hash)]
pub struct Epoch {
    /// Time elapsed since the origin of `time_scale`
    pub duration: Duration,
    /// The time scale the instant is counted in
    pub time_scale: TimeScale,
}

impl Default for Epoch {
    fn default() -> (r: Self)
        ensures
            r.duration.total() == 0,
            r.time_scale == TimeScale::TAI,
    {
        Epoch { duration: Duration { nanoseconds: 0 }, time_scale: TimeScale::TAI }
    }
}

impl Epoch {
    /// `self` lies before `rhs`, both counted in one time scale.
    pub open spec fn before(self, rhs: Epoch) -> bool {
        self.time_scale == rhs.time_scale && self.duration.total() < rhs.duration.total()
    }

    /// The time from `earlier` to `self`, in nanoseconds, where both are
    /// counted in one time scale: the difference of the two, each operand
    /// and the result saturated.
    pub open spec fn elapsed_since(self, earlier: Epoch) -> Option<int> {
        if self.time_scale == earlier.time_scale {
            Some(
                saturate(saturate(self.duration.total()) - saturate(earlier.duration.total())),
            )
        } else {
            None
        }
    }

    /// The instant `duration` after the origin of `time_scale`.
    pub fn new(duration: Duration, time_scale: TimeScale) -> (t: Epoch)
        ensures
            t.duration == duration,
            t.time_scale == time_scale,
    {
        Epoch { duration, time_scale }
    }

    /// The instant `span` earlier, in the same time scale.
    pub fn sub_duration(&self, span: &Duration) -> (t: Epoch)
        ensures
            t.time_scale == self.time_scale,
            t.duration.in_range(),
            t.duration.total() == saturate(
                saturate(self.duration.total()) - saturate(span.total()),
            ),
    {
        Epoch { duration: self.duration.sub(span), time_scale: self.time_scale }
    }

    /// The time from `earlier` to `self`, where both are counted in one time
    /// scale; `None` where they are not.
    pub fn since(&self, earlier: &Epoch) -> (span: Option<Duration>)
        ensures
            match span {
                Some(d) => d.in_range() && self.elapsed_since(*earlier) == Some(d.total()),
                None => self.elapsed_since(*earlier) is None,
            },
    {
        if self.time_scale == earlier.time_scale {
            Some(self.duration.sub(&earlier.duration))
        } else {
            None
        }
    }

    /// Whether `self` lies before `rhs`, both counted in one time scale.
    pub fn is_before(&self, rhs: &Epoch) -> (r: bool)
        ensures
            r == self.before(*rhs),
    {
        self.time_scale == rhs.time_scale && self.duration.lt(&rhs.duration)
    }
}

} // verus!
