//! Signed spans of time with millisecond resolution.

use vstd::prelude::*;

verus! {

/// Milliseconds in a second.
pub const MILLIS_PER_SECOND: i64 = 1_000;

/// Milliseconds in a minute.
pub const MILLIS_PER_MINUTE: i64 = 60_000;

/// Milliseconds in an hour.
pub const MILLIS_PER_HOUR: i64 = 3_600_000;

/// The value of `x` brought into the range of `i64`.
pub open spec fn saturate(x: int) -> int {
    if x < i64::MIN {
        i64::MIN as int
    } else if x > i64::MAX {
        i64::MAX as int
    } else {
        x
    }
}

/// The quotient of `a` by a positive `b`, rounded towards zero.
pub open spec fn div_towards_zero(a: int, b: int) -> int {
    if a >= 0 {
        a / b
    } else {
        -((-a) / b)
    }
}

/// A signed span of time, counted in milliseconds. Positive debt is time
/// still owed, negative debt is time worked ahead.
#[derive(Clone, Copy, Debug, PartialEq, Eq, Structural)]
pub struct Duration {
    pub millis: i64,
}

impl View for Duration {
    type V = int;

    open spec fn view(&self) -> int {
        self.millis as int
    }
}

fn quotient_towards_zero(a: i64, b: i64) -> (q: i64)
    requires
        b > 1,
    ensures
        q == div_towards_zero(a as int, b as int),
{
    if a >= 0 {
        a / b
    } else {
        let magnitude: i128 = -(a as i128);
        let wide: i128 = b as i128;
        let q: i128 = magnitude / wide;
        assert(0 <= q <= magnitude) by (nonlinear_arith)
            requires
                q == magnitude / wide,
                magnitude > 0,
                wide > 1,
        ;
        (-q) as i64
    }
}

impl Duration {
    /// The empty span.
    pub fn zero() -> (r: Duration)
        ensures
            r@ == 0,
    {
        Duration { millis: 0 }
    }

    /// The span of so many milliseconds.
    pub fn milliseconds(millis: i64) -> (r: Duration)
        ensures
            r@ == millis,
    {
        Duration { millis }
    }

    /// The span of so many seconds, for a number whose milliseconds are in
    /// the range of the type.
    pub fn seconds(seconds: i64) -> (r: Duration)
        requires
            i64::MIN <= seconds * MILLIS_PER_SECOND <= i64::MAX,
        ensures
            r@ == seconds * MILLIS_PER_SECOND,
    {
        Duration { millis: seconds * MILLIS_PER_SECOND }
    }

    /// The span of so many minutes, for a number whose milliseconds are in
    /// the range of the type.
    pub fn minutes(minutes: i64) -> (r: Duration)
        requires
            i64::MIN <= minutes * MILLIS_PER_MINUTE <= i64::MAX,
        ensures
            r@ == minutes * MILLIS_PER_MINUTE,
    {
        Duration { millis: minutes * MILLIS_PER_MINUTE }
    }

    /// The span of so many hours, for a number whose milliseconds are in
    /// the range of the type.
    pub fn hours(hours: i64) -> (r: Duration)
        requires
            i64::MIN <= hours * MILLIS_PER_HOUR <= i64::MAX,
        ensures
            r@ == hours * MILLIS_PER_HOUR,
    {
        Duration { millis: hours * MILLIS_PER_HOUR }
    }

    /// Whole seconds in the span, rounded towards zero.
    pub fn num_seconds(&self) -> (r: i64)
        ensures
            r == div_towards_zero(self@, MILLIS_PER_SECOND as int),
    {
        quotient_towards_zero(self.millis, MILLIS_PER_SECOND)
    }

    /// Whole minutes in the span, rounded towards zero.
    pub fn num_minutes(&self) -> (r: i64)
        ensures
            r == div_towards_zero(self@, MILLIS_PER_MINUTE as int),
    {
        quotient_towards_zero(self.millis, MILLIS_PER_MINUTE)
    }

    /// Whole hours in the span, rounded towards zero.
    pub fn num_hours(&self) -> (r: i64)
        ensures
            r == div_towards_zero(self@, MILLIS_PER_HOUR as int),
    {
        quotient_towards_zero(self.millis, MILLIS_PER_HOUR)
    }

    /// The sum of the two spans, held at the nearest bound where it leaves
    /// the range of the type.
    pub fn saturating_add(self, other: Duration) -> (r: Duration)
        ensures
            r@ == saturate(self@ + other@),
    {
        let sum: i128 = self.millis as i128 + other.millis as i128;
        Duration { millis: saturate_i128(sum) }
    }

    /// The difference of the two spans, held at the nearest bound where it
    /// leaves the range of the type.
    pub fn saturating_sub(self, other: Duration) -> (r: Duration)
        ensures
            r@ == saturate(self@ - other@),
    {
        let difference: i128 = self.millis as i128 - other.millis as i128;
        Duration { millis: saturate_i128(difference) }
    }

    /// The sum of the two spans; `None` where it leaves the range of the
    /// type.
    pub fn checked_add(self, other: Duration) -> (r: Option<Duration>)
        ensures
            r is Some <==> i64::MIN <= self@ + other@ <= i64::MAX,
            r matches Some(sum) ==> sum@ == self@ + other@,
    {
        let sum: i128 = self.millis as i128 + other.millis as i128;
        if i64::MIN as i128 <= sum && sum <= i64::MAX as i128 {
            Some(Duration { millis: sum as i64 })
        } else {
            None
        }
    }

    /// The span taken `times` times; `None` where that leaves the range of
    /// the type.
    pub fn checked_mul(self, times: i32) -> (r: Option<Duration>)
        ensures
            r is Some <==> i64::MIN <= self@ * times <= i64::MAX,
            r matches Some(product) ==> product@ == self@ * times,
    {
        let a: i128 = self.millis as i128;
        let b: i128 = times as i128;
        assert(-0x4000_0000_0000_0000_0000_0000 <= a * b <= 0x4000_0000_0000_0000_0000_0000)
            by (nonlinear_arith)
            requires
                -0x8000_0000_0000_0000 <= a <= 0x8000_0000_0000_0000,
                -0x8000_0000 <= b <= 0x8000_0000,
        ;
        let product: i128 = a * b;
        if i64::MIN as i128 <= product && product <= i64::MAX as i128 {
            Some(Duration { millis: product as i64 })
        } else {
            None
        }
    }

    /// The span with its sign turned, held at the upper bound for the one
    /// span that has no opposite.
    pub fn saturating_neg(self) -> (r: Duration)
        ensures
            r@ == saturate(-self@),
    {
        let opposite: i128 = -(self.millis as i128);
        Duration { millis: saturate_i128(opposite) }
    }
}

/// Brings a wide integer into the range of `i64`.
pub fn saturate_i128(x: i128) -> (r: i64)
    ensures
        r == saturate(x as int),
{
    if x < i64::MIN as i128 {
        i64::MIN
    } else if x > i64::MAX as i128 {
        i64::MAX
    } else {
        x as i64
    }
}

} // verus!
