//! Durations as a person reads them: hours, minutes and seconds.

use vstd::prelude::*;

use crate::duration::{div_towards_zero, Duration, MILLIS_PER_HOUR, MILLIS_PER_MINUTE, MILLIS_PER_SECOND};

verus! {

/// The whole hours of a span, the whole minutes beyond them and the whole
/// seconds beyond those, each rounded towards zero.
pub fn hours_minutes_seconds(duration: Duration) -> (parts: (i64, i64, i64))
    ensures
        parts.0 == div_towards_zero(duration@, MILLIS_PER_HOUR as int),
        parts.1 == div_towards_zero(duration@, MILLIS_PER_MINUTE as int) - 60 * parts.0,
        parts.2 == div_towards_zero(duration@, MILLIS_PER_SECOND as int) - 60 * div_towards_zero(
            duration@,
            MILLIS_PER_MINUTE as int,
        ),
        3600 * parts.0 + 60 * parts.1 + parts.2 == div_towards_zero(
            duration@,
            MILLIS_PER_SECOND as int,
        ),
        duration@ >= 0 ==> 0 <= parts.0 && 0 <= parts.1 < 60 && 0 <= parts.2 < 60,
        duration@ <= 0 ==> parts.0 <= 0 && -60 < parts.1 <= 0 && -60 < parts.2 <= 0,
{
    let hours = duration.num_hours();
    let minutes = duration.num_minutes() - 60 * hours;
    let seconds = duration.num_seconds() - 60 * duration.num_minutes();

    (hours, minutes, seconds)
}

/// The digits of `n` to the base ten, without leading zeros; one zero for
/// zero.
pub open spec fn decimal(n: nat) -> Seq<char>
    decreases n,
{
    let last = seq![('0' as u8 + (n % 10) as u8) as char];
    if n < 10 {
        last
    } else {
        decimal(n / 10) + last
    }
}

/// The digits of `n`, with a zero in front where there is only one.
pub open spec fn two_digits(n: nat) -> Seq<char> {
    if n < 10 {
        seq!['0'] + decimal(n)
    } else {
        decimal(n)
    }
}

/// A clock reading behind a sign: the hours, a colon, the minutes in two
/// digits, a colon, the seconds in two digits.
pub open spec fn clock_text(sign: Seq<char>, hours: nat, minutes: nat, seconds: nat) -> Seq<char> {
    sign + decimal(hours) + seq![':'] + two_digits(minutes) + seq![':'] + two_digits(seconds)
}

/// Calls `format!` of std with the pattern `{}{}:{:0>2}:{:0>2}` on a sign
/// and three numbers that are not negative. The contract spells out what
/// std documents for that pattern: the sign as it is, each number in
/// decimal digits, the last two filled up with a zero on the left to a
/// width of two.
#[verifier::external_body]
fn format_clock(sign: &str, hours: i64, minutes: i64, seconds: i64) -> (text: String)
    requires
        hours >= 0,
        minutes >= 0,
        seconds >= 0,
    ensures
        text@ == clock_text(sign@, hours as nat, minutes as nat, seconds as nat),
{
    format!("{}{}:{:0>2}:{:0>2}", sign, hours, minutes, seconds)
}

/// The minutes beyond the whole hours are the whole minutes modulo sixty,
/// and so for the seconds beyond the whole minutes.
pub proof fn lemma_minutes_and_seconds_of_the_clock(millis: int)
    requires
        millis >= 0,
    ensures
        millis / 60_000 - 60 * (millis / 3_600_000) == (millis / 60_000) % 60,
        millis / 1_000 - 60 * (millis / 60_000) == (millis / 1_000) % 60,
{
    let minutes = millis / 60_000;
    let seconds = millis / 1_000;
    assert(minutes / 60 == millis / 3_600_000);
    assert(seconds / 60 == millis / 60_000);
}

/// A duration that is shown as a clock reading.
pub struct HumanDuration(pub Duration);

impl HumanDuration {
    /// The sign of the reading: a minus sign for every span that is not
    /// positive.
    pub open spec fn sign(&self) -> Seq<char> {
        if self.0@ > 0 {
            ""@
        } else {
            "-"@
        }
    }

    /// The span without its sign, held at the upper bound of a duration.
    pub open spec fn magnitude(&self) -> int {
        if self.0@ > 0 {
            self.0@
        } else {
            crate::duration::saturate(-self.0@)
        }
    }

    /// The clock reading of the span.
    pub fn to_string(&self) -> (text: String)
        ensures
            text@ == clock_text(
                self.sign(),
                (self.magnitude() / (MILLIS_PER_HOUR as int)) as nat,
                ((self.magnitude() / (MILLIS_PER_MINUTE as int)) % 60) as nat,
                ((self.magnitude() / (MILLIS_PER_SECOND as int)) % 60) as nat,
            ),
    {
        let positive = self.0.millis > 0;
        let absolute_duration = if positive {
            self.0
        } else {
            self.0.saturating_neg()
        };
        let sign = if positive {
            ""
        } else {
            "-"
        };
        let (hours, minutes, seconds) = hours_minutes_seconds(absolute_duration);
        proof {
            lemma_minutes_and_seconds_of_the_clock(absolute_duration@);
        }
        format_clock(sign, hours, minutes, seconds)
    }
}

} // verus!
