//! Calendar dates as day numbers, and the weekday each falls on.
//!
//! The calendar is that of chrono's `NaiveDate`: the proleptic Gregorian
//! calendar from January 1, 262144 BCE to December 31, 262142 CE, with
//! January 1 of the year 1 as day 1. Which weekday a day falls on is asked
//! of chrono; everything else is arithmetic on day numbers.

use vstd::prelude::*;

verus! {

/// Day number of January 1, 262144 BCE, the first date of the calendar.
pub const MIN_DAY: i32 = -95_746_129;

/// Day number of December 31, 262142 CE, the last date of the calendar.
pub const MAX_DAY: i32 = 95_745_399;

/// A day of the week.
#[derive(Clone, Copy, Debug, PartialEq, Eq, Structural)]
pub enum Weekday {
    Mon,
    Tue,
    Wed,
    Thu,
    Fri,
    Sat,
    Sun,
}

/// The weekday on which chrono places the day with this number, counted
/// from January 1 of the year 1 as day 1 in the proleptic Gregorian
/// calendar; `None` where chrono has no date with this number.
pub uninterp spec fn weekday_of_day(day: int) -> Option<Weekday>;

/// Calls `chrono::NaiveDate::from_num_days_from_ce_opt` and, on the date it
/// gives, `chrono::Datelike::weekday`. Both are functions of the day number
/// alone, so the result is named [`weekday_of_day`]; nothing more is claimed
/// of it.
#[verifier::external_body]
fn chrono_weekday(day: i32) -> (r: Option<Weekday>)
    ensures
        r == weekday_of_day(day as int),
{
    match chrono::NaiveDate::from_num_days_from_ce_opt(day) {
        None => None,
        Some(date) => Some(
            match chrono::Datelike::weekday(&date) {
                chrono::Weekday::Mon => Weekday::Mon,
                chrono::Weekday::Tue => Weekday::Tue,
                chrono::Weekday::Wed => Weekday::Wed,
                chrono::Weekday::Thu => Weekday::Thu,
                chrono::Weekday::Fri => Weekday::Fri,
                chrono::Weekday::Sat => Weekday::Sat,
                chrono::Weekday::Sun => Weekday::Sun,
            },
        ),
    }
}

/// A calendar date between [`MIN_DAY`] and [`MAX_DAY`], held as its day
/// number: January 1 of the year 1 is day 1.
#[derive(Clone, Copy, Debug, PartialEq, Eq, Structural)]
pub struct Date {
    day: i32,
}

impl View for Date {
    type V = int;

    closed spec fn view(&self) -> int {
        self.day as int
    }
}

impl Date {
    /// What holds of every date: it lies in the calendar.
    #[verifier::type_invariant]
    pub open spec fn in_calendar(self) -> bool {
        MIN_DAY <= self@ <= MAX_DAY
    }

    /// The date with this day number; `None` where the number lies outside
    /// the calendar.
    pub fn from_num_days_from_ce_opt(day: i32) -> (r: Option<Date>)
        ensures
            r is Some <==> MIN_DAY <= day <= MAX_DAY,
            r matches Some(date) ==> date@ == day,
    {
        if MIN_DAY <= day && day <= MAX_DAY {
            Some(Date { day })
        } else {
            None
        }
    }

    /// The first date of the calendar.
    pub fn min() -> (r: Date)
        ensures
            r@ == MIN_DAY,
    {
        Date { day: MIN_DAY }
    }

    /// The last date of the calendar.
    pub fn max() -> (r: Date)
        ensures
            r@ == MAX_DAY,
    {
        Date { day: MAX_DAY }
    }

    /// The day number: January 1 of the year 1 is day 1.
    pub fn num_days_from_ce(&self) -> (r: i32)
        ensures
            r == self@,
            MIN_DAY <= r <= MAX_DAY,
    {
        proof {
            use_type_invariant(self);
        }
        self.day
    }

    /// The weekday the date falls on, as chrono gives it; `None` if chrono
    /// has no date with this day number.
    pub fn weekday(&self) -> (r: Option<Weekday>)
        ensures
            r == weekday_of_day(self@),
    {
        chrono_weekday(self.day)
    }
}

/// The day at which the simulation stands: a date, or the day before the
/// first date of the calendar. It moves forward only, one day at a time.
#[derive(Clone, Copy, Debug, PartialEq, Eq, Structural)]
pub struct SimulationCursor {
    day: i32,
}

impl View for SimulationCursor {
    type V = int;

    closed spec fn view(&self) -> int {
        self.day as int
    }
}

impl SimulationCursor {
    /// What holds of every cursor: it stands in the calendar or on the day
    /// before.
    #[verifier::type_invariant]
    pub open spec fn in_reach(self) -> bool {
        MIN_DAY - 1 <= self@ <= MAX_DAY
    }

    /// The cursor on the day before `date`.
    pub fn day_before(date: Date) -> (cursor: SimulationCursor)
        ensures
            cursor@ == date@ - 1,
    {
        SimulationCursor { day: date.num_days_from_ce() - 1 }
    }

    /// The cursor on `date`.
    pub fn on(date: Date) -> (cursor: SimulationCursor)
        ensures
            cursor@ == date@,
    {
        SimulationCursor { day: date.num_days_from_ce() }
    }

    /// The day number: January 1 of the year 1 is day 1.
    pub fn num_days_from_ce(&self) -> (r: i32)
        ensures
            r == self@,
            MIN_DAY - 1 <= r <= MAX_DAY,
    {
        proof {
            use_type_invariant(self);
        }
        self.day
    }

    /// Whether the cursor stands before `date`.
    pub fn is_before(&self, date: Date) -> (r: bool)
        ensures
            r == (self@ < date@),
    {
        self.day < date.num_days_from_ce()
    }

    /// The cursor one day on, with the date on which it then stands. There
    /// is such a day wherever the cursor stands before the last date of the
    /// calendar.
    pub fn next(self) -> (r: (SimulationCursor, Date))
        requires
            self@ < MAX_DAY,
        ensures
            r.0@ == self@ + 1,
            r.1@ == self@ + 1,
    {
        proof {
            use_type_invariant(self);
        }
        (SimulationCursor { day: self.day + 1 }, Date { day: self.day + 1 })
    }
}

/// Two dates with one day number are one date.
pub proof fn lemma_date_by_number(a: Date, b: Date)
    requires
        a@ == b@,
    ensures
        a == b,
{
}

} // verus!
