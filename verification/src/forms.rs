//! What the pages send in, and the values that are read out of it.

use vstd::prelude::*;

use crate::date::Date;
use crate::duration::{Duration, MILLIS_PER_HOUR, MILLIS_PER_MINUTE, MILLIS_PER_SECOND};
use crate::toggl::{ProjectId, WhichWeekdays, WorkspaceId};

verus! {

/// Whether `x` is in the range of `i64`.
pub open spec fn fits_i64(x: int) -> bool {
    i64::MIN <= x <= i64::MAX
}

/// Whether hours, minutes and seconds add up inside the range of a
/// duration, each of them and the sums on the way included.
pub open spec fn parts_in_range(hours: int, minutes: int, seconds: int) -> bool {
    &&& fits_i64(hours * MILLIS_PER_HOUR)
    &&& fits_i64(minutes * MILLIS_PER_MINUTE)
    &&& fits_i64(seconds * MILLIS_PER_SECOND)
    &&& fits_i64(hours * MILLIS_PER_HOUR + minutes * MILLIS_PER_MINUTE)
    &&& fits_i64(hours * MILLIS_PER_HOUR + minutes * MILLIS_PER_MINUTE + seconds * MILLIS_PER_SECOND)
}

/// The span of so many hours, minutes and seconds; `None` where it leaves
/// the range of a duration.
pub fn duration_of_parts(hours: i64, minutes: i64, seconds: i64) -> (r: Option<Duration>)
    ensures
        r is Some <==> parts_in_range(hours as int, minutes as int, seconds as int),
        r matches Some(d) ==> d@ == hours * MILLIS_PER_HOUR + minutes * MILLIS_PER_MINUTE + seconds
            * MILLIS_PER_SECOND,
{
    let h: i128 = hours as i128 * 3_600_000;
    let m: i128 = minutes as i128 * 60_000;
    let s: i128 = seconds as i128 * 1_000;
    let low: i128 = i64::MIN as i128;
    let high: i128 = i64::MAX as i128;
    if low <= h && h <= high && low <= m && m <= high && low <= s && s <= high && low <= h + m && h
        + m <= high && low <= h + m + s && h + m + s <= high {
        Some(Duration { millis: (h + m + s) as i64 })
    } else {
        None
    }
}

/// Whether a span can serve as a daily maximum: it must not be negative.
pub fn is_acceptable_daily_max(daily_max: Duration) -> (r: bool)
    ensures
        r == (daily_max@ >= 0),
{
    daily_max.millis >= 0
}

/// The key under which a day off is stored.
pub struct DayOffKey(pub i64);

/// The settings of an account as the page sends them.
pub struct AccountForm {
    pub daily_max_hours: i64,
    pub daily_max_minutes: i64,
    pub daily_max_seconds: i64,
    pub timezone: String,
}

impl AccountForm {
    /// The daily maximum that the form asks for.
    pub fn daily_max(&self) -> (r: Option<Duration>)
        ensures
            r is Some <==> parts_in_range(
                self.daily_max_hours as int,
                self.daily_max_minutes as int,
                self.daily_max_seconds as int,
            ),
            r matches Some(d) ==> d@ == self.daily_max_hours * MILLIS_PER_HOUR
                + self.daily_max_minutes * MILLIS_PER_MINUTE + self.daily_max_seconds
                * MILLIS_PER_SECOND,
    {
        duration_of_parts(self.daily_max_hours, self.daily_max_minutes, self.daily_max_seconds)
    }
}

/// What a user logs in with.
pub struct LoginForm {
    pub toggl_api_key: String,
}

/// The first step of signing up: the API token.
pub struct SignupFormStep1 {
    pub toggl_api_key: String,
}

/// The second step of signing up: the workspace and the settings.
pub struct SignupFormStep2 {
    pub toggl_api_key: String,
    pub workspace_id: WorkspaceId,
    pub daily_max_hours: i64,
    pub daily_max_minutes: i64,
    pub daily_max_seconds: i64,
    pub timezone: String,
}

impl SignupFormStep2 {
    /// The daily maximum that the new user asks for.
    pub fn daily_max(&self) -> (r: Option<Duration>)
        ensures
            r is Some <==> parts_in_range(
                self.daily_max_hours as int,
                self.daily_max_minutes as int,
                self.daily_max_seconds as int,
            ),
            r matches Some(d) ==> d@ == self.daily_max_hours * MILLIS_PER_HOUR
                + self.daily_max_minutes * MILLIS_PER_MINUTE + self.daily_max_seconds
                * MILLIS_PER_SECOND,
    {
        duration_of_parts(self.daily_max_hours, self.daily_max_minutes, self.daily_max_seconds)
    }
}

/// The project whose goal is to be deleted.
pub struct ProjectDeleteForm {
    pub project_id: ProjectId,
}

/// The day off that is to be deleted.
pub struct DayOffDeleteForm {
    pub day_off_key: DayOffKey,
}

/// A new project as the page sends it: a weekday is enabled where its box
/// was ticked, whatever the box sent.
pub struct NewProjectForm {
    pub project_id: ProjectId,
    pub starting_date: Date,
    pub daily_goal_hours: i64,
    pub daily_goal_minutes: i64,
    pub daily_goal_seconds: i64,
    pub monday: Option<String>,
    pub tuesday: Option<String>,
    pub wednesday: Option<String>,
    pub thursday: Option<String>,
    pub friday: Option<String>,
    pub saturday: Option<String>,
    pub sunday: Option<String>,
}

impl NewProjectForm {
    /// The daily goal that the form asks for.
    pub fn daily_goal(&self) -> (r: Option<Duration>)
        ensures
            r is Some <==> parts_in_range(
                self.daily_goal_hours as int,
                self.daily_goal_minutes as int,
                self.daily_goal_seconds as int,
            ),
            r matches Some(d) ==> d@ == self.daily_goal_hours * MILLIS_PER_HOUR
                + self.daily_goal_minutes * MILLIS_PER_MINUTE + self.daily_goal_seconds
                * MILLIS_PER_SECOND,
    {
        duration_of_parts(self.daily_goal_hours, self.daily_goal_minutes, self.daily_goal_seconds)
    }

    /// The weekdays whose boxes were ticked.
    pub fn weekdays(&self) -> (r: WhichWeekdays)
        ensures
            r == (WhichWeekdays {
                monday: self.monday is Some,
                tuesday: self.tuesday is Some,
                wednesday: self.wednesday is Some,
                thursday: self.thursday is Some,
                friday: self.friday is Some,
                saturday: self.saturday is Some,
                sunday: self.sunday is Some,
            }),
    {
        WhichWeekdays {
            monday: self.monday.is_some(),
            tuesday: self.tuesday.is_some(),
            wednesday: self.wednesday.is_some(),
            thursday: self.thursday.is_some(),
            friday: self.friday.is_some(),
            saturday: self.saturday.is_some(),
            sunday: self.sunday.is_some(),
        }
    }
}

} // verus!
