//! Projects, their calendars, and the time logged against them.

use vstd::prelude::*;

use crate::date::{weekday_of_day, Date, Weekday};
use crate::duration::Duration;

verus! {

/// The number that the time tracker gives a project.
#[derive(Debug, Clone, Copy, PartialEq, Eq, Hash, Structural)]
pub struct ProjectId(pub i64);

/// The number that the time tracker gives a workspace.
#[derive(Debug, Clone, Copy, PartialEq, Eq, Hash, Structural)]
pub struct WorkspaceId(pub i64);

/// A workspace as the time tracker lists it.
pub struct Workspace {
    pub id: WorkspaceId,
    pub name: String,
}

/// A project as the time tracker lists it.
#[derive(Debug)]
pub struct TogglProject {
    pub active: bool,
    pub name: String,
    pub id: ProjectId,
}

/// The weekdays on which a project asks for its daily goal.
#[derive(Debug, Clone, Copy, PartialEq, Eq, Structural)]
pub struct WhichWeekdays {
    pub monday: bool,
    pub tuesday: bool,
    pub wednesday: bool,
    pub thursday: bool,
    pub friday: bool,
    pub saturday: bool,
    pub sunday: bool,
}

impl WhichWeekdays {
    /// Whether the weekday is enabled.
    pub open spec fn enables(self, weekday: Weekday) -> bool {
        match weekday {
            Weekday::Mon => self.monday,
            Weekday::Tue => self.tuesday,
            Weekday::Wed => self.wednesday,
            Weekday::Thu => self.thursday,
            Weekday::Fri => self.friday,
            Weekday::Sat => self.saturday,
            Weekday::Sun => self.sunday,
        }
    }

    /// Whether the weekday is enabled.
    pub fn is_enabled(&self, weekday: Weekday) -> (r: bool)
        ensures
            r == self.enables(weekday),
    {
        match weekday {
            Weekday::Mon => self.monday,
            Weekday::Tue => self.tuesday,
            Weekday::Wed => self.wednesday,
            Weekday::Thu => self.thursday,
            Weekday::Fri => self.friday,
            Weekday::Sat => self.saturday,
            Weekday::Sun => self.sunday,
        }
    }

    /// How many of the seven weekdays are enabled.
    pub open spec fn count(self) -> int {
        (if self.monday { 1int } else { 0 }) + (if self.tuesday { 1int } else { 0 })
            + (if self.wednesday { 1int } else { 0 }) + (if self.thursday { 1int } else { 0 })
            + (if self.friday { 1int } else { 0 }) + (if self.saturday { 1int } else { 0 })
            + (if self.sunday { 1int } else { 0 })
    }

    /// How many of the seven weekdays are enabled.
    pub fn num_days(&self) -> (r: i32)
        ensures
            r == self.count(),
    {
        let mut n: i32 = 0;
        if self.monday {
            n = n + 1;
        }
        if self.tuesday {
            n = n + 1;
        }
        if self.wednesday {
            n = n + 1;
        }
        if self.thursday {
            n = n + 1;
        }
        if self.friday {
            n = n + 1;
        }
        if self.saturday {
            n = n + 1;
        }
        if self.sunday {
            n = n + 1;
        }
        n
    }
}

/// What a project commits to: a goal for each day from its starting date
/// on, but for the days taken off and the weekdays switched off.
#[derive(Debug, Clone, PartialEq)]
pub struct Project {
    pub name: String,
    pub starting_date: Date,
    pub daily_goal: Duration,
    pub days_off: Vec<Date>,
    pub weekdays: WhichWeekdays,
}

impl Project {
    /// What holds of every project as it is configured: its daily goal is
    /// not negative.
    pub open spec fn well_formed(&self) -> bool {
        self.daily_goal@ >= 0
    }

    /// Whether the daily goal is not negative.
    pub fn is_well_formed(&self) -> (r: bool)
        ensures
            r == self.well_formed(),
    {
        self.daily_goal.millis >= 0
    }

    /// Whether the day with this number is one of the project's days off.
    pub open spec fn is_day_off(&self, day: int) -> bool {
        exists|i: int| 0 <= i < self.days_off@.len() && (#[trigger] self.days_off@[i])@ == day
    }

    /// Whether the weekday of the day with this number is enabled. A day
    /// that the calendar cannot place on a weekday is enabled for nobody.
    pub open spec fn weekday_enabled(&self, day: int) -> bool {
        match weekday_of_day(day) {
            Some(weekday) => self.weekdays.enables(weekday),
            None => false,
        }
    }

    /// Whether the project adds its daily goal to its debt on that day.
    pub open spec fn accrues_on(&self, day: int) -> bool {
        &&& self.starting_date@ <= day
        &&& !self.is_day_off(day)
        &&& self.weekday_enabled(day)
    }

    fn has_day_off(&self, date: Date) -> (r: bool)
        ensures
            r == self.is_day_off(date@),
    {
        let day: i32 = date.num_days_from_ce();
        let mut i: usize = 0;
        while i < self.days_off.len()
            invariant
                i <= self.days_off@.len(),
                day == date@,
                forall|j: int| 0 <= j < i ==> (#[trigger] self.days_off@[j])@ != day,
            decreases self.days_off@.len() - i,
        {
            if self.days_off[i].num_days_from_ce() == day {
                return true;
            }
            i = i + 1;
        }
        false
    }

    /// The calendar predicate: on or after the starting date, no day off,
    /// and a weekday that is enabled.
    pub fn advance_debt_on(&self, date: Date) -> (r: bool)
        ensures
            r == self.accrues_on(date@),
    {
        if date.num_days_from_ce() < self.starting_date.num_days_from_ce() {
            return false;
        }
        if self.has_day_off(date) {
            return false;
        }
        match date.weekday() {
            Some(weekday) => self.weekdays.is_enabled(weekday),
            None => false,
        }
    }
}

/// One block of logged time.
#[derive(Debug, Clone, Copy)]
pub struct TogglEntry {
    pub project_id: ProjectId,
    pub date: Date,
    pub duration: Duration,
}

/// A project with the debt it has run up.
#[derive(Debug, Clone, PartialEq)]
pub struct ProjectWithDebt {
    pub id: ProjectId,
    pub project: Project,
    pub debt: Duration,
}

/// What is left to do for one project, under the project's name.
#[derive(Debug, Clone, PartialEq)]
pub struct Goal {
    pub name: String,
    pub time: Duration,
}

/// What to do with an answer of the time tracker.
#[derive(Debug, Clone, Copy, PartialEq, Eq, Structural)]
pub enum ApiStep {
    /// Too many requests were sent: wait, then ask again.
    Retry,
    /// Read the body.
    Read,
    /// There is nothing to read.
    GiveUp,
}

/// The status of an answer that is good.
pub const STATUS_OK: u16 = 200;

/// The status of an answer that asks to slow down.
pub const STATUS_TOO_MANY_REQUESTS: u16 = 429;

/// The step after an answer about workspaces: only an answer marked as
/// good is read.
pub fn workspace_step(status: u16) -> (step: ApiStep)
    ensures
        step == (if status == STATUS_TOO_MANY_REQUESTS {
            ApiStep::Retry
        } else if status == STATUS_OK {
            ApiStep::Read
        } else {
            ApiStep::GiveUp
        }),
{
    if status == STATUS_TOO_MANY_REQUESTS {
        ApiStep::Retry
    } else if status == STATUS_OK {
        ApiStep::Read
    } else {
        ApiStep::GiveUp
    }
}

/// The step after an answer about projects or entries: every answer is
/// read but the one that asks to slow down.
pub fn report_step(status: u16) -> (step: ApiStep)
    ensures
        step == (if status == STATUS_TOO_MANY_REQUESTS {
            ApiStep::Retry
        } else {
            ApiStep::Read
        }),
{
    if status == STATUS_TOO_MANY_REQUESTS {
        ApiStep::Retry
    } else {
        ApiStep::Read
    }
}

/// The number of pages that a report of `total_count` entries comes in.
pub fn num_pages(total_count: usize, per_page: usize) -> (pages: usize)
    requires
        per_page > 0,
        total_count / per_page < usize::MAX,
    ensures
        pages == total_count / per_page + 1,
{
    total_count / per_page + 1
}

/// The projects that are still active, in the order given.
pub fn active_projects(all_projects: Vec<TogglProject>) -> (active: Vec<TogglProject>)
    ensures
        active@ == all_projects@.filter(|p: TogglProject| p.active),
{
    let ghost given = all_projects@;
    let ghost wanted = |p: TogglProject| p.active;
    let mut active: Vec<TogglProject> = Vec::new();
    proof {
        reveal(Seq::filter);
        assert(given.take(0) =~= Seq::<TogglProject>::empty());
    }
    for project in it: all_projects
        invariant
            it.seq() == given,
            wanted == |p: TogglProject| p.active,
            active@ == given.take(it.index() as int).filter(wanted),
    {
        proof {
            reveal(Seq::filter);
            let i = it.index() as int;
            assert(given.take(i + 1).drop_last() =~= given.take(i));
        }
        if project.active {
            active.push(project);
        }
    }
    assert(given.take(given.len() as int) =~= given);
    active
}

/// Whether the id is among those given.
pub fn contains_id(ids: &Vec<ProjectId>, id: ProjectId) -> (r: bool)
    ensures
        r == ids@.contains(id),
{
    let mut i: usize = 0;
    while i < ids.len()
        invariant
            i <= ids@.len(),
            forall|j: int| 0 <= j < i ==> ids@[j] != id,
        decreases ids@.len() - i,
    {
        if ids[i].0 == id.0 {
            return true;
        }
        i = i + 1;
    }
    false
}

/// The projects of the time tracker that the user has not set a goal for
/// yet, in the order given.
pub fn not_yet_created(toggl_projects: Vec<TogglProject>, created: &Vec<ProjectId>) -> (left: Vec<
    TogglProject,
>)
    ensures
        left@ == toggl_projects@.filter(|p: TogglProject| !created@.contains(p.id)),
{
    let ghost given = toggl_projects@;
    let ghost wanted = |p: TogglProject| !created@.contains(p.id);
    let mut left: Vec<TogglProject> = Vec::new();
    proof {
        reveal(Seq::filter);
        assert(given.take(0) =~= Seq::<TogglProject>::empty());
    }
    for project in it: toggl_projects
        invariant
            it.seq() == given,
            wanted == |p: TogglProject| !created@.contains(p.id),
            left@ == given.take(it.index() as int).filter(wanted),
    {
        proof {
            reveal(Seq::filter);
            let i = it.index() as int;
            assert(given.take(i + 1).drop_last() =~= given.take(i));
        }
        if !contains_id(created, project.id) {
            left.push(project);
        }
    }
    assert(given.take(given.len() as int) =~= given);
    left
}

/// What a project asks for in a week: its daily goal for each enabled
/// weekday; `None` where that leaves the range of a duration.
pub fn weekly_goal(project: &Project) -> (r: Option<Duration>)
    ensures
        r is Some <==> i64::MIN <= project.daily_goal@ * project.weekdays.count() <= i64::MAX,
        r matches Some(goal) ==> goal@ == project.daily_goal@ * project.weekdays.count(),
{
    project.daily_goal.checked_mul(project.weekdays.num_days())
}

/// The seventh part of what a week asks for, rounded towards zero.
pub fn average_daily_goal(total_weekly_goal: Duration) -> (r: Duration)
    ensures
        r@ == crate::duration::div_towards_zero(total_weekly_goal@, 7),
{
    let total: i128 = total_weekly_goal.millis as i128;
    if total >= 0 {
        Duration { millis: (total / 7) as i64 }
    } else {
        Duration { millis: (-((-total) / 7)) as i64 }
    }
}

} // verus!
