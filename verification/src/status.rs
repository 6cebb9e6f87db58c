//! The figures that the status pages show: debts in whole seconds, and how
//! much of the daily maximum is still free.

use vstd::prelude::*;

use crate::duration::{div_towards_zero, Duration, MILLIS_PER_SECOND};

verus! {

/// The whole seconds of a span in milliseconds, rounded towards zero.
pub open spec fn whole_seconds(millis: int) -> int {
    div_towards_zero(millis, MILLIS_PER_SECOND as int)
}

/// The quotient of `a` by `b`, rounded towards zero, for a `b` of either
/// sign.
pub open spec fn quotient_towards_zero(a: int, b: int) -> int {
    if b > 0 {
        div_towards_zero(a, b)
    } else {
        -div_towards_zero(a, -b)
    }
}

/// The share of the daily maximum that is not taken up by debt, in percent:
/// 100 with no debt, 0 with the total at the maximum, more than 100 with the
/// total ahead of schedule. Both spans are taken in whole seconds.
pub open spec fn free_percentage(total_debt: int, daily_max: int) -> int {
    100 - quotient_towards_zero(whole_seconds(total_debt) * 100, whole_seconds(daily_max))
}

/// The share of the daily maximum that is still free, for a daily maximum
/// of a second or more in either direction.
pub fn percentage(total_debt: Duration, daily_max: Duration) -> (percent: i64)
    requires
        whole_seconds(daily_max@) != 0,
    ensures
        percent == free_percentage(total_debt@, daily_max@),
{
    let debt: i128 = total_debt.num_seconds() as i128 * 100;
    let max: i128 = daily_max.num_seconds() as i128;
    let debt_size: i128 = if debt < 0 {
        -debt
    } else {
        debt
    };
    let max_size: i128 = if max < 0 {
        -max
    } else {
        max
    };
    let size: i128 = debt_size / max_size;
    assert(0 <= size <= debt_size) by (nonlinear_arith)
        requires
            size == debt_size / max_size,
            debt_size >= 0,
            max_size >= 1,
    ;
    let quotient: i128 = if (debt < 0) != (max < 0) {
        -size
    } else {
        size
    };
    (100 - quotient) as i64
}

/// A goal as the status report gives it: the time in whole seconds.
#[derive(Debug, Clone, PartialEq, Eq)]
pub struct Goal {
    pub name: String,
    pub time: i64,
}

/// The status report.
#[derive(Debug, Clone, PartialEq, Eq)]
pub struct ResponseBody {
    pub total_debt: i64,
    pub daily_max: i64,
    pub goals: Vec<Goal>,
}

/// The goal with its time in whole seconds.
pub open spec fn goal_in_seconds(goal: crate::toggl::Goal) -> Goal {
    Goal { name: goal.name, time: whole_seconds(goal.time@) as i64 }
}

/// The goal in whole seconds, under the same name.
pub fn goal_from(other: crate::toggl::Goal) -> (goal: Goal)
    ensures
        goal == goal_in_seconds(other),
{
    Goal { time: other.time.num_seconds(), name: other.name }
}

/// The status report for what was calculated: all figures in whole seconds
/// and the goals in the order given; nothing but zeros and no goal where
/// nothing was calculated because no project is configured.
pub fn response_body(
    calculated: Option<(Vec<crate::toggl::Goal>, Duration)>,
    daily_max: Duration,
) -> (body: ResponseBody)
    ensures
        match calculated {
            Some((goals, total_debt)) => {
                &&& body.total_debt == whole_seconds(total_debt@)
                &&& body.daily_max == whole_seconds(daily_max@)
                &&& body.goals@ == goals@.map_values(|g: crate::toggl::Goal| goal_in_seconds(g))
            },
            None => body.total_debt == 0 && body.daily_max == 0 && body.goals@.len() == 0,
        },
{
    match calculated {
        Some((goals, total_debt)) => {
            let ghost given = goals@;
            let mut in_seconds: Vec<Goal> = Vec::new();
            for goal in it: goals
                invariant
                    it.seq() == given,
                    in_seconds@.len() == it.index(),
                    forall|j: int|
                        0 <= j < in_seconds@.len() ==> #[trigger] in_seconds@[j] == goal_in_seconds(
                            given[j],
                        ),
            {
                in_seconds.push(goal_from(goal));
            }
            assert(in_seconds@ =~= given.map_values(|g: crate::toggl::Goal| goal_in_seconds(g)));
            ResponseBody {
                total_debt: total_debt.num_seconds(),
                daily_max: daily_max.num_seconds(),
                goals: in_seconds,
            }
        },
        None => ResponseBody { total_debt: 0, daily_max: 0, goals: Vec::new() },
    }
}

} // verus!
