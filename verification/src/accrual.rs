//! What the simulation comes to for a project that nothing was logged
//! against: its daily goal for every day that counted.

use vstd::prelude::*;

use crate::books::{
    advanced_to, by_date, debt_after_day, earliest_start, ledger_after_day, ledger_with_entry,
    lemma_ledger_keeps_projects, lemma_position_in_range, next_day, opening_books, reconciled,
    simulated, with_entry, Books,
};
use crate::duration::saturate;
use crate::order::{
    is_ordered, is_total_preorder, lemma_stable_sort_is_ordered, lemma_stable_sort_permutes,
    stable_sort,
};
use crate::toggl::{Project, ProjectId, TogglEntry};

verus! {

/// The number of days from `from` to `to`, both included, on which the
/// project adds its daily goal to its debt.
pub open spec fn accrual_days(project: Project, from: int, to: int) -> nat
    decreases to - from + 1,
{
    if to < from {
        0
    } else {
        accrual_days(project, from, to - 1) + (if project.accrues_on(to) { 1nat } else { 0nat })
    }
}

/// Whether place `i` of the books holds the project `p` with exactly the
/// debt that its goal has run up from its starting date to the books' day.
pub open spec fn owes_what_accrued(books: Books, i: int, id: ProjectId, p: Project) -> bool {
    &&& 0 <= i < books.ledger.len()
    &&& books.ledger[i].id == id
    &&& books.ledger[i].project == p
    &&& books.ledger[i].debt@ == saturate(
        p.daily_goal@ * accrual_days(p, p.starting_date@, books.day),
    )
}

proof fn lemma_one_more_day(goal: int, days: nat)
    requires
        goal >= 0,
    ensures
        saturate(saturate(goal * days) + goal) == saturate(goal * (days + 1)),
        goal * days >= 0,
{
    assert(goal * (days + 1) == goal * days + goal) by (nonlinear_arith);
    assert(goal * days >= 0) by (nonlinear_arith)
        requires
            goal >= 0,
            days >= 0,
    ;
}

proof fn lemma_next_day_keeps_accrued(books: Books, daily_max: int, i: int, id: ProjectId, p: Project)
    requires
        owes_what_accrued(books, i, id, p),
        p.daily_goal@ >= 0,
    ensures
        owes_what_accrued(next_day(books, daily_max), i, id, p),
{
    let day = books.day + 1;
    let start = p.starting_date@;
    lemma_one_more_day(p.daily_goal@, accrual_days(p, start, books.day));
    assert(ledger_after_day(books.ledger, day)[i].debt@ == debt_after_day(books.ledger[i], day));
    if day < start {
        assert(!p.accrues_on(day));
    }
}

proof fn lemma_advanced_keeps_accrued(
    books: Books,
    target: int,
    daily_max: int,
    i: int,
    id: ProjectId,
    p: Project,
)
    requires
        owes_what_accrued(books, i, id, p),
        p.daily_goal@ >= 0,
    ensures
        owes_what_accrued(advanced_to(books, target, daily_max), i, id, p),
        advanced_to(books, target, daily_max).day == (if books.day < target {
            target
        } else {
            books.day
        }),
    decreases target - books.day,
{
    if books.day < target {
        lemma_next_day_keeps_accrued(books, daily_max, i, id, p);
        lemma_advanced_keeps_accrued(next_day(books, daily_max), target, daily_max, i, id, p);
    }
}

proof fn lemma_entry_keeps_accrued(books: Books, entry: TogglEntry, i: int, id: ProjectId, p: Project)
    requires
        owes_what_accrued(books, i, id, p),
        entry.project_id != id,
    ensures
        owes_what_accrued(with_entry(books, entry), i, id, p),
{
    lemma_position_in_range(books.ledger, entry.project_id);
    assert(ledger_with_entry(books.ledger, entry)[i] == books.ledger[i]);
}

proof fn lemma_reconciled_keeps_accrued(
    books: Books,
    entries: Seq<TogglEntry>,
    daily_max: int,
    bound: int,
    i: int,
    id: ProjectId,
    p: Project,
)
    requires
        owes_what_accrued(books, i, id, p),
        p.daily_goal@ >= 0,
        books.day <= bound,
        forall|k: int| 0 <= k < entries.len() ==> (#[trigger] entries[k]).project_id != id,
        forall|k: int| 0 <= k < entries.len() ==> (#[trigger] entries[k]).date@ <= bound,
    ensures
        owes_what_accrued(reconciled(books, entries, daily_max), i, id, p),
        reconciled(books, entries, daily_max).day <= bound,
    decreases entries.len(),
{
    if entries.len() > 0 {
        let entry = entries[0];
        let caught_up = advanced_to(books, entry.date@, daily_max);
        lemma_advanced_keeps_accrued(books, entry.date@, daily_max, i, id, p);
        lemma_entry_keeps_accrued(caught_up, entry, i, id, p);
        let rest = entries.drop_first();
        assert forall|k: int| 0 <= k < rest.len() implies (#[trigger] rest[k]).project_id != id
            && rest[k].date@ <= bound by {
            assert(rest[k] == entries[k + 1]);
        }
        lemma_reconciled_keeps_accrued(with_entry(caught_up, entry), rest, daily_max, bound, i, id, p);
    }
}

/// The earliest start is no later than any project's start.
pub proof fn lemma_earliest_start_is_least(projects: Seq<(ProjectId, Project)>, i: int)
    requires
        0 <= i < projects.len(),
    ensures
        earliest_start(projects) <= projects[i].1.starting_date@,
    decreases projects.len(),
{
    if i < projects.len() - 1 {
        lemma_earliest_start_is_least(projects.drop_last(), i);
    }
}

/// Sorting hands on only entries that were given.
pub proof fn lemma_sorted_entries_were_given(entries: Seq<TogglEntry>, k: int) -> (j: int)
    requires
        0 <= k < stable_sort(entries, by_date()).len(),
    ensures
        0 <= j < entries.len(),
        entries[j] == stable_sort(entries, by_date())[k],
{
    broadcast use vstd::seq_lib::group_to_multiset_ensures;

    let sorted = stable_sort(entries, by_date());
    lemma_stable_sort_permutes(entries, by_date());
    assert(sorted.to_multiset().count(sorted[k]) > 0);
    assert(entries.to_multiset().count(sorted[k]) > 0);
    assert(entries.contains(sorted[k]));
    choose|j: int| 0 <= j < entries.len() && entries[j] == sorted[k]
}

/// A project that nothing was logged against owes, at the end, its daily
/// goal for every day from its starting date to `today` on which its
/// calendar asked for the goal: days off and disabled weekdays add nothing.
/// The product is held at the upper bound of a duration. This holds for a
/// well-formed project that had started by `today`, where no entry is dated
/// after `today`: a later entry moves the calendar past `today` for every
/// project.
pub proof fn lemma_debt_without_entries(
    entries: Seq<TogglEntry>,
    projects: Seq<(ProjectId, Project)>,
    daily_max: int,
    today: int,
    i: int,
)
    requires
        0 <= i < projects.len(),
        projects[i].1.well_formed(),
        projects[i].1.starting_date@ <= today,
        forall|k: int| 0 <= k < entries.len() ==> (#[trigger] entries[k]).project_id != projects[i].0,
        forall|k: int| 0 <= k < entries.len() ==> (#[trigger] entries[k]).date@ <= today,
    ensures
        simulated(entries, projects, daily_max, today).ledger.len() == projects.len(),
        simulated(entries, projects, daily_max, today).ledger[i].debt@ == saturate(
            projects[i].1.daily_goal@ * accrual_days(
                projects[i].1,
                projects[i].1.starting_date@,
                today,
            ),
        ),
{
    let id = projects[i].0;
    let p = projects[i].1;
    let opening = opening_books(projects);
    let sorted = stable_sort(entries, by_date());
    lemma_earliest_start_is_least(projects, i);
    assert(accrual_days(p, p.starting_date@, opening.day) == 0);
    assert(p.daily_goal@ * 0 == 0);
    assert(owes_what_accrued(opening, i, id, p));
    assert forall|k: int| 0 <= k < sorted.len() implies (#[trigger] sorted[k]).project_id != id
        && sorted[k].date@ <= today by {
        let j = lemma_sorted_entries_were_given(entries, k);
    }
    lemma_reconciled_keeps_accrued(opening, sorted, daily_max, today, i, id, p);
    let booked = reconciled(opening, sorted, daily_max);
    lemma_advanced_keeps_accrued(booked, today, daily_max, i, id, p);
    lemma_ledger_keeps_projects(entries, projects, daily_max, today);
}

/// Dates are totally ordered, so the entries are booked with no entry
/// before one of an earlier date.
pub proof fn lemma_entries_booked_in_date_order(entries: Seq<TogglEntry>)
    ensures
        is_total_preorder(by_date()),
        is_ordered(stable_sort(entries, by_date()), by_date()),
{
    lemma_stable_sort_is_ordered(entries, by_date());
}

} // verus!
