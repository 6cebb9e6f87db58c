//! The debt engine: a walk over the calendar, one day at a time, that prices
//! in every project's goal and pays off what was logged.

use vstd::prelude::*;

use crate::books::{
    advanced_to, by_date, capped_total, debt_after_day, distinct_project_ids, earliest_start,
    entry_counts,
    ledger_after_day, ledger_with_entry, lemma_ledger_keeps_projects, lemma_position_of,
    lemma_sum_of_debts_take, opening_books, opening_ledger, position_of, reconciled, simulated,
    sum_of_debts, total_after_day, total_with_entry, with_debt, Books,
};
use crate::date::{Date, SimulationCursor, MAX_DAY};
use crate::duration::{saturate_i128, Duration};
use crate::order::{
    is_ordered, lemma_insert_at, lemma_stable_sort_is_ordered, lemma_stable_sort_permutes,
    stable_sort,
};
use crate::toggl::{Project, ProjectId, ProjectWithDebt, TogglEntry};

verus! {

/// The earliest starting date among the projects; the last date of the
/// calendar where there is no project.
pub fn earliest_start_date(projects: &Vec<(ProjectId, Project)>) -> (earliest: Date)
    ensures
        earliest@ == earliest_start(projects@),
{
    let mut earliest = Date::max();
    let mut i: usize = 0;
    while i < projects.len()
        invariant
            i <= projects@.len(),
            earliest@ == earliest_start(projects@.take(i as int)),
        decreases projects@.len() - i,
    {
        assert(projects@.take(i + 1).drop_last() =~= projects@.take(i as int));
        if projects[i].1.starting_date.num_days_from_ce() < earliest.num_days_from_ce() {
            earliest = projects[i].1.starting_date;
        }
        i = i + 1;
    }
    assert(projects@.take(i as int) =~= projects@);
    earliest
}

/// Moves the calendar on by one day: every project for which the new day
/// counts owes its daily goal more, the debts are summed and held down to
/// the daily maximum, and a total that was ahead of schedule the day before
/// is carried over.
pub fn advance_debt(
    projects_with_debts: &mut Vec<ProjectWithDebt>,
    current_date: &mut SimulationCursor,
    previous_total_debt: Duration,
    daily_max: Duration,
) -> (total_debt: Duration)
    requires
        old(current_date)@ < MAX_DAY,
    ensures
        final(current_date)@ == old(current_date)@ + 1,
        final(projects_with_debts)@ == ledger_after_day(
            old(projects_with_debts)@,
            old(current_date)@ + 1,
        ),
        total_debt@ == total_after_day(
            sum_of_debts(final(projects_with_debts)@),
            previous_total_debt@,
            daily_max@,
        ),
        total_debt@ <= daily_max@,
        previous_total_debt@ >= 0 ==> total_debt@ == capped_total(
            sum_of_debts(final(projects_with_debts)@),
            daily_max@,
        ),
        forall|i: int|
            0 <= i < old(projects_with_debts)@.len() && !(#[trigger] old(
                projects_with_debts,
            )@[i]).project.accrues_on(old(current_date)@ + 1) ==> final(projects_with_debts)@[i]
                == old(projects_with_debts)@[i],
{
    let (moved_on, today) = current_date.next();
    *current_date = moved_on;
    let ghost day = today@;
    let ghost before = projects_with_debts@;

    let mut sum: i128 = 0;
    let mut i: usize = 0;
    while i < projects_with_debts.len()
        invariant
            i <= projects_with_debts@.len(),
            projects_with_debts@.len() == before.len(),
            today@ == day,
            forall|j: int|
                0 <= j < i ==> #[trigger] projects_with_debts@[j] == with_debt(
                    before[j],
                    debt_after_day(before[j], day),
                ),
            forall|j: int| i <= j < before.len() ==> #[trigger] projects_with_debts@[j] == before[j],
            sum == sum_of_debts(projects_with_debts@.take(i as int)),
            -(i * 0x8000_0000_0000_0000) <= sum <= i * 0x8000_0000_0000_0000,
        decreases projects_with_debts@.len() - i,
    {
        let ghost so_far = projects_with_debts@;
        if projects_with_debts[i].project.advance_debt_on(today) {
            let goal = projects_with_debts[i].project.daily_goal;
            let debt = projects_with_debts[i].debt;
            projects_with_debts[i].debt = debt.saturating_add(goal);
        }
        proof {
            assert(projects_with_debts@.take(i as int) =~= so_far.take(i as int));
            lemma_sum_of_debts_take(projects_with_debts@, i as int);
        }
        sum = sum + projects_with_debts[i].debt.millis as i128;
        i = i + 1;
    }
    proof {
        assert(projects_with_debts@.take(i as int) =~= projects_with_debts@);
        assert(projects_with_debts@ =~= ledger_after_day(before, day));
    }

    let mut total_debt = if sum > daily_max.millis as i128 {
        daily_max
    } else {
        Duration { millis: saturate_i128(sum) }
    };
    if previous_total_debt.millis < 0 {
        total_debt = total_debt.saturating_add(previous_total_debt);
    }
    total_debt
}

/// Looks the project up by its id.
pub fn find_project(ledger: &Vec<ProjectWithDebt>, id: ProjectId) -> (found: Option<usize>)
    ensures
        match found {
            Some(i) => position_of(ledger@, id) == Some(i as int) && i < ledger@.len(),
            None => position_of(ledger@, id).is_none(),
        },
{
    let mut i: usize = 0;
    while i < ledger.len()
        invariant
            i <= ledger@.len(),
            forall|j: int| 0 <= j < i ==> (#[trigger] ledger@[j]).id != id,
        decreases ledger@.len() - i,
    {
        if ledger[i].id.0 == id.0 {
            proof {
                lemma_position_of(ledger@, id, i as int);
            }
            return Some(i);
        }
        i = i + 1;
    }
    proof {
        lemma_position_of(ledger@, id, i as int);
    }
    None
}

/// Books one entry. Where its project is in the ledger and had started by
/// the entry's date, the logged time comes off the project's debt, and off
/// the total as far as the project had debt to pay off. Any other entry is
/// passed over.
pub fn apply_entry(
    projects_with_debts: &mut Vec<ProjectWithDebt>,
    total_debt: Duration,
    entry: &TogglEntry,
) -> (new_total: Duration)
    ensures
        final(projects_with_debts)@ == ledger_with_entry(old(projects_with_debts)@, *entry),
        new_total@ == total_with_entry(old(projects_with_debts)@, total_debt@, *entry),
        new_total@ <= total_debt@,
        match position_of(old(projects_with_debts)@, entry.project_id) {
            Some(i) => {
                let debt = old(projects_with_debts)@[i].debt@;
                total_debt@ - new_total@ <= (if debt > 0 { debt } else { 0 })
            },
            None => new_total == total_debt,
        },
        !entry_counts(old(projects_with_debts)@, *entry) ==> new_total == total_debt
            && final(projects_with_debts)@ == old(projects_with_debts)@,
{
    match find_project(projects_with_debts, entry.project_id) {
        Some(i) => {
            let starting_day = projects_with_debts[i].project.starting_date.num_days_from_ce();
            if starting_day <= entry.date.num_days_from_ce() {
                let debt = projects_with_debts[i].debt;
                let least = if debt.millis < entry.duration.millis {
                    debt
                } else {
                    entry.duration
                };
                let credit = if least.millis > 0 {
                    least
                } else {
                    Duration::zero()
                };
                projects_with_debts[i].debt = debt.saturating_sub(entry.duration);
                assert(projects_with_debts@ =~= ledger_with_entry(old(projects_with_debts)@, *entry));
                total_debt.saturating_sub(credit)
            } else {
                total_debt
            }
        },
        None => total_debt,
    }
}

/// Puts the entries in the order of their dates; entries of one date stay
/// in the order given.
pub fn sort_entries(entries: Vec<TogglEntry>) -> (sorted: Vec<TogglEntry>)
    ensures
        sorted@ == stable_sort(entries@, by_date()),
        is_ordered(sorted@, by_date()),
        sorted@.to_multiset() == entries@.to_multiset(),
{
    let mut sorted: Vec<TogglEntry> = Vec::new();
    let mut i: usize = 0;
    while i < entries.len()
        invariant
            i <= entries@.len(),
            sorted@ == stable_sort(entries@.take(i as int), by_date()),
            sorted@.len() == i,
        decreases entries@.len() - i,
    {
        let entry = entries[i];
        let day: i32 = entry.date.num_days_from_ce();
        let mut p: usize = sorted.len();
        while p > 0 && sorted[p - 1].date.num_days_from_ce() > day
            invariant
                p <= sorted@.len(),
                day == entry.date@,
                forall|j: int| p <= j < sorted@.len() ==> !by_date()(#[trigger] sorted@[j], entry),
            decreases p,
        {
            p = p - 1;
        }
        proof {
            lemma_insert_at(sorted@, entry, by_date(), p as int);
            assert(entries@.take(i + 1).drop_last() =~= entries@.take(i as int));
        }
        sorted.insert(p, entry);
        i = i + 1;
    }
    proof {
        assert(entries@.take(i as int) =~= entries@);
        lemma_stable_sort_is_ordered(entries@, by_date());
        lemma_stable_sort_permutes(entries@, by_date());
    }
    sorted
}

/// Brings the books forward, one day at a time, until they stand at
/// `target`.
pub fn advance_to(
    projects_with_debts: &mut Vec<ProjectWithDebt>,
    current_date: &mut SimulationCursor,
    total_debt: Duration,
    daily_max: Duration,
    target: Date,
) -> (new_total: Duration)
    ensures
        (Books {
            ledger: final(projects_with_debts)@,
            day: final(current_date)@,
            total: new_total@,
        }) == advanced_to(
            (Books {
                ledger: old(projects_with_debts)@,
                day: old(current_date)@,
                total: total_debt@,
            }),
            target@,
            daily_max@,
        ),
        final(current_date)@ == (if old(current_date)@ < target@ {
            target@
        } else {
            old(current_date)@
        }),
{
    proof {
        use_type_invariant(&target);
    }
    let mut total = total_debt;
    while current_date.is_before(target)
        invariant
            target@ <= MAX_DAY,
            old(current_date)@ <= current_date@,
            old(current_date)@ < target@ ==> current_date@ <= target@,
            advanced_to(
                (Books { ledger: projects_with_debts@, day: current_date@, total: total@ }),
                target@,
                daily_max@,
            ) == advanced_to(
                (Books {
                    ledger: old(projects_with_debts)@,
                    day: old(current_date)@,
                    total: total_debt@,
                }),
                target@,
                daily_max@,
            ),
        decreases target@ - current_date@,
    {
        total = advance_debt(projects_with_debts, current_date, total, daily_max);
    }
    total
}

/// Whether the calendar is past the entry's date before the entry's turn
/// comes. The calendar starts on the day before the earliest start, so
/// these are the entries dated earlier than that day; they are dated before
/// every project's start and change nothing.
pub fn is_behind_calendar(entry: &TogglEntry, earliest_start: Date) -> (behind: bool)
    ensures
        behind == (entry.date@ < earliest_start@ - 1),
{
    entry.date.num_days_from_ce() < earliest_start.num_days_from_ce() - 1
}

/// Whether every project has an id of its own, as the keys of a map have.
pub fn has_distinct_ids(projects: &Vec<(ProjectId, Project)>) -> (distinct: bool)
    ensures
        distinct == distinct_project_ids(projects@),
{
    let mut j: usize = 0;
    while j < projects.len()
        invariant
            j <= projects@.len(),
            forall|a: int, b: int|
                0 <= a < b < j ==> (#[trigger] projects@[a]).0 != (#[trigger] projects@[b]).0,
        decreases projects@.len() - j,
    {
        let mut i: usize = 0;
        while i < j
            invariant
                i <= j < projects@.len(),
                forall|a: int| 0 <= a < i ==> (#[trigger] projects@[a]).0 != projects@[j as int].0,
            decreases j - i,
        {
            if projects[i].0.0 == projects[j].0.0 {
                return false;
            }
            i = i + 1;
        }
        j = j + 1;
    }
    true
}

/// Every project with no debt yet, in the order given.
pub fn open_ledger(projects: Vec<(ProjectId, Project)>) -> (ledger: Vec<ProjectWithDebt>)
    ensures
        ledger@ == opening_ledger(projects@),
{
    let ghost given = projects@;
    let mut ledger: Vec<ProjectWithDebt> = Vec::new();
    for pair in it: projects
        invariant
            it.seq() == given,
            ledger@.len() == it.index(),
            forall|j: int|
                0 <= j < ledger@.len() ==> #[trigger] ledger@[j] == (ProjectWithDebt {
                    id: given[j].0,
                    project: given[j].1,
                    debt: Duration { millis: 0 },
                }),
    {
        let (id, project) = pair;
        ledger.push(ProjectWithDebt { id, project, debt: Duration::zero() });
    }
    assert(ledger@ =~= opening_ledger(given));
    ledger
}

/// Runs the whole simulation. The entries are booked in the order of their
/// dates, entries of one date in the order given; before each one the books
/// are brought forward to its date, and after the last one to `today`.
/// Returns what every project owes, in the order the projects were given,
/// and the total.
pub fn process_toggl_data(
    toggl_entries: Vec<TogglEntry>,
    projects: Vec<(ProjectId, Project)>,
    daily_max: Duration,
    today: Date,
) -> (result: (Vec<ProjectWithDebt>, Duration))
    ensures
        result.0@ == simulated(toggl_entries@, projects@, daily_max@, today@).ledger,
        result.1@ == simulated(toggl_entries@, projects@, daily_max@, today@).total,
        result.0@.len() == projects@.len(),
        forall|i: int|
            0 <= i < projects@.len() ==> (#[trigger] result.0@[i]).id == projects@[i].0
                && result.0@[i].project == projects@[i].1,
{
    proof {
        lemma_ledger_keeps_projects(toggl_entries@, projects@, daily_max@, today@);
    }
    let sorted_toggl_entries = sort_entries(toggl_entries);
    let mut current_date = SimulationCursor::day_before(earliest_start_date(&projects));
    let ghost opening = opening_books(projects@);
    let mut projects_with_debts = open_ledger(projects);
    let mut total_debt = Duration::zero();
    assert(sorted_toggl_entries@.skip(0) =~= sorted_toggl_entries@);

    let mut i: usize = 0;
    while i < sorted_toggl_entries.len()
        invariant
            i <= sorted_toggl_entries@.len(),
            reconciled(
                (Books { ledger: projects_with_debts@, day: current_date@, total: total_debt@ }),
                sorted_toggl_entries@.skip(i as int),
                daily_max@,
            ) == reconciled(opening, sorted_toggl_entries@, daily_max@),
        decreases sorted_toggl_entries@.len() - i,
    {
        let entry = sorted_toggl_entries[i];
        proof {
            let rest = sorted_toggl_entries@.skip(i as int);
            assert(rest[0] == entry);
            assert(rest.drop_first() =~= sorted_toggl_entries@.skip(i + 1));
        }
        total_debt =
        advance_to(&mut projects_with_debts, &mut current_date, total_debt, daily_max, entry.date);
        total_debt = apply_entry(&mut projects_with_debts, total_debt, &entry);
        i = i + 1;
    }
    total_debt =
    advance_to(&mut projects_with_debts, &mut current_date, total_debt, daily_max, today);
    (projects_with_debts, total_debt)
}

} // verus!
