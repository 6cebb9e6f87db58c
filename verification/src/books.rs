//! The books of the simulation as values of mathematics: what a day and an
//! entry do to them, what the whole run comes to, and what holds of every
//! run.

use vstd::prelude::*;

use crate::date::MAX_DAY;
use crate::duration::{saturate, Duration};
use crate::order::{lemma_stable_sort_keeps_ties, stable_sort};
use crate::toggl::{Project, ProjectId, ProjectWithDebt, TogglEntry};

verus! {

/// The books at the end of one day: what each project owes, the day, and
/// the capped total.
pub struct Books {
    pub ledger: Seq<ProjectWithDebt>,
    pub day: int,
    pub total: int,
}

/// The same project with another debt.
pub open spec fn with_debt(p: ProjectWithDebt, debt: int) -> ProjectWithDebt {
    ProjectWithDebt { id: p.id, project: p.project, debt: Duration { millis: debt as i64 } }
}

/// What the project owes after the given day: its goal more, if the day
/// counts for it.
pub open spec fn debt_after_day(p: ProjectWithDebt, day: int) -> int {
    if p.project.accrues_on(day) {
        saturate(p.debt@ + p.project.daily_goal@)
    } else {
        p.debt@
    }
}

/// The ledger after the given day: every project with what it then owes.
pub open spec fn ledger_after_day(ledger: Seq<ProjectWithDebt>, day: int) -> Seq<ProjectWithDebt> {
    Seq::new(ledger.len(), |i: int| with_debt(ledger[i], debt_after_day(ledger[i], day)))
}

/// The plain sum of all debts in the ledger.
pub open spec fn sum_of_debts(ledger: Seq<ProjectWithDebt>) -> int
    decreases ledger.len(),
{
    if ledger.len() == 0 {
        0
    } else {
        sum_of_debts(ledger.drop_last()) + ledger.last().debt@
    }
}

/// The sum of the debts, held down to the daily maximum.
pub open spec fn capped_total(sum: int, daily_max: int) -> int {
    saturate(if sum > daily_max { daily_max } else { sum })
}

/// The total at the end of a day: the capped sum, less what the day before
/// was ahead of schedule.
pub open spec fn total_after_day(sum: int, previous_total: int, daily_max: int) -> int {
    if previous_total < 0 {
        saturate(capped_total(sum, daily_max) + previous_total)
    } else {
        capped_total(sum, daily_max)
    }
}

/// The books one day later.
pub open spec fn next_day(books: Books, daily_max: int) -> Books {
    let ledger = ledger_after_day(books.ledger, books.day + 1);
    Books {
        ledger,
        day: books.day + 1,
        total: total_after_day(sum_of_debts(ledger), books.total, daily_max),
    }
}

/// The books brought forward day by day until they stand at `target`;
/// unchanged where they stand there or later already.
pub open spec fn advanced_to(books: Books, target: int, daily_max: int) -> Books
    decreases target - books.day,
{
    if books.day < target {
        advanced_to(next_day(books, daily_max), target, daily_max)
    } else {
        books
    }
}

/// The first place in the ledger that holds the project with this id.
pub open spec fn position_of(ledger: Seq<ProjectWithDebt>, id: ProjectId) -> Option<int>
    decreases ledger.len(),
{
    if ledger.len() == 0 {
        None
    } else {
        match position_of(ledger.drop_last(), id) {
            Some(i) => Some(i),
            None => if ledger.last().id == id {
                Some(ledger.len() - 1)
            } else {
                None
            },
        }
    }
}

/// The part of an entry that pays off debt the project still has.
pub open spec fn credit_to_total(debt: int, logged: int) -> int {
    let least = if debt < logged { debt } else { logged };
    if least > 0 { least } else { 0 }
}

/// Whether the entry is booked: its project is in the ledger and had
/// started by the entry's date.
pub open spec fn entry_counts(ledger: Seq<ProjectWithDebt>, entry: TogglEntry) -> bool {
    match position_of(ledger, entry.project_id) {
        Some(i) => ledger[i].project.starting_date@ <= entry.date@,
        None => false,
    }
}

/// The ledger with one entry booked: the logged time comes off the debt of
/// the entry's project in full. An entry that does not count leaves the
/// ledger as it is.
pub open spec fn ledger_with_entry(ledger: Seq<ProjectWithDebt>, entry: TogglEntry) -> Seq<
    ProjectWithDebt,
> {
    if entry_counts(ledger, entry) {
        let i = position_of(ledger, entry.project_id).unwrap();
        ledger.update(i, with_debt(ledger[i], saturate(ledger[i].debt@ - entry.duration@)))
    } else {
        ledger
    }
}

/// The total with one entry booked: the logged time comes off the total
/// only as far as it pays off debt that its project had.
pub open spec fn total_with_entry(ledger: Seq<ProjectWithDebt>, total: int, entry: TogglEntry) -> int {
    if entry_counts(ledger, entry) {
        let i = position_of(ledger, entry.project_id).unwrap();
        saturate(total - credit_to_total(ledger[i].debt@, entry.duration@))
    } else {
        total
    }
}

/// The books with one entry booked.
pub open spec fn with_entry(books: Books, entry: TogglEntry) -> Books {
    Books {
        ledger: ledger_with_entry(books.ledger, entry),
        day: books.day,
        total: total_with_entry(books.ledger, books.total, entry),
    }
}

/// The books after the entries, taken in the order given: before each one
/// the books are brought forward to its date.
pub open spec fn reconciled(books: Books, entries: Seq<TogglEntry>, daily_max: int) -> Books
    decreases entries.len(),
{
    if entries.len() == 0 {
        books
    } else {
        reconciled(
            with_entry(advanced_to(books, entries[0].date@, daily_max), entries[0]),
            entries.drop_first(),
            daily_max,
        )
    }
}

/// The order in which entries are booked: by date.
pub open spec fn by_date() -> spec_fn(TogglEntry, TogglEntry) -> bool {
    |a: TogglEntry, b: TogglEntry| a.date@ <= b.date@
}

/// The earliest starting day among the projects; the last day of the
/// calendar where there is no project.
pub open spec fn earliest_start(projects: Seq<(ProjectId, Project)>) -> int
    decreases projects.len(),
{
    if projects.len() == 0 {
        MAX_DAY as int
    } else {
        let rest = earliest_start(projects.drop_last());
        let start = projects.last().1.starting_date@;
        if start < rest { start } else { rest }
    }
}

/// The ledger at the outset: every project, in the order given, with no
/// debt.
pub open spec fn opening_ledger(projects: Seq<(ProjectId, Project)>) -> Seq<ProjectWithDebt> {
    Seq::new(
        projects.len(),
        |i: int| ProjectWithDebt { id: projects[i].0, project: projects[i].1, debt: Duration { millis: 0 } },
    )
}

/// The books at the outset: no debt, on the day before the earliest start.
pub open spec fn opening_books(projects: Seq<(ProjectId, Project)>) -> Books {
    Books { ledger: opening_ledger(projects), day: earliest_start(projects) - 1, total: 0 }
}

/// The books of the whole simulation: the entries booked in the order of
/// their dates, entries of one date in the order given, and the calendar
/// then brought forward to `today`.
pub open spec fn simulated(
    entries: Seq<TogglEntry>,
    projects: Seq<(ProjectId, Project)>,
    daily_max: int,
    today: int,
) -> Books {
    advanced_to(
        reconciled(opening_books(projects), stable_sort(entries, by_date()), daily_max),
        today,
        daily_max,
    )
}

/// Whether no id stands at two places of the ledger.
pub open spec fn distinct_ids(ledger: Seq<ProjectWithDebt>) -> bool {
    forall|i: int, j: int| 0 <= i < j < ledger.len() ==> (#[trigger] ledger[i]).id != (
    #[trigger] ledger[j]).id
}

/// Whether the two ledgers hold the same projects at the same places,
/// whatever each of them owes.
pub open spec fn same_projects(a: Seq<ProjectWithDebt>, b: Seq<ProjectWithDebt>) -> bool {
    &&& a.len() == b.len()
    &&& forall|i: int|
        0 <= i < a.len() ==> (#[trigger] a[i]).id == b[i].id && a[i].project == b[i].project
}

/// Where the first project with the id stands, seen from the front.
pub proof fn lemma_position_of(ledger: Seq<ProjectWithDebt>, id: ProjectId, i: int)
    requires
        0 <= i <= ledger.len(),
        forall|j: int| 0 <= j < i ==> (#[trigger] ledger[j]).id != id,
        i < ledger.len() ==> ledger[i].id == id,
    ensures
        position_of(ledger, id) == (if i < ledger.len() { Some(i) } else { None }),
    decreases ledger.len(),
{
    if ledger.len() > 0 {
        let front = ledger.drop_last();
        if i < front.len() {
            lemma_position_of(front, id, i);
        } else {
            lemma_position_of(front, id, front.len() as int);
        }
    }
}

/// The sum over one more project is the sum so far and that project's debt.
pub proof fn lemma_sum_of_debts_take(ledger: Seq<ProjectWithDebt>, i: int)
    requires
        0 <= i < ledger.len(),
    ensures
        sum_of_debts(ledger.take(i + 1)) == sum_of_debts(ledger.take(i)) + ledger[i].debt@,
{
    assert(ledger.take(i + 1).drop_last() =~= ledger.take(i));
}

/// At the end of every day the total is no more than the daily maximum:
/// the sum is held down to it, and what is carried over only lowers it.
pub proof fn lemma_total_within_daily_max(sum: int, previous_total: int, daily_max: int)
    requires
        i64::MIN <= daily_max <= i64::MAX,
    ensures
        capped_total(sum, daily_max) <= daily_max,
        total_after_day(sum, previous_total, daily_max) <= daily_max,
{
}

/// After a total that was not ahead of schedule nothing is carried over:
/// the new total is the capped sum as it stands.
pub proof fn lemma_no_carry_over_from_debt(sum: int, previous_total: int, daily_max: int)
    requires
        previous_total >= 0,
    ensures
        total_after_day(sum, previous_total, daily_max) == capped_total(sum, daily_max),
{
}

/// The entries of one date are booked in the order in which they were
/// given.
pub proof fn lemma_entries_of_one_date_keep_order(entries: Seq<TogglEntry>, day: int)
    ensures
        stable_sort(entries, by_date()).filter(|e: TogglEntry| e.date@ == day) == entries.filter(
            |e: TogglEntry| e.date@ == day,
        ),
{
    lemma_stable_sort_keeps_ties(entries, by_date(), |e: TogglEntry| e.date@ == day);
}

/// Booking an entry lowers the total by no more than the debt that its
/// project had, and by nothing where the project had none, however much
/// time was logged.
pub proof fn lemma_entry_credits_at_most_the_debt(
    ledger: Seq<ProjectWithDebt>,
    total: int,
    entry: TogglEntry,
)
    requires
        i64::MIN <= total <= i64::MAX,
    ensures
        total_with_entry(ledger, total, entry) <= total,
        match position_of(ledger, entry.project_id) {
            Some(i) => total - total_with_entry(ledger, total, entry) <= (if ledger[i].debt@ > 0 {
                ledger[i].debt@
            } else {
                0
            }),
            None => total_with_entry(ledger, total, entry) == total,
        },
{
}

/// A day that does not count for a project leaves what the project owes as
/// it was, whatever the day adds for the other projects.
pub proof fn lemma_excluded_day_adds_nothing(ledger: Seq<ProjectWithDebt>, day: int, i: int)
    requires
        0 <= i < ledger.len(),
        ledger[i].project.starting_date@ > day || ledger[i].project.is_day_off(day)
            || !ledger[i].project.weekday_enabled(day),
    ensures
        ledger_after_day(ledger, day)[i] == ledger[i],
        forall|j: int|
            0 <= j < ledger.len() && (#[trigger] ledger[j]).project.accrues_on(day)
                ==> ledger_after_day(ledger, day)[j].debt@ == saturate(
                ledger[j].debt@ + ledger[j].project.daily_goal@,
            ),
{
}

/// The books depend on nothing but the entries, the projects, the daily
/// maximum and the day that is passed in: two runs on the same values end
/// with the same books.
pub proof fn lemma_same_inputs_same_books(
    entries: Seq<TogglEntry>,
    projects: Seq<(ProjectId, Project)>,
    daily_max: int,
    today: int,
    entries_again: Seq<TogglEntry>,
    projects_again: Seq<(ProjectId, Project)>,
    daily_max_again: int,
    today_again: int,
)
    requires
        entries =~= entries_again,
        projects =~= projects_again,
        daily_max == daily_max_again,
        today == today_again,
    ensures
        simulated(entries, projects, daily_max, today) == simulated(
            entries_again,
            projects_again,
            daily_max_again,
            today_again,
        ),
{
}

/// In a ledger that holds every id once, an entry is booked on the one
/// project that has its id.
pub proof fn lemma_position_of_distinct(ledger: Seq<ProjectWithDebt>, i: int)
    requires
        distinct_ids(ledger),
        0 <= i < ledger.len(),
    ensures
        position_of(ledger, ledger[i].id) == Some(i),
{
    lemma_position_of(ledger, ledger[i].id, i);
}

/// An entry dated before every project's start changes nothing. Such are
/// the entries that the calendar is ahead of when their turn comes: it
/// starts on the day before the earliest start and never goes back.
pub proof fn lemma_entry_before_every_start(
    ledger: Seq<ProjectWithDebt>,
    total: int,
    entry: TogglEntry,
)
    requires
        forall|i: int|
            0 <= i < ledger.len() ==> entry.date@ < (#[trigger] ledger[i]).project.starting_date@,
    ensures
        ledger_with_entry(ledger, entry) == ledger,
        total_with_entry(ledger, total, entry) == total,
{
    lemma_position_in_range(ledger, entry.project_id);
}

/// A lookup gives a place of the ledger.
pub proof fn lemma_position_in_range(ledger: Seq<ProjectWithDebt>, id: ProjectId)
    ensures
        match position_of(ledger, id) {
            Some(i) => 0 <= i < ledger.len() && ledger[i].id == id,
            None => forall|j: int| 0 <= j < ledger.len() ==> (#[trigger] ledger[j]).id != id,
        },
    decreases ledger.len(),
{
    if ledger.len() > 0 {
        lemma_position_in_range(ledger.drop_last(), id);
        if position_of(ledger, id) is None {
            assert forall|j: int| 0 <= j < ledger.len() implies (#[trigger] ledger[j]).id != id by {
                if j < ledger.len() - 1 {
                    assert(ledger.drop_last()[j] == ledger[j]);
                }
            }
        }
    }
}

proof fn lemma_advanced_keeps_projects(books: Books, target: int, daily_max: int)
    ensures
        same_projects(advanced_to(books, target, daily_max).ledger, books.ledger),
    decreases target - books.day,
{
    if books.day < target {
        lemma_advanced_keeps_projects(next_day(books, daily_max), target, daily_max);
    }
}

proof fn lemma_reconciled_keeps_projects(books: Books, entries: Seq<TogglEntry>, daily_max: int)
    ensures
        same_projects(reconciled(books, entries, daily_max).ledger, books.ledger),
    decreases entries.len(),
{
    if entries.len() > 0 {
        let caught_up = advanced_to(books, entries[0].date@, daily_max);
        lemma_advanced_keeps_projects(books, entries[0].date@, daily_max);
        lemma_position_in_range(caught_up.ledger, entries[0].project_id);
        lemma_reconciled_keeps_projects(
            with_entry(caught_up, entries[0]),
            entries.drop_first(),
            daily_max,
        );
    }
}

/// The ledger that the simulation ends with holds the projects that were
/// given, each at its place, whatever was logged.
pub proof fn lemma_ledger_keeps_projects(
    entries: Seq<TogglEntry>,
    projects: Seq<(ProjectId, Project)>,
    daily_max: int,
    today: int,
)
    ensures
        simulated(entries, projects, daily_max, today).ledger.len() == projects.len(),
        forall|i: int|
            0 <= i < projects.len() ==> (#[trigger] simulated(
                entries,
                projects,
                daily_max,
                today,
            ).ledger[i]).id == projects[i].0 && simulated(
                entries,
                projects,
                daily_max,
                today,
            ).ledger[i].project == projects[i].1,
{
    let opening = opening_books(projects);
    let sorted = stable_sort(entries, by_date());
    lemma_reconciled_keeps_projects(opening, sorted, daily_max);
    lemma_advanced_keeps_projects(reconciled(opening, sorted, daily_max), today, daily_max);
}

/// What holds of the total from the opening of the books on: it is in the
/// range of a duration, and no more than the daily maximum once a day has
/// been priced in, or from the outset where the maximum is not negative.
pub open spec fn total_in_bounds(books: Books, daily_max: int, opening_day: int) -> bool {
    &&& i64::MIN <= books.total <= i64::MAX
    &&& books.day >= opening_day
    &&& (books.day > opening_day || daily_max >= 0) ==> books.total <= daily_max
}

proof fn lemma_advanced_keeps_bounds(books: Books, target: int, daily_max: int, opening_day: int)
    requires
        i64::MIN <= daily_max <= i64::MAX,
        total_in_bounds(books, daily_max, opening_day),
    ensures
        total_in_bounds(advanced_to(books, target, daily_max), daily_max, opening_day),
        advanced_to(books, target, daily_max).day >= target,
    decreases target - books.day,
{
    if books.day < target {
        lemma_advanced_keeps_bounds(next_day(books, daily_max), target, daily_max, opening_day);
    }
}

proof fn lemma_reconciled_keeps_bounds(
    books: Books,
    entries: Seq<TogglEntry>,
    daily_max: int,
    opening_day: int,
)
    requires
        i64::MIN <= daily_max <= i64::MAX,
        total_in_bounds(books, daily_max, opening_day),
    ensures
        total_in_bounds(reconciled(books, entries, daily_max), daily_max, opening_day),
    decreases entries.len(),
{
    if entries.len() > 0 {
        let caught_up = advanced_to(books, entries[0].date@, daily_max);
        lemma_advanced_keeps_bounds(books, entries[0].date@, daily_max, opening_day);
        lemma_reconciled_keeps_bounds(
            with_entry(caught_up, entries[0]),
            entries.drop_first(),
            daily_max,
            opening_day,
        );
    }
}

/// The simulation ends with a total that is no more than the daily
/// maximum, whatever was logged: every day holds the total down to it, and
/// no entry raises it. This holds where at least one day was priced in,
/// that is where a project had started by `today`, and from the outset
/// where the maximum is not negative.
pub proof fn lemma_simulated_total_within_daily_max(
    entries: Seq<TogglEntry>,
    projects: Seq<(ProjectId, Project)>,
    daily_max: int,
    today: int,
)
    requires
        i64::MIN <= daily_max <= i64::MAX,
        daily_max >= 0 || earliest_start(projects) <= today,
    ensures
        simulated(entries, projects, daily_max, today).total <= daily_max,
        i64::MIN <= simulated(entries, projects, daily_max, today).total <= i64::MAX,
{
    let opening = opening_books(projects);
    let sorted = stable_sort(entries, by_date());
    lemma_reconciled_keeps_bounds(opening, sorted, daily_max, opening.day);
    lemma_advanced_keeps_bounds(
        reconciled(opening, sorted, daily_max),
        today,
        daily_max,
        opening.day,
    );
}

/// Whether no id is given to two projects.
pub open spec fn distinct_project_ids(projects: Seq<(ProjectId, Project)>) -> bool {
    forall|i: int, j: int|
        0 <= i < j < projects.len() ==> (#[trigger] projects[i]).0 != (#[trigger] projects[j]).0
}

/// Where every project has an id of its own, so has every place of the
/// ledger, from the opening of the books to the end of the simulation.
pub proof fn lemma_ledger_keeps_ids_distinct(
    entries: Seq<TogglEntry>,
    projects: Seq<(ProjectId, Project)>,
    daily_max: int,
    today: int,
)
    requires
        distinct_project_ids(projects),
    ensures
        distinct_ids(opening_ledger(projects)),
        distinct_ids(simulated(entries, projects, daily_max, today).ledger),
{
    lemma_ledger_keeps_projects(entries, projects, daily_max, today);
    let ledger = simulated(entries, projects, daily_max, today).ledger;
    assert forall|i: int, j: int| 0 <= i < j < ledger.len() implies (#[trigger] ledger[i]).id != (
    #[trigger] ledger[j]).id by {
        assert(ledger[i].id == projects[i].0);
        assert(ledger[j].id == projects[j].0);
    }
}

} // verus!
