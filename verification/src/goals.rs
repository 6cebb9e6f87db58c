//! From the books to the list a user reads: one goal for each project, in
//! the order of the projects' names.

use vstd::prelude::*;
use vstd::utf8::encode_utf8;

use crate::date::Date;
use crate::books::simulated;
use crate::debt::process_toggl_data;
use crate::duration::Duration;
use crate::order::{
    is_ordered, is_total_preorder, lemma_insert_at, lemma_stable_sort_is_ordered,
    lemma_stable_sort_permutes, stable_sort,
};
use crate::toggl::{Goal, Project, ProjectId, ProjectWithDebt, TogglEntry};

verus! {

/// Whether `a` comes no later than `b` where byte strings are compared
/// place by place, and a string comes before every longer one that starts
/// with it.
pub open spec fn bytes_leq(a: Seq<u8>, b: Seq<u8>) -> bool
    decreases a.len(),
{
    if a.len() == 0 {
        true
    } else if b.len() == 0 {
        false
    } else if a[0] != b[0] {
        a[0] < b[0]
    } else {
        bytes_leq(a.drop_first(), b.drop_first())
    }
}

/// The order of names: that of their UTF-8 bytes.
pub open spec fn name_leq(a: Seq<char>, b: Seq<char>) -> bool {
    bytes_leq(encode_utf8(a), encode_utf8(b))
}

/// The order in which goals are listed: by name.
pub open spec fn by_name() -> spec_fn(Goal, Goal) -> bool {
    |a: Goal, b: Goal| name_leq(a.name@, b.name@)
}

/// The goals of a ledger, in the order of the ledger.
pub open spec fn goals_of(ledger: Seq<ProjectWithDebt>) -> Seq<Goal> {
    Seq::new(ledger.len(), |i: int| Goal { name: ledger[i].project.name, time: ledger[i].debt })
}

/// Of two byte strings one comes no later than the other.
pub proof fn lemma_bytes_leq_total(a: Seq<u8>, b: Seq<u8>)
    ensures
        bytes_leq(a, b) || bytes_leq(b, a),
    decreases a.len(),
{
    if a.len() > 0 && b.len() > 0 && a[0] == b[0] {
        lemma_bytes_leq_total(a.drop_first(), b.drop_first());
    }
}

/// What comes no later than a second string comes no later than any that
/// the second comes no later than.
pub proof fn lemma_bytes_leq_transitive(a: Seq<u8>, b: Seq<u8>, c: Seq<u8>)
    requires
        bytes_leq(a, b),
        bytes_leq(b, c),
    ensures
        bytes_leq(a, c),
    decreases a.len(),
{
    if a.len() > 0 && b.len() > 0 && c.len() > 0 && a[0] == b[0] && b[0] == c[0] {
        lemma_bytes_leq_transitive(a.drop_first(), b.drop_first(), c.drop_first());
    }
}

/// Names are totally ordered, so a list sorted by name is in order
/// throughout.
pub proof fn lemma_by_name_is_total_preorder()
    ensures
        is_total_preorder(by_name()),
{
    assert forall|a: Goal, b: Goal| #[trigger] by_name()(a, b) || by_name()(b, a) by {
        lemma_bytes_leq_total(encode_utf8(a.name@), encode_utf8(b.name@));
    }
    assert forall|a: Goal, b: Goal, c: Goal| #[trigger]
        by_name()(a, b) && #[trigger] by_name()(b, c) implies by_name()(a, c) by {
        lemma_bytes_leq_transitive(
            encode_utf8(a.name@),
            encode_utf8(b.name@),
            encode_utf8(c.name@),
        );
    }
}

/// Whether the first name comes no later than the second.
pub fn name_comes_first(a: &str, b: &str) -> (r: bool)
    ensures
        r == name_leq(a@, b@),
{
    let x = a.as_bytes();
    let y = b.as_bytes();
    let mut i: usize = 0;
    assert(x@.skip(0) =~= x@ && y@.skip(0) =~= y@);
    loop
        invariant
            i <= x@.len(),
            i <= y@.len(),
            x@ == encode_utf8(a@),
            y@ == encode_utf8(b@),
            bytes_leq(x@, y@) == bytes_leq(x@.skip(i as int), y@.skip(i as int)),
        decreases x@.len() - i,
    {
        if i == x.len() {
            return true;
        }
        if i == y.len() {
            return false;
        }
        if x[i] != y[i] {
            return x[i] < y[i];
        }
        proof {
            assert(x@.skip(i as int).drop_first() =~= x@.skip(i + 1));
            assert(y@.skip(i as int).drop_first() =~= y@.skip(i + 1));
        }
        i = i + 1;
    }
}

/// Lists what is left to do for every project of the ledger, by name;
/// projects of one name stay in the order of the ledger.
pub fn extract_goals(ledger: &Vec<ProjectWithDebt>) -> (goals: Vec<Goal>)
    ensures
        goals@ == stable_sort(goals_of(ledger@), by_name()),
        is_ordered(goals@, by_name()),
        goals@.to_multiset() == goals_of(ledger@).to_multiset(),
{
    let mut goals: Vec<Goal> = Vec::new();
    let mut i: usize = 0;
    while i < ledger.len()
        invariant
            i <= ledger@.len(),
            goals@ == stable_sort(goals_of(ledger@).take(i as int), by_name()),
            goals@.len() == i,
        decreases ledger@.len() - i,
    {
        let goal = Goal { name: ledger[i].project.name.clone(), time: ledger[i].debt };
        assert(goal == goals_of(ledger@)[i as int]);
        let mut p: usize = goals.len();
        while p > 0 && !name_comes_first(goals[p - 1].name.as_str(), goal.name.as_str())
            invariant
                p <= goals@.len(),
                forall|j: int| p <= j < goals@.len() ==> !by_name()(#[trigger] goals@[j], goal),
            decreases p,
        {
            p = p - 1;
        }
        proof {
            lemma_insert_at(goals@, goal, by_name(), p as int);
            assert(goals_of(ledger@).take(i + 1).drop_last() =~= goals_of(ledger@).take(i as int));
        }
        goals.insert(p, goal);
        i = i + 1;
    }
    proof {
        assert(goals_of(ledger@).take(i as int) =~= goals_of(ledger@));
        lemma_by_name_is_total_preorder();
        lemma_stable_sort_is_ordered(goals_of(ledger@), by_name());
        lemma_stable_sort_permutes(goals_of(ledger@), by_name());
    }
    goals
}

/// The goals and the total debt as of `today`; `None` where no project is
/// configured, in which case nothing is simulated.
pub fn calculate_goals(
    toggl_entries: Vec<TogglEntry>,
    projects: Vec<(ProjectId, Project)>,
    daily_max: Duration,
    today: Date,
) -> (result: Option<(Vec<Goal>, Duration)>)
    ensures
        result is None <==> projects@.len() == 0,
        match result {
            Some((goals, total_debt)) => {
                let books = simulated(toggl_entries@, projects@, daily_max@, today@);
                goals@ == stable_sort(goals_of(books.ledger), by_name()) && total_debt@
                    == books.total
            },
            None => true,
        },
{
    if projects.len() > 0 {
        let (project_debts, total_debt) = process_toggl_data(
            toggl_entries,
            projects,
            daily_max,
            today,
        );
        Some((extract_goals(&project_debts), total_debt))
    } else {
        None
    }
}

} // verus!
