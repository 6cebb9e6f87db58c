use chrono::{Datelike, NaiveDate};
use yottaclock::date::Date;
use yottaclock::debt::process_toggl_data;
use yottaclock::duration::Duration;
use yottaclock::toggl::{Project, ProjectId, ProjectWithDebt, TogglEntry, WhichWeekdays};

fn ymd(year: i32, month: u32, day: u32) -> Date {
    let date = NaiveDate::from_ymd_opt(year, month, day).unwrap();
    Date::from_num_days_from_ce_opt(date.num_days_from_ce()).unwrap()
}

#[test]
fn test_total_debt_overflow() {
    let project_id = ProjectId(1234);

    let toggl_entries = vec![TogglEntry {
        project_id,
        date: ymd(2000, 1, 9),
        duration: Duration::hours(4),
    }];

    let example_project = Project {
        name: String::from("Example Project"),
        starting_date: ymd(2000, 1, 1),
        daily_goal: Duration::hours(1),
        days_off: Vec::new(),
        weekdays: WhichWeekdays {
            monday: true,
            tuesday: true,
            wednesday: true,
            thursday: true,
            friday: true,
            saturday: true,
            sunday: true,
        },
    };

    let user_projects = vec![(project_id, example_project.clone())];

    let daily_max = Duration::hours(3);

    let today = ymd(2000, 1, 10);

    let (r1, r2) = process_toggl_data(toggl_entries, user_projects, daily_max, today);

    assert_eq!(
        r1,
        vec![ProjectWithDebt {
            id: project_id,
            project: example_project,
            debt: Duration::hours(6),
        }]
    );

    assert_eq!(r2, Duration::hours(2));
}

#[test]
fn test_days_off() {
    let project_id = ProjectId(185068848);

    let toggl_entries = Vec::new();

    let example_project = Project {
        name: String::from("EECS 575"),
        starting_date: ymd(2000, 1, 1),
        daily_goal: Duration::hours(1),
        days_off: vec![ymd(2000, 1, 1)],
        weekdays: WhichWeekdays {
            monday: true,
            tuesday: true,
            wednesday: true,
            thursday: true,
            friday: true,
            saturday: true,
            sunday: true,
        },
    };

    let user_projects = vec![(project_id, example_project.clone())];

    let daily_max = Duration::hours(5);

    let today = ymd(2000, 1, 2);

    let (r1, r2) = process_toggl_data(toggl_entries, user_projects, daily_max, today);

    assert_eq!(
        r1,
        vec![ProjectWithDebt {
            id: project_id,
            project: example_project,
            debt: Duration::hours(1),
        }]
    );

    assert_eq!(r2, Duration::hours(1));
}
