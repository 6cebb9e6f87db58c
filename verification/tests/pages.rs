use yottaclock::date::Date;
use yottaclock::duration::Duration;
use yottaclock::forms::{
    duration_of_parts, is_acceptable_daily_max, AccountForm, NewProjectForm, SignupFormStep2,
};
use yottaclock::session::{credentials, session_cookie, Credentials};
use yottaclock::status::{goal_from, percentage, response_body, ResponseBody};
use yottaclock::toggl::{
    active_projects, contains_id, not_yet_created, num_pages, report_step, workspace_step,
    ApiStep, Goal, ProjectId, TogglProject, WhichWeekdays, WorkspaceId,
};

fn listed(id: i64, name: &str, active: bool) -> TogglProject {
    TogglProject { active, name: String::from(name), id: ProjectId(id) }
}

fn ids(projects: &[TogglProject]) -> Vec<i64> {
    projects.iter().map(|project| project.id.0).collect()
}

#[test]
fn hours_minutes_and_seconds_add_up() {
    assert_eq!(duration_of_parts(1, 2, 3), Some(Duration::milliseconds(3_723_000)));
    assert_eq!(duration_of_parts(0, 0, 0), Some(Duration::zero()));
    assert_eq!(duration_of_parts(1, -30, 0), Some(Duration::minutes(30)));
    assert_eq!(duration_of_parts(0, 0, -1), Some(Duration::seconds(-1)));
}

#[test]
fn parts_beyond_the_range_give_nothing() {
    assert_eq!(duration_of_parts(i64::MAX, 0, 0), None);
    assert_eq!(duration_of_parts(0, i64::MIN, 0), None);
    assert_eq!(duration_of_parts(0, 0, i64::MAX), None);
    assert_eq!(duration_of_parts(2_562_047_788_015, 13, 0), None);
    assert_eq!(
        duration_of_parts(2_562_047_788_015, 12, 55),
        Some(Duration::milliseconds(i64::MAX - 807))
    );
    assert_eq!(duration_of_parts(2_562_047_788_015, 12, 56), None);
}

#[test]
fn a_daily_maximum_must_not_be_negative() {
    assert!(is_acceptable_daily_max(Duration::zero()));
    assert!(is_acceptable_daily_max(Duration::hours(3)));
    assert!(!is_acceptable_daily_max(Duration::milliseconds(-1)));
}

#[test]
fn forms_give_their_durations() {
    let account = AccountForm {
        daily_max_hours: 3,
        daily_max_minutes: 30,
        daily_max_seconds: 15,
        timezone: String::from("UTC"),
    };
    assert_eq!(account.daily_max(), Some(Duration::seconds(12_615)));

    let signup = SignupFormStep2 {
        toggl_api_key: String::from("key"),
        workspace_id: WorkspaceId(7),
        daily_max_hours: -1,
        daily_max_minutes: 0,
        daily_max_seconds: 0,
        timezone: String::from("UTC"),
    };
    assert_eq!(signup.daily_max(), Some(Duration::hours(-1)));
    assert!(!is_acceptable_daily_max(signup.daily_max().unwrap()));
}

#[test]
fn ticked_boxes_enable_their_weekdays() {
    let form = NewProjectForm {
        project_id: ProjectId(1),
        starting_date: Date::from_num_days_from_ce_opt(730_120).unwrap(),
        daily_goal_hours: 0,
        daily_goal_minutes: 45,
        daily_goal_seconds: 0,
        monday: Some(String::from("on")),
        tuesday: None,
        wednesday: Some(String::new()),
        thursday: None,
        friday: Some(String::from("off")),
        saturday: None,
        sunday: None,
    };
    assert_eq!(
        form.weekdays(),
        WhichWeekdays {
            monday: true,
            tuesday: false,
            wednesday: true,
            thursday: false,
            friday: true,
            saturday: false,
            sunday: false,
        }
    );
    assert_eq!(form.daily_goal(), Some(Duration::minutes(45)));
}

#[test]
fn basic_authorization_comes_before_the_cookie() {
    let basic = Some((String::from("api_token"), String::from("secret")));
    assert_eq!(
        credentials(basic.clone(), Some(String::from("cookie"))),
        Credentials::ApiToken(String::from("secret"))
    );
    assert_eq!(credentials(basic, None), Credentials::ApiToken(String::from("secret")));
}

#[test]
fn another_user_name_is_turned_down() {
    let basic = Some((String::from("admin"), String::from("secret")));
    assert_eq!(credentials(basic, Some(String::from("cookie"))), Credentials::UnknownUsername);
    let empty = Some((String::new(), String::from("secret")));
    assert_eq!(credentials(empty, None), Credentials::UnknownUsername);
}

#[test]
fn the_cookie_counts_without_basic_authorization() {
    assert_eq!(
        credentials(None, Some(String::from("cookie"))),
        Credentials::SessionToken(String::from("cookie"))
    );
    assert_eq!(credentials(None, None), Credentials::Absent);
}

#[test]
fn the_session_cookie_is_written_out() {
    assert_eq!(
        session_cookie("abc123", true),
        "session=abc123; Max-Age=2592000; Path=/; Secure; HttpOnly; SameSite=Strict"
    );
    assert_eq!(
        session_cookie("abc123", false),
        "session=abc123; Max-Age=2592000; Path=/; HttpOnly; SameSite=Strict"
    );
}

#[test]
fn the_free_share_is_given_in_percent() {
    assert_eq!(percentage(Duration::hours(1), Duration::hours(4)), 75);
    assert_eq!(percentage(Duration::zero(), Duration::hours(4)), 100);
    assert_eq!(percentage(Duration::hours(4), Duration::hours(4)), 0);
    assert_eq!(percentage(Duration::hours(-1), Duration::hours(4)), 125);
    assert_eq!(percentage(Duration::seconds(1), Duration::seconds(3)), 67);
    assert_eq!(percentage(Duration::seconds(-1), Duration::seconds(3)), 133);
    assert_eq!(percentage(Duration::hours(1), Duration::hours(-4)), 125);
    assert_eq!(percentage(Duration::milliseconds(1_999), Duration::milliseconds(1_000)), 0);
    assert_eq!(
        percentage(Duration::milliseconds(i64::MIN), Duration::seconds(1)),
        922_337_203_685_477_600
    );
}

#[test]
fn the_status_report_is_in_whole_seconds() {
    let goals = vec![
        Goal { name: String::from("a"), time: Duration::milliseconds(1_999) },
        Goal { name: String::from("b"), time: Duration::milliseconds(-61_001) },
    ];
    let body = response_body(Some((goals, Duration::minutes(2))), Duration::hours(1));
    assert_eq!(body.total_debt, 120);
    assert_eq!(body.daily_max, 3_600);
    assert_eq!(body.goals.len(), 2);
    assert_eq!(body.goals[0].name, "a");
    assert_eq!(body.goals[0].time, 1);
    assert_eq!(body.goals[1].name, "b");
    assert_eq!(body.goals[1].time, -61);
    let goal = goal_from(Goal { name: String::from("c"), time: Duration::hours(1) });
    assert_eq!(goal.time, 3_600);
}

#[test]
fn the_status_report_is_empty_without_projects() {
    let body = response_body(None, Duration::hours(1));
    assert_eq!(body, ResponseBody { total_debt: 0, daily_max: 0, goals: Vec::new() });
}

#[test]
fn answers_are_read_or_asked_for_again() {
    assert_eq!(workspace_step(200), ApiStep::Read);
    assert_eq!(workspace_step(429), ApiStep::Retry);
    assert_eq!(workspace_step(403), ApiStep::GiveUp);
    assert_eq!(workspace_step(500), ApiStep::GiveUp);
    assert_eq!(report_step(200), ApiStep::Read);
    assert_eq!(report_step(429), ApiStep::Retry);
    assert_eq!(report_step(403), ApiStep::Read);
}

#[test]
fn a_report_has_one_page_more_than_full_ones() {
    assert_eq!(num_pages(0, 50), 1);
    assert_eq!(num_pages(49, 50), 1);
    assert_eq!(num_pages(50, 50), 2);
    assert_eq!(num_pages(120, 50), 3);
}

#[test]
fn only_active_projects_are_kept() {
    let all = vec![
        listed(1, "one", true),
        listed(2, "two", false),
        listed(3, "three", true),
        listed(4, "four", false),
    ];
    assert_eq!(ids(&active_projects(all)), vec![1, 3]);
    assert!(active_projects(Vec::new()).is_empty());
}

#[test]
fn projects_with_a_goal_are_not_offered_again() {
    let all = vec![listed(1, "one", true), listed(2, "two", true), listed(3, "three", true)];
    let created = vec![ProjectId(3), ProjectId(1), ProjectId(9)];
    assert!(contains_id(&created, ProjectId(9)));
    assert!(!contains_id(&created, ProjectId(2)));
    assert_eq!(ids(&not_yet_created(all, &created)), vec![2]);
}

#[test]
fn a_week_asks_for_the_goal_of_each_enabled_day() {
    let weekdays = WhichWeekdays {
        monday: true,
        tuesday: true,
        wednesday: false,
        thursday: true,
        friday: false,
        saturday: false,
        sunday: false,
    };
    let mut project = yottaclock::toggl::Project {
        name: String::from("Work"),
        starting_date: Date::from_num_days_from_ce_opt(730_120).unwrap(),
        daily_goal: Duration::minutes(90),
        days_off: Vec::new(),
        weekdays,
    };
    assert_eq!(yottaclock::toggl::weekly_goal(&project), Some(Duration::minutes(270)));
    project.daily_goal = Duration::milliseconds(i64::MAX / 2);
    assert_eq!(yottaclock::toggl::weekly_goal(&project), None);
    assert_eq!(
        yottaclock::toggl::average_daily_goal(Duration::minutes(270)),
        Duration::milliseconds(2_314_285)
    );
    assert_eq!(
        yottaclock::toggl::average_daily_goal(Duration::milliseconds(-8)),
        Duration::milliseconds(-1)
    );
}

#[test]
fn checked_arithmetic_gives_nothing_beyond_the_range() {
    let most = Duration::milliseconds(i64::MAX);
    assert_eq!(most.checked_add(Duration::milliseconds(1)), None);
    assert_eq!(most.checked_add(Duration::milliseconds(-1)), Some(Duration::milliseconds(i64::MAX - 1)));
    assert_eq!(Duration::hours(2).checked_mul(-3), Some(Duration::hours(-6)));
    assert_eq!(most.checked_mul(2), None);
    assert_eq!(Duration::milliseconds(i64::MIN).checked_mul(-1), None);
    assert_eq!(most.checked_mul(0), Some(Duration::zero()));
}
