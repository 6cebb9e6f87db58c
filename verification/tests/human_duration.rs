use yottaclock::duration::Duration;
use yottaclock::human_duration::{hours_minutes_seconds, HumanDuration};

#[test]
fn test_positive_human_duration() {
    let duration = Duration::hours(1)
        .saturating_add(Duration::minutes(2))
        .saturating_add(Duration::seconds(3));
    assert_eq!(HumanDuration(duration).to_string(), "1:02:03");
}

#[test]
fn test_negative_human_duration() {
    let duration = Duration::hours(1)
        .saturating_neg()
        .saturating_sub(Duration::minutes(2))
        .saturating_sub(Duration::seconds(3));
    assert_eq!(HumanDuration(duration).to_string(), "-1:02:03");
}

#[test]
fn zero_is_shown_with_a_minus_sign() {
    assert_eq!(HumanDuration(Duration::zero()).to_string(), "-0:00:00");
}

#[test]
fn long_spans_show_all_their_hours() {
    let duration = Duration::hours(123).saturating_add(Duration::seconds(59));
    assert_eq!(HumanDuration(duration).to_string(), "123:00:59");
    assert_eq!(HumanDuration(Duration::minutes(725)).to_string(), "12:05:00");
}

#[test]
fn the_least_span_is_shown_at_the_bound() {
    let least = Duration::milliseconds(i64::MIN);
    assert_eq!(HumanDuration(least).to_string(), "-2562047788015:12:55");
}

#[test]
fn parts_round_towards_zero() {
    assert_eq!(hours_minutes_seconds(Duration::milliseconds(3_723_999)), (1, 2, 3));
    assert_eq!(hours_minutes_seconds(Duration::milliseconds(-3_723_999)), (-1, -2, -3));
    assert_eq!(hours_minutes_seconds(Duration::milliseconds(-999)), (0, 0, 0));
    assert_eq!(hours_minutes_seconds(Duration::milliseconds(59_999)), (0, 0, 59));
}

#[test]
fn whole_units_round_towards_zero() {
    let span = Duration::milliseconds(-7_261_500);
    assert_eq!(span.num_hours(), -2);
    assert_eq!(span.num_minutes(), -121);
    assert_eq!(span.num_seconds(), -7261);
    assert_eq!(Duration::milliseconds(i64::MIN).num_seconds(), -9_223_372_036_854_775);
    assert_eq!(Duration::milliseconds(i64::MAX).num_hours(), 2_562_047_788_015);
}

#[test]
fn arithmetic_is_held_at_the_bounds() {
    let most = Duration::milliseconds(i64::MAX);
    let least = Duration::milliseconds(i64::MIN);
    assert_eq!(most.saturating_add(Duration::milliseconds(1)), most);
    assert_eq!(least.saturating_sub(Duration::milliseconds(1)), least);
    assert_eq!(least.saturating_neg(), most);
    assert_eq!(most.saturating_add(least), Duration::milliseconds(-1));
    assert_eq!(Duration::hours(2).saturating_sub(Duration::minutes(30)), Duration::minutes(90));
    assert_eq!(Duration::seconds(60), Duration::minutes(1));
    assert_eq!(Duration::hours(1), Duration::milliseconds(3_600_000));
}
