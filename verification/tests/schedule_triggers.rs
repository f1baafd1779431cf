use ansible_operator::schedule::{evaluate_schedule, forecast_next_run, parse_rfc3339_secs, Timing};

fn parse(value: &str) -> i64 {
    parse_rfc3339_secs(value).unwrap()
}

#[test]
fn test_delayed_triggers() {
    // Given
    let schedule = Some("0 20 * * *");
    let window: i64 = 60;

    // When
    let too_early = evaluate_schedule(schedule, "UTC", parse("2025-08-12T19:59:00Z"), window);
    let on_time = evaluate_schedule(schedule, "UTC", parse("2025-08-12T20:00:00Z"), window);
    let latest = evaluate_schedule(schedule, "UTC", parse("2025-08-12T20:00:59Z"), window);
    let too_late = evaluate_schedule(schedule, "UTC", parse("2025-08-12T20:01:00Z"), window);

    // Then
    assert_eq!(
        Some(Timing::Delayed(parse("2025-08-12T20:00:00Z"))),
        too_early
    );
    assert_eq!(Some(Timing::Now(parse("2025-08-12T20:00:00Z"))), on_time);
    assert_eq!(Some(Timing::Now(parse("2025-08-12T20:00:00Z"))), latest);
    assert_eq!(
        Some(Timing::Delayed(parse("2025-08-13T20:00:00Z"))),
        too_late
    );
}

#[test]
fn test_no_schedule_fires_immediately() {
    let now = parse("2025-08-12T19:59:00Z");
    assert_eq!(Some(Timing::Now(now)), evaluate_schedule(None, "UTC", now, 15));
}

#[test]
fn test_invalid_schedule_yields_none() {
    let now = parse("2025-08-12T19:59:00Z");
    assert_eq!(None, evaluate_schedule(Some("not a cron"), "UTC", now, 15));
    assert_eq!(
        None,
        evaluate_schedule(Some("0 20 * * *"), "Nowhere/Nothing", now, 15)
    );
}

#[test]
fn test_forecast_skips_firing_that_just_ran() {
    // An hourly schedule forecast right at a firing, with the negative
    // post-run lookback, must return the next hour, not the one that ran.
    let now = parse("2025-08-12T20:00:00Z");
    let next = forecast_next_run("0 * * * *", "UTC", now, -5).unwrap();
    assert_eq!(next, parse("2025-08-12T21:00:00Z"));
}

#[test]
fn test_forecast_looks_back_within_window() {
    let now = parse("2025-08-12T20:00:10Z");
    let next = forecast_next_run("0 * * * *", "UTC", now, 15).unwrap();
    assert_eq!(next, parse("2025-08-12T20:00:00Z"));
}

#[test]
fn test_parse_rfc3339_secs() {
    assert_eq!(Some(10), parse_rfc3339_secs("1970-01-01T00:00:10Z"));
    assert_eq!(Some(0), parse_rfc3339_secs("1970-01-01T01:00:00+01:00"));
    assert_eq!(None, parse_rfc3339_secs("yesterday"));
}

#[test]
fn test_schedule_respects_time_zone() {
    // 20:00 in UTC+2 is 18:00 UTC.
    let now = parse("2025-08-12T17:59:30Z");
    let timing = evaluate_schedule(Some("0 20 * * *"), "Europe/Berlin", now, 60);
    assert_eq!(Some(Timing::Delayed(parse("2025-08-12T18:00:00Z"))), timing);
}
