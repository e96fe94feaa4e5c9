use prometheus_edge_detector::window::{
    lookback_window, query_step, TimeSpan, MAX_STEP, MIN_STEP, TARGET_SAMPLES,
};

#[test]
fn step_constants() {
    assert_eq!(MIN_STEP, 2);
    assert_eq!(MAX_STEP, 60);
    assert_eq!(TARGET_SAMPLES, 240);
}

#[test]
fn short_spans_get_the_finest_step() {
    assert_eq!(query_step(1000, 1000), 2);
    assert_eq!(query_step(1000, 1001), 2);
    assert_eq!(query_step(1000, 1030), 2);
    assert_eq!(query_step(1000, 1060), 2);
    assert_eq!(query_step(0, 60), 2);
}

#[test]
fn span_of_240_times_60_gets_the_coarsest_step() {
    assert_eq!(query_step(0, 14_400), 60);
    assert_eq!(query_step(1_700_000_000, 1_700_014_400), 60);
}

#[test]
fn longer_spans_stay_at_the_coarsest_step() {
    assert_eq!(query_step(0, 28_800), 60);
    assert_eq!(query_step(0, 14_401), 60);
    assert_eq!(query_step(0, 14_640), 60);
    assert_eq!(query_step(0, u64::MAX), 60);
}

#[test]
fn spans_in_between_are_divided_by_240_rounding_down() {
    assert_eq!(query_step(0, 479), 2);
    assert_eq!(query_step(0, 480), 2);
    assert_eq!(query_step(0, 719), 2);
    assert_eq!(query_step(0, 720), 3);
    assert_eq!(query_step(0, 959), 3);
    assert_eq!(query_step(0, 960), 4);
    assert_eq!(query_step(0, 3600), 15);
    assert_eq!(query_step(0, 14_159), 58);
    assert_eq!(query_step(0, 14_160), 59);
    assert_eq!(query_step(0, 14_399), 59);
}

#[test]
fn step_depends_on_the_span_only() {
    assert_eq!(query_step(5000, 8600), query_step(0, 3600));
    assert_eq!(query_step(u64::MAX - 3600, u64::MAX), 15);
}

#[test]
fn window_that_ends_before_it_starts_gets_the_finest_step() {
    assert_eq!(query_step(2000, 1000), 2);
    assert_eq!(query_step(u64::MAX, 0), 2);
    assert_eq!(query_step(1, 0), 2);
}

#[test]
fn lookback_of_whole_seconds() {
    let now = TimeSpan { secs: 1_700_003_600, subsec_nanos: 0 };
    let max_age = TimeSpan { secs: 3600, subsec_nanos: 0 };
    assert_eq!(lookback_window(now, max_age), (1_700_000_000, 1_700_003_600));
}

#[test]
fn lookback_keeps_the_whole_seconds_of_the_difference() {
    let now = TimeSpan { secs: 100, subsec_nanos: 200_000_000 };
    let max_age = TimeSpan { secs: 10, subsec_nanos: 500_000_000 };
    assert_eq!(lookback_window(now, max_age), (89, 100));

    let now = TimeSpan { secs: 100, subsec_nanos: 500_000_000 };
    let max_age = TimeSpan { secs: 10, subsec_nanos: 200_000_000 };
    assert_eq!(lookback_window(now, max_age), (90, 100));

    let now = TimeSpan { secs: 100, subsec_nanos: 500_000_000 };
    let max_age = TimeSpan { secs: 10, subsec_nanos: 500_000_000 };
    assert_eq!(lookback_window(now, max_age), (90, 100));

    let now = TimeSpan { secs: 100, subsec_nanos: 0 };
    let max_age = TimeSpan { secs: 0, subsec_nanos: 1 };
    assert_eq!(lookback_window(now, max_age), (99, 100));
}

#[test]
fn lookback_agrees_with_duration_arithmetic() {
    let cases = [
        (1_700_000_000u64, 123_456_789u32, 3600u64, 0u32),
        (1_700_000_000, 123_456_789, 3600, 123_456_789),
        (1_700_000_000, 123_456_789, 3600, 123_456_790),
        (1_700_000_000, 0, 0, 999_999_999),
        (5, 999_999_999, 5, 999_999_999),
        (5, 0, 4, 999_999_999),
    ];
    for (now_secs, now_nanos, age_secs, age_nanos) in cases {
        let now = std::time::Duration::new(now_secs, now_nanos);
        let age = std::time::Duration::new(age_secs, age_nanos);
        let window = lookback_window(
            TimeSpan { secs: now_secs, subsec_nanos: now_nanos },
            TimeSpan { secs: age_secs, subsec_nanos: age_nanos },
        );
        assert_eq!(window, ((now - age).as_secs(), now.as_secs()));
    }
}

#[test]
fn lookback_to_the_epoch() {
    let now = TimeSpan { secs: 1_700_000_000, subsec_nanos: 5 };
    assert_eq!(lookback_window(now, now), (0, 1_700_000_000));
    let zero = TimeSpan { secs: 0, subsec_nanos: 0 };
    assert_eq!(lookback_window(zero, zero), (0, 0));
}

#[test]
fn lookback_of_nothing() {
    let now = TimeSpan { secs: 77, subsec_nanos: 999_999_999 };
    let none = TimeSpan { secs: 0, subsec_nanos: 0 };
    assert_eq!(lookback_window(now, none), (77, 77));
}
