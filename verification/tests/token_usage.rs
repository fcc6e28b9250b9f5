use std::collections::HashMap;

use chrono::Datelike;
use chrono::Timelike;
use kiro_gateway::token_usage::bucket_of;
use kiro_gateway::token_usage::series_from;
use kiro_gateway::token_usage::should_flush;
use kiro_gateway::token_usage::GroupTokenStats;
use kiro_gateway::token_usage::ModelStats;
use kiro_gateway::token_usage::SeriesPoint;
use kiro_gateway::token_usage::TimeGranularity;
use kiro_gateway::token_usage::TokenUsageRecord;
use kiro_gateway::token_usage::TokenUsageTracker;
use kiro_gateway::token_usage::MAX_RECENT_REQUESTS;

fn stats(input: i64, output: i64, requests: u64) -> GroupTokenStats {
    GroupTokenStats { input_tokens: input, output_tokens: output, requests }
}

fn record_at(t: &mut TokenUsageTracker, model: &str, cred: u64, i: i32, o: i32, key: Option<u64>, at: &str) {
    t.record_at(model.to_string(), cred, i, o, key, None, None, at.to_string());
}

fn rows(rows: &[ModelStats]) -> Vec<(String, GroupTokenStats)> {
    rows.iter().map(|r| (r.model.clone(), r.stats)).collect()
}

#[test]
fn a_new_ledger_is_empty() {
    let t = TokenUsageTracker::new();
    let s = t.get_stats();
    assert_eq!((s.total_input_tokens, s.total_output_tokens, s.total_requests), (0, 0, 0));
    assert!(s.by_credential.is_empty());
    assert!(s.by_model.is_empty());
    assert!(s.by_api_key.is_empty());
    assert!(s.recent_requests.is_empty());
    assert!(!t.is_dirty());
}

#[test]
fn record_counts_in_every_group() {
    let mut t = TokenUsageTracker::new();
    record_at(&mut t, "sonnet", 1, 100, 20, Some(7), "2026-02-15T10:40:31+00:00");
    record_at(&mut t, "opus", 1, 10, 2, None, "2026-02-15T10:41:00+00:00");
    record_at(&mut t, "sonnet", 2, 1, 1, Some(7), "2026-02-15T10:42:00+00:00");
    assert!(t.is_dirty());
    let s = t.get_stats();
    assert_eq!((s.total_input_tokens, s.total_output_tokens, s.total_requests), (111, 23, 3));
    assert_eq!(s.by_credential.len(), 2);
    assert_eq!(s.by_credential[&1], stats(110, 22, 2));
    assert_eq!(s.by_credential[&2], stats(1, 1, 1));
    assert_eq!(
        rows(&s.by_model),
        vec![("sonnet".to_string(), stats(101, 21, 2)), ("opus".to_string(), stats(10, 2, 1))]
    );
    assert_eq!(s.by_api_key.len(), 1);
    assert_eq!(s.by_api_key[&7], stats(101, 21, 2));
    assert_eq!(s.recent_requests.len(), 3);
    assert_eq!(s.recent_requests[0].model, "sonnet");
    assert_eq!(s.recent_requests[0].timestamp, "2026-02-15T10:40:31+00:00");
    assert_eq!(s.recent_requests[1].api_key_id, None);
    assert_eq!(s.recent_requests[2].credential_id, 2);
    t.mark_saved();
    assert!(!t.is_dirty());
}

#[test]
fn record_stamps_the_request_with_the_time() {
    let mut t = TokenUsageTracker::new();
    t.record(
        "m".to_string(),
        3,
        5,
        6,
        Some(1),
        Some("10.0.0.1".to_string()),
        Some("hello".to_string()),
    );
    let s = t.get_stats();
    assert_eq!(s.recent_requests.len(), 1);
    let r = &s.recent_requests[0];
    assert!(chrono::DateTime::parse_from_rfc3339(&r.timestamp).is_ok());
    assert_eq!(r.client_ip.as_deref(), Some("10.0.0.1"));
    assert_eq!(r.user_input.as_deref(), Some("hello"));
    assert_eq!((r.input_tokens, r.output_tokens), (5, 6));
}

#[test]
fn totals_for_a_key_are_the_sums_of_its_records() {
    let mut t = TokenUsageTracker::new();
    let mut want_in = 0i64;
    let mut want_out = 0i64;
    let mut want_n = 0u64;
    for i in 0..500i32 {
        let key = match i % 3 {
            0 => Some(1),
            1 => Some(2),
            _ => None,
        };
        record_at(&mut t, "m", (i % 4) as u64, i, 2 * i, key, "2026-02-15T10:40:31Z");
        if key == Some(2) {
            want_in += i as i64;
            want_out += 2 * i as i64;
            want_n += 1;
        }
    }
    let s = t.get_stats_for_api_key(2);
    assert_eq!(s.total_input_tokens, want_in);
    assert_eq!(s.total_output_tokens, want_out);
    assert_eq!(s.total_requests, want_n);
    assert_eq!(s.recent_requests.len() as u64, want_n);
    assert!(s.recent_requests.iter().all(|r| r.api_key_id == Some(2)));
    assert!(s.by_api_key.is_empty());
    let by_cred_requests: u64 = s.by_credential.values().map(|g| g.requests).sum();
    assert_eq!(by_cred_requests, want_n);
    assert_eq!(rows(&s.by_model), vec![("m".to_string(), stats(want_in, want_out, want_n))]);
    let none = t.get_stats_for_api_key(99);
    assert_eq!((none.total_input_tokens, none.total_output_tokens, none.total_requests), (0, 0, 0));
    assert!(none.recent_requests.is_empty());
    assert!(none.by_model.is_empty());
}

#[test]
fn the_ledger_keeps_the_latest_requests_only_but_all_totals() {
    let mut t = TokenUsageTracker::new();
    let n = MAX_RECENT_REQUESTS + 5;
    for i in 0..n {
        record_at(&mut t, "m", 1, 1, 1, Some(4), &format!("t{}", i));
    }
    let s = t.get_stats();
    assert_eq!(s.total_requests, n as u64);
    assert_eq!(s.recent_requests.len(), MAX_RECENT_REQUESTS);
    assert_eq!(s.recent_requests[0].timestamp, "t5");
    assert_eq!(s.recent_requests[MAX_RECENT_REQUESTS - 1].timestamp, format!("t{}", n - 1));
    let mine = t.get_stats_for_api_key(4);
    assert_eq!(mine.total_requests, n as u64);
    assert_eq!(mine.total_input_tokens, n as i64);
    assert_eq!(mine.recent_requests.len(), MAX_RECENT_REQUESTS);
}

#[test]
fn a_saved_ledger_comes_back_trimmed() {
    let record = |i: usize| TokenUsageRecord {
        timestamp: format!("t{}", i),
        model: "m".to_string(),
        credential_id: 1,
        api_key_id: None,
        input_tokens: 1,
        output_tokens: 1,
        client_ip: None,
        user_input: None,
    };
    let recent: Vec<TokenUsageRecord> = (0..MAX_RECENT_REQUESTS + 3).map(record).collect();
    let mut by_credential = HashMap::new();
    by_credential.insert(1u64, stats(9, 8, 7));
    let t = TokenUsageTracker::from_parts(
        9,
        8,
        7,
        by_credential,
        vec![ModelStats { model: "m".to_string(), stats: stats(9, 8, 7) }],
        HashMap::new(),
        recent,
    );
    let s = t.get_stats();
    assert_eq!((s.total_input_tokens, s.total_output_tokens, s.total_requests), (9, 8, 7));
    assert_eq!(s.by_credential[&1], stats(9, 8, 7));
    assert_eq!(s.recent_requests.len(), MAX_RECENT_REQUESTS);
    assert_eq!(s.recent_requests[0].timestamp, "t3");
    assert!(!t.is_dirty());
}

#[test]
fn reset_forgets_everything() {
    let mut t = TokenUsageTracker::new();
    record_at(&mut t, "m", 1, 1, 1, Some(1), "2026-02-15T10:40:31Z");
    t.mark_saved();
    t.reset();
    assert!(t.is_dirty());
    let s = t.get_stats();
    assert_eq!(s.total_requests, 0);
    assert!(s.by_model.is_empty());
    assert!(s.recent_requests.is_empty());
}

#[test]
fn a_request_that_would_overflow_is_not_recorded() {
    let mut by_model = Vec::new();
    by_model.push(ModelStats { model: "m".to_string(), stats: stats(i64::MAX - 1, 0, 1) });
    let mut t =
        TokenUsageTracker::from_parts(0, 0, 0, HashMap::new(), by_model, HashMap::new(), Vec::new());
    assert!(!t.can_record("m", 1, 2, 0, None));
    assert!(t.can_record("m", 1, 1, 0, None));
    assert!(t.can_record("other", 1, 2, 0, None));
    assert!(!t.try_record("m".to_string(), 1, 2, 0, None, None, None));
    assert_eq!(t.get_stats().total_requests, 0);
    assert!(t.try_record("m".to_string(), 1, 1, 0, None, None, None));
    assert_eq!(t.get_stats().by_model[0].stats, stats(i64::MAX, 0, 2));
}

#[test]
fn granularity_names() {
    assert_eq!(TimeGranularity::from_str("hour"), Some(TimeGranularity::Hour));
    assert_eq!(TimeGranularity::from_str("day"), Some(TimeGranularity::Day));
    assert_eq!(TimeGranularity::from_str("week"), Some(TimeGranularity::Week));
    assert_eq!(TimeGranularity::from_str("Hour"), None);
    assert_eq!(TimeGranularity::from_str(""), None);
    assert_eq!(TimeGranularity::from_str("month"), None);
    assert_eq!(TimeGranularity::Hour.as_str(), "hour");
    assert_eq!(TimeGranularity::Day.as_str(), "day");
    assert_eq!(TimeGranularity::Week.as_str(), "week");
    assert_eq!(TimeGranularity::Hour.limit(), 48);
    assert_eq!(TimeGranularity::Day.limit(), 30);
    assert_eq!(TimeGranularity::Week.limit(), 12);
}

#[test]
fn a_sunday_falls_in_the_week_of_the_monday_before() {
    let mut t = TokenUsageTracker::new();
    record_at(&mut t, "m", 1, 10, 20, None, "2026-02-15T10:40:31Z");
    let s = t.get_timeseries_stats(TimeGranularity::Week);
    assert_eq!(s.granularity, "week");
    assert_eq!(s.data.len(), 1);
    assert_eq!(s.data[0].time_key, "2026-02-09T00:00:00Z");
    assert_eq!((s.data[0].input_tokens, s.data[0].output_tokens, s.data[0].requests), (10, 20, 1));
    assert_eq!((s.total_input_tokens, s.total_output_tokens, s.total_requests), (10, 20, 1));
}

#[test]
fn buckets_start_on_the_hour_the_day_and_the_monday() {
    // 2026-02-15T10:40:31Z is 1771152031 seconds after the epoch.
    let sunday = 1_771_152_031i64;
    assert_eq!(chrono::DateTime::from_timestamp(sunday, 0).unwrap().to_rfc3339(), "2026-02-15T10:40:31+00:00");
    assert_eq!(bucket_of(sunday, TimeGranularity::Hour), Some(1_771_149_600));
    assert_eq!(bucket_of(sunday, TimeGranularity::Day), Some(1_771_113_600));
    assert_eq!(bucket_of(sunday, TimeGranularity::Week), Some(1_770_595_200));
    // A Monday at midnight starts its own week.
    assert_eq!(bucket_of(1_770_595_200, TimeGranularity::Week), Some(1_770_595_200));
    assert_eq!(bucket_of(1_770_595_199, TimeGranularity::Week), Some(1_770_595_200 - 604_800));
    // The epoch fell on a Thursday.
    assert_eq!(bucket_of(0, TimeGranularity::Week), Some(-259_200));
    assert_eq!(bucket_of(0, TimeGranularity::Day), Some(0));
    assert_eq!(bucket_of(-1, TimeGranularity::Hour), Some(-3600));
    assert_eq!(bucket_of(-1, TimeGranularity::Day), Some(-86_400));
    assert_eq!(bucket_of(-86_400, TimeGranularity::Day), Some(-86_400));
    assert_eq!(bucket_of(i64::MAX, TimeGranularity::Hour), Some(i64::MAX - i64::MAX % 3600));
    assert_eq!(bucket_of(i64::MIN, TimeGranularity::Week), None);
    assert_eq!(bucket_of(i64::MIN, TimeGranularity::Hour), None);
}

#[test]
fn buckets_agree_with_the_calendar() {
    let mut secs = -2_000_000_000i64;
    while secs < 4_000_000_000 {
        let at = chrono::DateTime::from_timestamp(secs, 0).unwrap();
        let week = chrono::DateTime::from_timestamp(bucket_of(secs, TimeGranularity::Week).unwrap(), 0).unwrap();
        assert_eq!(week.weekday(), chrono::Weekday::Mon);
        assert_eq!((week.hour(), week.minute(), week.second()), (0, 0, 0));
        assert!(week <= at && (at - week).num_days() < 7);
        let day = chrono::DateTime::from_timestamp(bucket_of(secs, TimeGranularity::Day).unwrap(), 0).unwrap();
        assert_eq!(day.date_naive(), at.date_naive());
        assert_eq!((day.hour(), day.minute(), day.second()), (0, 0, 0));
        let hour = chrono::DateTime::from_timestamp(bucket_of(secs, TimeGranularity::Hour).unwrap(), 0).unwrap();
        assert_eq!((hour.date_naive(), hour.hour()), (at.date_naive(), at.hour()));
        assert_eq!((hour.minute(), hour.second()), (0, 0));
        secs += 7_654_321;
    }
}

#[test]
fn a_time_series_groups_by_bucket_latest_first() {
    let mut t = TokenUsageTracker::new();
    record_at(&mut t, "m", 1, 1, 10, None, "2026-02-15T10:40:31Z");
    record_at(&mut t, "m", 1, 2, 20, None, "2026-02-15T12:00:00+02:00");
    record_at(&mut t, "m", 1, 4, 40, None, "2026-02-15T11:00:00Z");
    record_at(&mut t, "m", 1, 8, 80, None, "not a time");
    record_at(&mut t, "m", 1, 16, 160, None, "2026-02-14T23:59:59Z");
    let s = t.get_timeseries_stats(TimeGranularity::Hour);
    let shown: Vec<(String, i64, i64, u64)> = s
        .data
        .iter()
        .map(|r| (r.time_key.clone(), r.input_tokens, r.output_tokens, r.requests))
        .collect();
    assert_eq!(
        shown,
        vec![
            ("2026-02-15T11:00:00Z".to_string(), 4, 40, 1),
            ("2026-02-15T10:00:00Z".to_string(), 3, 30, 2),
            ("2026-02-14T23:00:00Z".to_string(), 16, 160, 1),
        ]
    );
    assert_eq!((s.total_input_tokens, s.total_output_tokens, s.total_requests), (23, 230, 4));
    let days = t.get_timeseries_stats(TimeGranularity::Day);
    assert_eq!(days.granularity, "day");
    assert_eq!(days.data.len(), 2);
    assert_eq!(days.data[0].time_key, "2026-02-15T00:00:00Z");
    assert_eq!(days.data[0].requests, 3);
    assert_eq!(days.data[1].time_key, "2026-02-14T00:00:00Z");
    let points = t.series_points(TimeGranularity::Day);
    assert_eq!(points.len(), 4);
    assert_eq!(points[0].start, 1_771_113_600);
    assert_eq!(points[0].key, "2026-02-15T00:00:00Z");
}

#[test]
fn a_time_series_shows_the_latest_buckets_only() {
    let point = |start: i64, input: i32| SeriesPoint {
        start,
        key: format!("k{}", start),
        input_tokens: input,
        output_tokens: 1,
    };
    let mut points = Vec::new();
    for d in 0..40i64 {
        points.push(point(d * 86_400, 1));
        points.push(point(d * 86_400, 2));
    }
    let s = series_from(&points, TimeGranularity::Day);
    assert_eq!(s.data.len(), 30);
    assert_eq!(s.data[0].time_key, format!("k{}", 39 * 86_400));
    assert_eq!(s.data[29].time_key, format!("k{}", 10 * 86_400));
    assert!(s.data.iter().all(|r| r.input_tokens == 3 && r.requests == 2));
    assert_eq!((s.total_input_tokens, s.total_output_tokens, s.total_requests), (90, 60, 60));
    let weeks = series_from(&points, TimeGranularity::Week);
    assert_eq!(weeks.data.len(), 12);
    let hours = series_from(&points, TimeGranularity::Hour);
    assert_eq!(hours.data.len(), 40);
    let none = series_from(&Vec::new(), TimeGranularity::Hour);
    assert!(none.data.is_empty());
    assert_eq!((none.total_input_tokens, none.total_output_tokens, none.total_requests), (0, 0, 0));
    assert_eq!(none.granularity, "hour");
}

#[test]
fn saves_are_spaced_out() {
    assert!(should_flush(None));
    assert!(!should_flush(Some(0)));
    assert!(!should_flush(Some(29)));
    assert!(should_flush(Some(30)));
    assert!(should_flush(Some(31)));
}

#[test]
fn a_saved_ledger_comes_back_with_one_row_per_model() {
    let by_model = vec![
        ModelStats { model: "a".to_string(), stats: stats(1, 1, 1) },
        ModelStats { model: "b".to_string(), stats: stats(2, 2, 2) },
        ModelStats { model: "a".to_string(), stats: stats(5, 6, 7) },
        ModelStats { model: "c".to_string(), stats: stats(3, 3, 3) },
        ModelStats { model: "b".to_string(), stats: stats(8, 9, 10) },
    ];
    let mut t = TokenUsageTracker::from_parts(0, 0, 0, HashMap::new(), by_model, HashMap::new(), Vec::new());
    assert_eq!(
        rows(&t.get_stats().by_model),
        vec![
            ("a".to_string(), stats(5, 6, 7)),
            ("b".to_string(), stats(8, 9, 10)),
            ("c".to_string(), stats(3, 3, 3)),
        ]
    );
    record_at(&mut t, "a", 1, 10, 20, None, "2026-01-01T00:00:00Z");
    record_at(&mut t, "d", 1, 1, 2, None, "2026-01-01T00:00:01Z");
    assert_eq!(
        rows(&t.get_stats().by_model),
        vec![
            ("a".to_string(), stats(15, 26, 8)),
            ("b".to_string(), stats(8, 9, 10)),
            ("c".to_string(), stats(3, 3, 3)),
            ("d".to_string(), stats(1, 2, 1)),
        ]
    );
}

#[test]
fn rows_with_one_row_per_model_come_back_as_they_were() {
    let by_model = vec![
        ModelStats { model: "z".to_string(), stats: stats(1, 2, 3) },
        ModelStats { model: "y".to_string(), stats: stats(4, 5, 6) },
    ];
    let t = TokenUsageTracker::from_parts(0, 0, 0, HashMap::new(), by_model, HashMap::new(), Vec::new());
    assert_eq!(
        rows(&t.get_stats().by_model),
        vec![("z".to_string(), stats(1, 2, 3)), ("y".to_string(), stats(4, 5, 6))]
    );
    assert_eq!(kiro_gateway::token_usage::merge_rows(&Vec::new()).len(), 0);
}
