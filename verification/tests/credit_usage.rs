use chrono::{Datelike, Duration, Local, TimeZone};
use wb_switch_core::clock::local_day;
use wb_switch_core::credit_usage::{
    load_snapshots, newest_snapshot, normalize_snapshots, record_snapshot, should_suppress_duplicate,
    snapshot_from_value, snapshot_value, CREDIT_SNAPSHOT_DEDUPE_WINDOW_MS, CREDIT_SNAPSHOT_MAX_RECORDS,
    CREDIT_SNAPSHOT_RETENTION_DAYS,
};
use wb_switch_core::json::{from_text, Json, Op, Real};
use wb_switch_core::statistics::{balance_falls, build_statistics, statistics_days};
use wb_switch_core::variant::WbVariant;

fn j(text: &str) -> Json {
    from_text(text).expect("JSON")
}

fn double(x: f64) -> Json {
    Json::Real(Real { bits: x.to_bits(), whole: x as i64, finite: x.is_finite() })
}

fn float(v: &Json) -> f64 {
    match v {
        Json::Int(n) => *n as f64,
        Json::Real(r) => f64::from_bits(r.bits),
        Json::Calc(Op::Sum, list) => list.iter().map(float).fold(0.0, |a, b| a + b),
        Json::Calc(Op::Minus, list) => float(&list[0]) - float(&list[1]),
        Json::Calc(Op::AtLeastZero, list) => float(&list[0]).max(0.0),
        other => panic!("no number: {other:?}"),
    }
}

fn number(v: Option<&Json>) -> f64 {
    float(v.expect("a number"))
}

fn at_local_date(days_ago: i64, hour: u32) -> i64 {
    let today = Local::now().date_naive() - Duration::days(days_ago);
    Local
        .with_ymd_and_hms(today.year(), today.month(), today.day(), hour, 0, 0)
        .single()
        .expect("valid local test date")
        .timestamp_millis()
}

fn snap(ts: i64, remaining: f64) -> Json {
    snap_variant(ts, remaining, WbVariant::Cn)
}

fn snap_variant(ts: i64, remaining: f64, variant: WbVariant) -> Json {
    snapshot_value(ts, "account-1", "one@example.com", double(100.0), double(remaining), variant)
}

fn statistics(records: &[Json], log: &[Json], accounts: &[Json], now: i64) -> Json {
    let fell: Vec<bool> = balance_falls(records, now)
        .iter()
        .map(|fall| !matches!(fall, Json::Null) && float(fall) > f64::EPSILON)
        .collect();
    let days = statistics_days(records, log);
    build_statistics(records, log, accounts, &fell, &days, local_day(now).unwrap(), now)
}

fn summary(stats: &Json, key: &str) -> f64 {
    number(stats.get("summary").unwrap().get(key))
}

fn events(stats: &Json) -> &Vec<Json> {
    stats.get_arr("events").unwrap()
}

fn row<'a>(stats: &'a Json, id: &str) -> &'a Json {
    stats.get_arr("accounts").unwrap().iter().find(|a| a.get_str("accountId") == Some(id)).expect("account row")
}

#[test]
fn legacy_snapshots_without_variant_are_read_as_cn() {
    let now = at_local_date(0, 12);
    let old = |ts: i64, remaining: &str| {
        j(&format!(
            r#"{{"ts": {ts}, "accountId": "account-1", "accountName": "one@example.com", "total": 100.0, "remaining": {remaining}}}"#
        ))
    };
    let legacy = old(now, "90.0");
    assert!(legacy.get("variant").is_none());
    let parsed = snapshot_from_value(&legacy).expect("旧快照仍可解析");
    assert_eq!(parsed.variant, WbVariant::Cn);

    let stats = statistics(&[old(now - 60_000, "100.0"), legacy], &[], &[], now);
    assert_eq!(summary(&stats, "usageToday"), 10.0);
    assert_eq!(stats.get_arr("accounts").unwrap()[0].get_str("variant"), Some("cn"));
    assert_eq!(events(&stats)[0].get_str("variant"), Some("cn"));
}

#[test]
fn snapshots_and_events_carry_variant() {
    let now = at_local_date(0, 12);
    let stats = statistics(
        &[snap_variant(now - 60_000, 100.0, WbVariant::Ai), snap_variant(now, 80.0, WbVariant::Ai)],
        &[],
        &[j(r#"{"id": "account-1", "variant": "ai", "email": "one@example.com"}"#)],
        now,
    );
    assert_eq!(summary(&stats, "usageToday"), 20.0);
    assert_eq!(row(&stats, "account-1").get_str("variant"), Some("ai"));
    assert_eq!(events(&stats)[0].get_str("kind"), Some("usage"));
    assert_eq!(events(&stats)[0].get_str("variant"), Some("ai"));
}

#[test]
fn account_variant_wins_over_legacy_snapshot_default() {
    let now = at_local_date(0, 12);
    let stats = statistics(
        &[j(&format!(
            r#"{{"ts": {now}, "accountId": "ai-1", "accountName": "ai@example.com", "total": 10.0, "remaining": 10.0}}"#
        ))],
        &[j(&format!(
            r#"{{"ts": {now}, "accountId": "ai-1", "email": "ai@example.com", "result": "success"}}"#
        ))],
        &[j(r#"{"id": "ai-1", "variant": "ai"}"#)],
        now,
    );
    assert_eq!(row(&stats, "ai-1").get_str("variant"), Some("ai"));
    assert_eq!(events(&stats)[0].get_str("variant"), Some("ai"));
}

#[test]
fn first_observation_does_not_create_usage() {
    let now = at_local_date(0, 12);
    let stats = statistics(&[snap(now, 100.0)], &[], &[], now);
    assert_eq!(summary(&stats, "usageToday"), 0.0);
    assert_eq!(number(stats.get_arr("daily").unwrap()[0].get("usage")), 0.0);
}

#[test]
fn positive_decreases_are_assigned_to_the_newer_local_day() {
    let now = at_local_date(0, 12);
    let yesterday = at_local_date(1, 12);
    let stats = statistics(&[snap(yesterday, 100.0), snap(now, 70.0)], &[], &[], now);

    assert_eq!(summary(&stats, "usageToday"), 30.0);
    assert_eq!(summary(&stats, "usage7Days"), 30.0);
    assert_eq!(number(stats.get_arr("daily").unwrap().last().unwrap().get("usage")), 30.0);
    assert_eq!(events(&stats)[0].get_str("kind"), Some("usage"));
    assert_eq!(number(events(&stats)[0].get("amount")), 30.0);
}

#[test]
fn increases_reset_the_baseline_without_negative_usage() {
    let now = at_local_date(0, 12);
    let earlier = at_local_date(2, 12);
    let yesterday = at_local_date(1, 12);
    let stats =
        statistics(&[snap(earlier, 100.0), snap(yesterday, 125.0), snap(now, 115.0)], &[], &[], now);

    assert_eq!(summary(&stats, "usageToday"), 10.0);
    assert_eq!(summary(&stats, "usage7Days"), 10.0);
    assert_eq!(events(&stats).len(), 1);
}

#[test]
fn retention_and_month_windows_use_local_calendar_dates() {
    let now = at_local_date(0, 12);
    let old = at_local_date(CREDIT_SNAPSHOT_RETENTION_DAYS + 1, 12);
    let stats = statistics(&[snap(old, 100.0), snap(now, 80.0)], &[], &[], now);

    assert_eq!(summary(&stats, "usage7Days"), 0.0);
    assert_eq!(summary(&stats, "usageThisMonth"), 0.0);
    assert_eq!(stats.get_i64("coverageStartAt"), Some(now));
}

#[test]
fn checkin_events_are_separate_from_credit_usage() {
    let now = at_local_date(0, 12);
    let logs = vec![j(&format!(
        r#"{{"ts": {now}, "accountId": "account-1", "email": "one@example.com", "result": "success"}}"#
    ))];
    let stats = statistics(&[snap(now - 60_000, 100.0), snap(now, 90.0)], &logs, &[], now);

    assert_eq!(summary(&stats, "usageToday"), 10.0);
    assert_eq!(summary(&stats, "todayCheckedInAccounts"), 1.0);
    assert_eq!(events(&stats).len(), 2);
    let kinds: Vec<&str> = events(&stats).iter().filter_map(|event| event.get_str("kind")).collect();
    assert!(kinds.contains(&"checkin"));
    assert!(kinds.contains(&"usage"));
}

#[test]
fn checkins_without_identity_are_kept_as_events_but_not_counted_as_accounts() {
    let now = at_local_date(0, 12);
    let logs = vec![j(&format!(r#"{{"ts": {now}, "result": "success"}}"#))];
    let stats = statistics(&[], &logs, &[], now);
    assert_eq!(summary(&stats, "todayCheckedInAccounts"), 0.0);
    assert_eq!(events(&stats)[0].get_str("kind"), Some("checkin"));
}

#[test]
fn historical_only_accounts_do_not_look_current() {
    let now = at_local_date(0, 12);
    let stats = statistics(
        &[snap(now - 60_000, 100.0), snap(now, 80.0)],
        &[],
        &[j(r#"{"id": "current-account"}"#)],
        now,
    );
    assert_eq!(summary(&stats, "currentRemaining"), 0.0);
    let historical = row(&stats, "account-1");
    assert_eq!(historical.get_bool("isCurrent"), Some(false));
    assert!(matches!(historical.get("currentRemaining"), Some(Json::Null)));
    assert_eq!(historical.get_i64("lastSnapshotAt"), Some(now));
}

#[test]
fn snapshot_normalization_filters_old_values_and_caps_records() {
    let now = at_local_date(0, 12);
    let old = snap(now - (CREDIT_SNAPSHOT_RETENTION_DAYS + 1) * 24 * 3600 * 1000, 100.0);
    let mut values = vec![old];
    values.extend(
        (0..(CREDIT_SNAPSHOT_MAX_RECORDS + 1))
            .map(|index| snap(now - (CREDIT_SNAPSHOT_MAX_RECORDS as i64 - index as i64) * 1_000, 100.0)),
    );

    let normalized = normalize_snapshots(&values, now);

    assert_eq!(normalized.len(), CREDIT_SNAPSHOT_MAX_RECORDS);
    assert!(normalized.iter().all(|value| {
        snapshot_from_value(value)
            .map(|snapshot| snapshot.ts >= now - CREDIT_SNAPSHOT_RETENTION_DAYS * 24 * 3600 * 1000)
            .unwrap_or(false)
    }));
}

fn same_amounts(records: &[Json], total: f64, remaining: f64) -> bool {
    match newest_snapshot(records, "account-1") {
        Some(s) => {
            (float(&s.total) - total).abs() < f64::EPSILON && (float(&s.remaining) - remaining).abs() < f64::EPSILON
        }
        None => false,
    }
}

#[test]
fn same_value_is_suppressed_only_inside_the_short_window() {
    let now = at_local_date(0, 12);
    let previous = vec![snap(now - CREDIT_SNAPSHOT_DEDUPE_WINDOW_MS - 1, 100.0)];
    assert!(!should_suppress_duplicate(&previous, "account-1", same_amounts(&previous, 100.0, 100.0), now));
    let recent = vec![snap(now - CREDIT_SNAPSHOT_DEDUPE_WINDOW_MS + 1, 100.0)];
    assert!(should_suppress_duplicate(&recent, "account-1", same_amounts(&recent, 100.0, 100.0), now));
    assert!(!should_suppress_duplicate(&recent, "account-1", same_amounts(&recent, 100.0, 99.0), now));
}

#[test]
fn new_balance_is_recorded_once() {
    let now = at_local_date(0, 12);
    let records =
        record_snapshot(&[], "account-1", "n", double(10.0), double(-4.0), WbVariant::Ai, false, now).unwrap();
    assert_eq!(records.len(), 1);
    assert_eq!(number(records[0].get("remaining")), 0.0);
    assert_eq!(records[0].get_str("variant"), Some("ai"));
    assert!(record_snapshot(&records, "account-1", "n", double(10.0), double(0.0), WbVariant::Ai, true, now + 1)
        .is_none());
    assert!(load_snapshots(Some("{}")).is_empty());
}

#[test]
fn newest_events_come_first() {
    let now = at_local_date(0, 12);
    let stats = statistics(
        &[snap(now - 120_000, 100.0), snap(now - 60_000, 90.0), snap(now, 85.0)],
        &[],
        &[],
        now,
    );
    let times: Vec<i64> = events(&stats).iter().map(|e| e.get_i64("ts").unwrap()).collect();
    assert_eq!(times, vec![now, now - 60_000]);
    assert_eq!(number(events(&stats)[0].get("amount")), 5.0);
}

#[test]
fn an_unchanged_balance_is_kept_once_within_the_window() {
    let at = 1_800_000_000_000;
    let first =
        record_snapshot(&[], " a ", "A", Json::num(10), Json::num(4), WbVariant::Cn, false, at).expect("recorded");
    assert_eq!(first.len(), 1);
    let again = |records: &[Json], same: bool, at: i64| {
        record_snapshot(records, "a", "A", Json::num(10), Json::num(4), WbVariant::Cn, same, at)
    };
    assert!(again(&first, true, at).is_none());
    assert!(again(&first, true, at + CREDIT_SNAPSHOT_DEDUPE_WINDOW_MS).is_none());
    assert_eq!(again(&first, true, at + CREDIT_SNAPSHOT_DEDUPE_WINDOW_MS + 1).map(|r| r.len()), Some(2));
    assert_eq!(again(&first, false, at + 1).map(|r| r.len()), Some(2));
}

#[test]
fn the_order_of_the_records_does_not_matter() {
    let now = at_local_date(0, 12);
    let other = |ts: i64, remaining: f64| {
        snapshot_value(ts, "account-2", "two@example.com", double(50.0), double(remaining), WbVariant::Ai)
    };
    let records = vec![
        snap(now - 5_000, 90.0),
        other(now - 5_000, 40.0),
        snap(now - 4_000, 85.0),
        other(now - 4_000, 45.0),
        snap(now - 3_000, 70.0),
        other(now - 2_000, 30.0),
    ];
    let accounts = [j(r#"{"id": "account-2", "email": "two@example.com"}"#)];
    let told = statistics(&records, &[], &accounts, now);
    let mut turned = records;
    turned.reverse();
    turned.swap(0, 3);
    let again = statistics(&turned, &[], &accounts, now);
    for id in ["account-1", "account-2"] {
        assert!(row(&told, id).same_value(row(&again, id)), "{id}");
    }
    assert_eq!(told.get_i64("coverageStartAt"), Some(now - 5_000));
    assert_eq!(again.get_i64("coverageStartAt"), Some(now - 5_000));
    assert_eq!(number(row(&again, "account-1").get("usageToday")), 20.0);
    assert_eq!(number(row(&again, "account-2").get("usageToday")), 15.0);
    assert_eq!(number(row(&again, "account-2").get("currentRemaining")), 30.0);
}
