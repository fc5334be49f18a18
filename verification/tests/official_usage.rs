use chrono::{Datelike, Duration, Local, NaiveDate, TimeZone};
use wb_switch_core::clock::{found_time, local_day, zone_time, Wall, DAY_MS, EPOCH_DAY, FIRST_MS, LAST_MS};
use wb_switch_core::json::{from_text, Json, Op, Real};
use wb_switch_core::official_usage::{
    aggregate_models, cache_of, collect_official_usage, error_message, official_usage_for_statistics, order_models, order_report, page_records,
    parse_official_usage_cache, parse_page, report_in_cache, request_moment, request_value, sanitize_cached_payload,
    should_fetch_next_page, take_page, usage_request, AccountFetch, FetchStep, OfficialPage, RequestRow,
    OFFICIAL_USAGE_MAX_PAGES, OFFICIAL_USAGE_PAGE_SIZE,
};

fn j(text: &str) -> Json {
    from_text(text).expect("JSON")
}

fn double(x: f64) -> Json {
    Json::Real(Real { bits: x.to_bits(), whole: x as i64, finite: x.is_finite() })
}

fn float(v: &Json) -> f64 {
    match v {
        Json::Int(n) => *n as f64,
        Json::Real(r) => f64::from_bits(r.bits),
        Json::Calc(Op::Sum, list) => list.iter().map(float).fold(0.0, |a, b| a + b),
        Json::Calc(Op::Minus, list) => float(&list[0]) - float(&list[1]),
        Json::Calc(Op::AtLeastZero, list) => float(&list[0]).max(0.0),
        other => panic!("no number: {other:?}"),
    }
}

fn worked_out(v: Json) -> Json {
    match v {
        Json::Calc(op, list) => double(float(&Json::Calc(op, list))),
        Json::Arr(list) => Json::Arr(list.into_iter().map(worked_out).collect()),
        Json::Obj(members) => Json::Obj(members.into_iter().map(|(k, v)| (k, worked_out(v))).collect()),
        other => other,
    }
}

fn amount(v: &Json, key: &str) -> f64 {
    float(v.get(key).expect("a number"))
}

fn page(text: &str) -> Result<OfficialPage, String> {
    let resp = j(text);
    let moments: Vec<Option<(i64, i32)>> = match page_records(&resp) {
        Ok((_, records)) => records.iter().map(|r| request_moment(r, None)).collect(),
        Err(_) => vec![],
    };
    parse_page(&resp, &moments)
}

fn local_date(days_ago: i64, hour: u32) -> (NaiveDate, i64) {
    let date = Local::now().date_naive() - Duration::days(days_ago);
    let timestamp = Local
        .with_ymd_and_hms(date.year(), date.month(), date.day(), hour, 0, 0)
        .single()
        .expect("valid local test date")
        .timestamp_millis();
    (date, timestamp)
}

fn row(date: NaiveDate, ts: i64, credit: f64) -> RequestRow {
    RequestRow {
        request_id: "request-1".to_string(),
        credit: double(credit),
        model: "model-a".to_string(),
        client: "client-a".to_string(),
        request_time: format!("{date} 12:00:00"),
        request_ts: ts,
        day: date.num_days_from_ce(),
    }
}

#[test]
fn parses_success_page_and_does_not_copy_prompt_fields() {
    let page = page(
        r#"{
            "code": 0,
            "data": {
                "total": "1",
                "data": [{
                    "requestId": "req-1",
                    "credit": "1.25",
                    "model": "model-a",
                    "client": "cli",
                    "requestTime": "2026-08-24 12:34:56",
                    "input": "do not expose this prompt",
                    "inputTrunc": "also secret"
                }]
            }
        }"#,
    )
    .expect("valid official page");
    assert_eq!(page.total, 1);
    assert_eq!(page.raw_len, 1);
    assert_eq!(float(&page.rows[0].credit), 1.25);
    let output = request_value("account-1", "one@example.com", &page.rows[0]);
    let text = format!("{output:?}");
    assert!(!text.contains("do not expose"));
    assert!(!text.contains("inputTrunc"));
    assert_eq!(output.get_str("requestId"), Some("req-1"));
    assert!(output.get("credit").unwrap().same_value(&double(1.25)));
}

#[test]
fn the_credit_of_a_request_is_told_as_a_double() {
    let told = |credit: &str| {
        let text = format!(
            r#"{{"code": 0, "data": {{"total": 1, "data": [
                {{"requestId": "r", "credit": {credit}, "requestTime": "2026-08-24 12:00:00"}}
            ]}}}}"#
        );
        let page = page(&text).expect("a page");
        request_value("a", "n", &page.rows[0]).get("credit").expect("a credit").clone()
    };
    assert!(matches!(told("5"), Json::Calc(Op::Sum, _)));
    assert_eq!(float(&told("5")), 5.0);
    assert_eq!(float(&told("9007199254740993")), 9_007_199_254_740_992.0);
    assert!(told("-0.0").same_value(&double(-0.0)));
    assert!(told("\"2.5\"").same_value(&double(2.5)));
}

#[test]
fn malformed_rows_are_ignored_without_turning_into_zero_usage() {
    let page = page(
        r#"{
            "code": 200,
            "data": {
                "total": 3,
                "data": [
                    {"requestId": "valid", "credit": 2, "requestTime": "2026-08-24 12:00:00"},
                    {"requestId": "negative", "credit": -1, "requestTime": "2026-08-24 12:00:00"},
                    {"requestId": "bad-time", "credit": 4, "requestTime": "not-a-date"}
                ]
            }
        }"#,
    )
    .expect("page shape is valid");
    assert_eq!(page.raw_len, 3);
    assert_eq!(page.rows.len(), 1);
    assert_eq!(float(&page.rows[0].credit), 2.0);
}

#[test]
fn pagination_stops_on_empty_short_total_and_page_limit() {
    assert!(!should_fetch_next_page(1, 10, 0, 0));
    assert!(should_fetch_next_page(1, 10, 2, 2));
    assert!(!should_fetch_next_page(1, 2_000, 2_000, OFFICIAL_USAGE_PAGE_SIZE));
    assert!(should_fetch_next_page(1, 6_000, OFFICIAL_USAGE_PAGE_SIZE, OFFICIAL_USAGE_PAGE_SIZE));
    assert!(!should_fetch_next_page(
        OFFICIAL_USAGE_MAX_PAGES,
        usize::MAX,
        OFFICIAL_USAGE_PAGE_SIZE * OFFICIAL_USAGE_MAX_PAGES,
        OFFICIAL_USAGE_PAGE_SIZE,
    ));
}

#[test]
fn aggregation_uses_positive_credits_and_local_today_windows() {
    let (today, today_ts) = local_date(0, 12);
    let (yesterday, yesterday_ts) = local_date(1, 12);
    let (last_month, last_month_ts) = local_date(40, 12);
    let rows = vec![
        row(today, today_ts, 1.5),
        row(yesterday, yesterday_ts, 2.0),
        row(last_month, last_month_ts, 5.0),
    ];
    let fetch = AccountFetch { page_number: 1, rows, reported_total: 3, fetched_raw: 3 };
    let accounts = [j(r#"{"id":"account-1","email":"one@example.com"}"#)];
    let report =
        worked_out(collect_official_usage(&accounts, &[Ok(fetch)], today.num_days_from_ce(), today_ts));
    let summary = report.get("summary").unwrap();
    assert_eq!(amount(summary, "usageToday"), 1.5);
    assert_eq!(amount(summary, "usage7Days"), 3.5);
    let expected_month_usage =
        if yesterday.year() == today.year() && yesterday.month() == today.month() { 3.5 } else { 1.5 };
    assert_eq!(amount(summary, "usageThisMonth"), expected_month_usage);
    let on = |date: NaiveDate| {
        let name = date.to_string();
        let days = report.get_arr("daily").unwrap();
        amount(days.iter().find(|d| d.get_str("date") == Some(&name)).unwrap(), "usage")
    };
    assert_eq!(on(today), 1.5);
    assert_eq!(on(yesterday), 2.0);
}

#[test]
fn model_aggregation_sorts_by_credit_and_groups_requests() {
    let (today, today_ts) = local_date(0, 12);
    let mut first = row(today, today_ts, 1.0);
    first.model = "model-a".to_string();
    let mut second = row(today, today_ts + 1, 4.0);
    second.model = "model-b".to_string();
    let mut third = row(today, today_ts + 2, 2.0);
    third.model = "model-a".to_string();

    let models: Vec<Json> = aggregate_models(&[first, second, third]).into_iter().map(worked_out).collect();
    let models = order_models(&models);
    assert_eq!(models[0].get_str("model"), Some("model-b"));
    assert_eq!(models[0].get_i64("requestCount"), Some(1));
    assert_eq!(amount(&models[0], "credit"), 4.0);
    assert_eq!(models[1].get_str("model"), Some("model-a"));
    assert_eq!(models[1].get_i64("requestCount"), Some(2));
    assert_eq!(amount(&models[1], "credit"), 3.0);
}

#[test]
fn rejects_error_and_missing_data_shapes() {
    assert!(matches!(
        page(r#"{"code": 500, "msg": "bad"}"#),
        Err(error) if error == "官方请求失败（code=500）：bad"
    ));
    assert!(matches!(
        page(r#"{"code": 0, "data": {"total": 0}}"#),
        Err(error) if error == "官方响应格式无效"
    ));
    assert_eq!(
        error_message(&j(r#"{"code": -1, "message": "secret token"}"#)),
        "官方请求失败（网络或服务不可达）"
    );
}

const KEPT: &str = r#"{
    "status": "complete",
    "rangeStart": "2026-07-26",
    "rangeEnd": "2026-08-25",
    "collectedAt": 1,
    "summary": { "usageToday": 1.5, "usage7Days": 3.0, "usageThisMonth": 3.0 },
    "daily": [{ "date": "2026-08-25", "usage": 1.5, "models": [{ "model": "model-a", "requestCount": 1, "credit": 1.5 }] }],
    "models": [{ "model": "model-a", "requestCount": 1, "credit": 1.5 }],
    "accounts": [{
        "accountId": "account-1",
        "accountName": "one@example.com",
        "ok": true,
        "requestCount": 1,
        "detailTruncated": false,
        "usageToday": 1.5,
        "usage7Days": 1.5,
        "usageThisMonth": 1.5,
        "error": null,
        "reportedTotal": 1,
        "fetchedCount": 1,
        "models": [{ "model": "model-a", "requestCount": 1, "credit": 1.5 }],
        "daily": []
    }],
    "requests": [{
        "accountId": "account-1",
        "accountName": "one@example.com",
        "requestId": "req-1",
        "credit": 1.5,
        "model": "model-a",
        "client": "cli",
        "requestTime": "2026-08-25 12:00:00",
        "input": "do not persist this prompt"
    }],
    "detailLimitPerAccount": 100,
    "errors": [],
    "secret": "drop-me"
}"#;

#[test]
fn cache_round_trip_keeps_projection_and_strips_prompt_fields() {
    let kept = sanitize_cached_payload(&j(KEPT)).expect("a report");
    let loaded = report_in_cache(&cache_of(kept)).expect("valid cache");
    assert_eq!(loaded.get_str("status"), Some("complete"));
    assert_eq!(amount(loaded.get("summary").unwrap(), "usageToday"), 1.5);
    assert_eq!(loaded.get_arr("requests").unwrap()[0].get_str("requestId"), Some("req-1"));
    assert!(loaded.get("secret").is_none());
    let text = format!("{loaded:?}");
    assert!(!text.contains("do not persist"));
    assert!(!text.contains("drop-me"));
    let again = parse_official_usage_cache(&format!("{{\"payload\":{KEPT}}}")).expect("valid cache");
    assert!(again.same_value(&loaded));
}

#[test]
fn cache_parser_rejects_corrupt_and_unknown_status() {
    assert!(parse_official_usage_cache("not-json").is_none());
    assert!(parse_official_usage_cache("{}").is_none());
    assert!(parse_official_usage_cache(r#"{"payload":{"status":"nope"}}"#).is_none());
}

#[test]
fn a_record_is_read_once_page_by_page() {
    let (today, ts) = local_date(0, 12);
    let day = today.num_days_from_ce();
    let first = OfficialPage { total: 3, raw_len: 2, rows: vec![row(today, ts, 1.0), row(today, ts, 1.0)] };
    let read = match take_page(AccountFetch::new(), first, day - 30, day) {
        FetchStep::More(f) => f,
        _ => panic!("a page is left"),
    };
    assert_eq!(read.rows.len(), 1);
    assert_eq!(read.page_number, 2);
    let mut old = row(today - Duration::days(40), ts, 1.0);
    old.request_id = "request-2".to_string();
    let last = OfficialPage { total: 3, raw_len: 1, rows: vec![old] };
    match take_page(read, last, day - 30, day) {
        FetchStep::Done(f) => {
            assert_eq!(f.rows.len(), 1);
            assert_eq!(f.fetched_raw, 3);
        }
        _ => panic!("all is read"),
    }
    let body = usage_request(day - 30, day, 2);
    assert_eq!(body.get_i64("pageNum"), Some(2));
}

#[test]
fn a_report_says_which_accounts_could_not_be_read() {
    let (today, ts) = local_date(0, 12);
    let day = today.num_days_from_ce();
    let accounts = [j(r#"{"id":"a","email":"a@b.c"}"#), j(r#"{"id":"b","email":"b@b.c"}"#)];
    let results = [
        Ok(AccountFetch { page_number: 1, rows: vec![row(today, ts, 1.5)], reported_total: 1, fetched_raw: 1 }),
        Err("官方响应格式无效".to_string()),
    ];
    let report = order_report(&worked_out(collect_official_usage(&accounts, &results, day, ts)));
    assert_eq!(report.get_str("status"), Some("partial"));
    assert_eq!(report.get_arr("daily").unwrap().len(), 31);
    let rows = report.get_arr("accounts").unwrap();
    assert_eq!(rows.len(), 2);
    assert_eq!(rows[0].get_bool("ok"), Some(true));
    assert_eq!(rows[1].get_bool("ok"), Some(false));
    assert_eq!(rows[1].get_str("error"), Some("官方响应格式无效"));
    let none = collect_official_usage(&[], &[], day, ts);
    assert_eq!(none.get_arr("requests").unwrap().len(), 0);
}

#[test]
fn reading_stops_at_the_last_allowed_page() {
    let (today, ts) = local_date(0, 12);
    let day = today.num_days_from_ce();
    let at_the_end = AccountFetch { page_number: OFFICIAL_USAGE_MAX_PAGES, rows: vec![], reported_total: 0, fetched_raw: 0 };
    let page = OfficialPage { total: 3, raw_len: 1, rows: vec![row(today, ts, 1.0)] };
    match take_page(at_the_end, page, day - 30, day) {
        FetchStep::Failed(e) => assert_eq!(e, "官方用量分页超过安全上限"),
        _ => panic!("no page is left to ask for"),
    }
    let empty = OfficialPage { total: 3, raw_len: 0, rows: vec![] };
    match take_page(AccountFetch::new(), empty, day - 30, day) {
        FetchStep::Failed(e) => assert_eq!(e, "官方用量分页数据不完整"),
        _ => panic!("what is announced was not sent"),
    }
}

#[test]
fn statistics_show_what_is_at_hand_unless_asked_anew() {
    let spelled = format!("{{\"payload\":{KEPT}}}");
    let memory = j(r#"{"status":"partial"}"#);
    let shown = official_usage_for_statistics(false, Some(&memory), Some(&spelled)).expect("a report");
    assert!(shown.same_value(&memory));
    let shown = official_usage_for_statistics(false, None, Some(&spelled)).expect("a report");
    assert_eq!(shown.get_str("status"), Some("complete"));
    assert!(shown.get("secret").is_none());
    assert!(official_usage_for_statistics(false, None, Some("not-json")).is_none());
    assert!(official_usage_for_statistics(false, None, None).is_none());
    assert!(official_usage_for_statistics(true, Some(&memory), Some(&spelled)).is_none());
}

#[test]
fn a_local_time_falls_on_the_day_that_was_written() {
    let day = |y: i32, m: u32, d: u32| NaiveDate::from_ymd_opt(y, m, d).unwrap().num_days_from_ce();
    let moment = |time: &str| request_moment(&j(&format!(r#"{{"requestTime": "{time}"}}"#)), None);
    let second = moment("2026-09-21 23:59:59").expect("a moment");
    assert_eq!(second.1, day(2026, 9, 21));
    let leap = moment("2026-09-21 23:59:60").expect("a moment");
    assert_eq!(leap, (second.0 + 1_000, day(2026, 9, 21)));
    let part = moment("2026-09-21T23:59:60.25").expect("a moment");
    assert_eq!(part, (second.0 + 1_250, day(2026, 9, 21)));
    assert_eq!(moment("2026-09-22").expect("a moment").1, day(2026, 9, 22));
    assert_eq!(moment("2026-09-22 24:00:00"), None);
}

#[test]
fn what_a_time_zone_finds_becomes_an_instant() {
    let plain = Wall { ms: 5_000, leap: false };
    let leap = Wall { ms: 5_000, leap: true };
    assert_eq!(found_time(plain, Some((7_000, true)), true), Some(7_000));
    assert_eq!(found_time(plain, Some((7_000, false)), true), None);
    assert_eq!(found_time(plain, Some((7_000, false)), false), Some(7_000));
    assert_eq!(found_time(leap, Some((7_000, true)), true), Some(8_000));
    assert_eq!(found_time(leap, None, false), None);
    assert_eq!(zone_time(leap, 3_600), Some(5_000 - 3_600_000 + 1_000));
    assert_eq!(zone_time(plain, 86_400), None);
    assert_eq!(Wall { ms: -1, leap: false }.written_day(), EPOCH_DAY as i32 - 1);
}

#[test]
fn the_calendar_has_local_days_up_to_its_ends() {
    // In every time zone one of the two neighbours of an end has a local day.
    let offset = Local.timestamp_millis_opt(0).unwrap().offset().local_minus_utc();
    if offset <= 0 {
        assert!(local_day(LAST_MS).is_some());
    } else {
        assert!(local_day(FIRST_MS).is_some());
    }
    assert_eq!(local_day(LAST_MS + 1), None);
    assert_eq!(local_day(FIRST_MS - 1), None);
    assert!(local_day(LAST_MS - DAY_MS).is_some());
}
