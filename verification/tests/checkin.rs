use std::collections::HashSet;

use chrono::{Local, TimeZone};
use wb_switch_core::account::variant_of;
use wb_switch_core::checkin::{
    account_due, account_key, ask_next, finish_cycle, no_checkin_path, accounts_checked_in_today, all_accounts_checked_in_today, allows_auto_checkin,
    auto_checkin_accounts, auto_checkin_skip, busy_answer, checkin_account, checkin_after_status, checkin_all_rows,
    checkin_logs_with_variant, checkin_refusal, checkin_urls, cycle_row, cycle_summary, date_str,
    decide_from_status, due_accounts, get_checkin_status, is_already_result, is_error_result, is_inactive_message,
    is_unauthorized, latest_target_ms, log_days, logs_answered_window, next_cycle_delay, next_target_ms,
    perform_checkin, plan_next_delay, readings_around, record_cycle_health, retries_with_new_token, run_checkin_all,
    run_checkin_cycle, skips_refresh_before_retry, status_from_response, target_at, target_minute, target_ms_for_day,
    targets_around, targets_found,
    unsupported_status, window_minutes, write_window_receipt, AccountRunGuard, AskStep, CheckinCycleMode, CycleHealth,
    CycleStart, Found, Readings, RunningAccounts, StatusDecision, Targets, CHECKIN_RECOVERY_INTERVAL, FAST_RETRY_INTERVAL,
    FAST_RETRY_MAX, MIN_CYCLE_DELAY,
};
use wb_switch_core::clock::{local_day, LocalDays};
use wb_switch_core::config::CHECKIN_API_PREFIX;
use wb_switch_core::credits::{api_base_for, refuse_envelope};
use wb_switch_core::json::{from_text, Json};
use wb_switch_core::refresh::refresh_url;
use wb_switch_core::variant::WbVariant;

fn j(text: &str) -> Json {
    from_text(text).expect("JSON")
}

fn ids(accounts: &[Json]) -> Vec<&str> {
    accounts.iter().map(|a| a.get_str("id").unwrap()).collect()
}

const TEST_WINDOW: (u32, u32) = (22 * 60, 23 * 60 + 30);

fn local_ms(year: i32, month: u32, day: u32, hour: u32, minute: u32) -> i64 {
    Local
        .with_ymd_and_hms(year, month, day, hour, minute, 0)
        .single()
        .expect("test timestamp must be unambiguous")
        .timestamp_millis()
}

fn today_of(now: i64) -> String {
    Local.timestamp_millis_opt(now).single().unwrap().format("%Y-%m-%d").to_string()
}

fn targets(now: i64, acc: &Json, win: (u32, u32)) -> Targets {
    targets_around(&today_of(now), acc, win)
}

fn all_targets(now: i64, accounts: &[Json], win: (u32, u32)) -> Vec<Targets> {
    accounts.iter().map(|a| targets(now, a, win)).collect()
}

fn due(now: i64, acc: &Json, win: (u32, u32), logs: &[Json]) -> bool {
    account_due(now, acc, targets(now, acc, win), logs)
}

fn log_row(account_id: &str, result: &str, ts: i64) -> Json {
    j(&format!(r#"{{"accountId": "{account_id}", "email": "{account_id}", "result": "{result}", "ts": {ts}}}"#))
}

fn day_target_ms(day: &str, key: &str) -> i64 {
    target_at(day, target_minute(day, key, TEST_WINDOW.0, TEST_WINDOW.1)).expect("目标时刻必须可解析")
}

fn due_fixture() -> (Json, i64) {
    (j(r#"{"id": "due-a"}"#), day_target_ms("2026-09-21", "due-a"))
}

fn plan(had_errors: bool, budget: u32, now: i64, accounts: &[Json], win: Option<(u32, u32)>) -> (u64, u32) {
    match win {
        Some(w) => plan_next_delay(had_errors, budget, now, &all_targets(now, accounts, w), true),
        None => plan_next_delay(had_errors, budget, now, &[], false),
    }
}

fn today_date(ts: i64) -> String {
    let mut days = LocalDays::new();
    days.look_up(ts);
    date_str(Some(ts), &days, 1)
}

fn checked(accounts: &[Json], logs: &[Json], today: &str, cfg: &Json) -> bool {
    let this_day = local_day(wb_switch_core::config::now_ms()).unwrap();
    accounts_checked_in_today(accounts, logs, today, cfg, &log_days(logs), this_day)
}

#[test]
fn excluded_account_never_starts_passive_operation() {
    let account = j(r#"{"id": "excluded", "variant": "cn"}"#);
    let cfg = j(r#"{"excluded_account_ids": ["excluded"]}"#);
    let result = auto_checkin_skip(&account, &cfg).expect("nothing is done");
    assert_eq!(result.get_str("result"), Some("skipped"));
    assert_eq!(result.get_str("reason"), Some("auto_checkin_disabled"));
    assert_eq!(result.get_bool("ok"), Some(false));
    assert!(result.get("todayCheckedIn").is_none());
}

#[test]
fn reenabled_account_still_runs() {
    let account = j(r#"{"id": "excluded", "variant": "cn"}"#);
    for cfg in [j(r#"{"excluded_account_ids": []}"#), j("{}")] {
        assert!(auto_checkin_skip(&account, &cfg).is_none());
    }
}

#[test]
fn checkin_all_reports_skips_without_running_excluded_accounts() {
    let accounts = vec![j(r#"{"id": "a", "variant": "cn"}"#), j(r#"{"id": "c", "variant": "cn"}"#)];
    let cfg = j(r#"{"excluded_account_ids": ["a", "c", "unknown"]}"#);
    let results: Vec<Json> = accounts.iter().map(|a| auto_checkin_skip(a, &cfg).unwrap()).collect();
    let told = checkin_all_rows(&accounts, &results);
    let rows = told.get_arr("accounts").unwrap();
    assert_eq!(rows.len(), 2);
    for row in rows {
        assert_eq!(row.get_str("result"), Some("skipped"));
        assert_eq!(row.get_str("reason"), Some("auto_checkin_disabled"));
    }
    assert_eq!(rows[0].get_str("accountId"), Some("a"));
    assert_eq!(rows[1].get_str("accountId"), Some("c"));
}

#[test]
fn auto_checkin_excludes_only_matching_ids_and_preserves_legacy_accounts() {
    let accounts = vec![
        j(r#"{"id": "cn-excluded", "email": "shared@example.com"}"#),
        j(r#"{"id": "cn-allowed", "email": "shared@example.com"}"#),
        j(r#"{"id": "ai-account", "variant": "ai"}"#),
        j(r#"{"id": "legacy-account"}"#),
    ];
    let legacy = auto_checkin_accounts(&accounts, &j("{}"));
    assert_eq!(ids(&legacy), vec!["cn-excluded", "cn-allowed", "legacy-account"]);
    assert!(legacy[0].same_value(&accounts[0]));

    let cfg = j(r#"{"excluded_account_ids": ["cn-excluded", "deleted-account", "shared@example.com"]}"#);
    let eligible = auto_checkin_accounts(&accounts, &cfg);
    assert_eq!(ids(&eligible), vec!["cn-allowed", "legacy-account"]);
    assert!(variant_of(&accounts[0]).supports_checkin());
    assert!(!allows_auto_checkin(&accounts[0], &cfg));
    assert!(allows_auto_checkin(&accounts[0], &j(r#"{"excluded_account_ids": []}"#)));
}

#[test]
fn excluded_account_is_not_due_even_after_its_target_time() {
    let (account, target) = due_fixture();
    let cfg = j(r#"{"excluded_account_ids": ["due-a"]}"#);
    let accounts = auto_checkin_accounts(&[account], &cfg);
    assert!(due_accounts(&accounts, target, true, &all_targets(target, &accounts, TEST_WINDOW), &[]).is_empty());
    assert!(due_accounts(&accounts, target, false, &[], &[]).is_empty());
    assert_eq!(
        plan(false, FAST_RETRY_MAX, target - 60_000, &accounts, Some(TEST_WINDOW)),
        (CHECKIN_RECOVERY_INTERVAL, FAST_RETRY_MAX)
    );
}

#[test]
fn checked_in_status_returns_already_without_submission() {
    assert_eq!(decide_from_status(&j(r#"{"ok": true, "todayCheckedIn": true}"#)), StatusDecision::Already);
}

#[test]
fn failed_status_returns_error_without_submission() {
    assert_eq!(
        decide_from_status(&j(r#"{"ok": false, "error": "offline"}"#)),
        StatusDecision::Error("offline".to_string())
    );
}

#[test]
fn unchecked_status_submits() {
    assert_eq!(decide_from_status(&j(r#"{"ok": true, "todayCheckedIn": false}"#)), StatusDecision::Submit);
}

#[test]
fn status_unsupported_variant_submits_once() {
    assert_eq!(
        decide_from_status(&j(
            r#"{"ok": false, "statusUnsupported": true, "error": "该档位暂无签到状态接口"}"#
        )),
        StatusDecision::Submit
    );
    assert_eq!(
        decide_from_status(&j(r#"{"ok": false, "statusUnsupported": false, "error": "x"}"#)),
        StatusDecision::Error("x".to_string())
    );
}

#[test]
fn inactive_messages_are_recognized() {
    for message in [
        "功能未开启",
        "签到未开放",
        "活动已过期",
        "inactive",
        "Feature not enabled",
        "not available",
        "INACTIVE",
    ] {
        assert!(is_inactive_message(message), "{message}");
    }
    assert!(!is_inactive_message("签到成功"));
    assert!(!is_inactive_message("系统繁忙，请稍后重试"));
    assert!(!is_inactive_message(""));
}

#[test]
fn ai_inactive_response_skips_token_refresh_and_retry() {
    for resp in [
        j(r#"{"code": 10011, "message": "签到活动已过期"}"#),
        j(r#"{"code": 1, "msg": "签到未开放"}"#),
        j(r#"{"code": 1, "message": "Feature not enabled"}"#),
    ] {
        assert!(skips_refresh_before_retry(WbVariant::Ai, &resp), "国际版 inactive 响应必须先短路: {resp:?}");
        let msg = resp.get("message").or_else(|| resp.get("msg")).and_then(|v| v.as_str()).unwrap();
        assert!(is_inactive_message(msg), "{msg}");
    }

    let cn_resp = j(r#"{"code": 10011, "message": "签到活动已过期"}"#);
    assert!(!skips_refresh_before_retry(WbVariant::Cn, &cn_resp));
    assert!(is_unauthorized(&cn_resp));

    assert!(!skips_refresh_before_retry(WbVariant::Ai, &j(r#"{"code": 401, "message": "token 失效"}"#)));
    assert!(!skips_refresh_before_retry(WbVariant::Ai, &j(r#"{"code": 0, "message": "签到成功"}"#)));
}

#[test]
fn refused_token_is_renewed_where_it_can_be() {
    let acc = j(r#"{"refresh_token": "r"}"#);
    let refused = j(r#"{"code": 401}"#);
    assert!(retries_with_new_token(WbVariant::Cn, &acc, &refused));
    assert!(!retries_with_new_token(WbVariant::Cn, &j("{}"), &refused));
    assert!(!retries_with_new_token(WbVariant::Ai, &acc, &j(r#"{"code": 401, "message": "inactive"}"#)));
}

#[test]
fn ai_account_does_not_call_cn_status_endpoints() {
    let ai = j(r#"{"id": "ai-1", "uid": "u-1", "variant": "ai"}"#);
    let status = unsupported_status(&ai).expect("nothing is asked");
    assert_eq!(status.get_bool("ok"), Some(false));
    assert_eq!(status.get_bool("statusUnsupported"), Some(true));
    assert!(status.get("raw").is_none());
    assert!(status.get("todayCheckedIn").is_none());
    assert!(unsupported_status(&j(r#"{"id": "cn-1"}"#)).is_none());
}

#[test]
fn ai_account_checkin_is_skipped_without_requests() {
    let ai = j(r#"{"id": "ai-skip-checkin", "uid": "u-ai", "variant": "ai"}"#);
    let result = checkin_refusal(&ai, false).expect("nothing is asked");
    assert_eq!(result.get_str("result"), Some("skipped"));
    assert_eq!(result.get_str("reason"), Some("unsupported_variant"));
    assert!(result.get("error").is_none());
    assert!(result.get("inactive").is_none());
}

#[test]
fn busy_account_is_refused() {
    let acc = j(r#"{"id": "a"}"#);
    let result = checkin_refusal(&acc, true).unwrap();
    assert_eq!(result.get_str("result"), Some("error"));
    assert_eq!(result.get_str("error"), Some("该账号正在签到，请稍后再试"));
    assert!(checkin_refusal(&acc, false).is_none());
}

#[test]
fn status_from_response_matches_legacy_shape() {
    assert!(status_from_response(&j(r#"{"code": 500}"#)).is_none());
    let ok = status_from_response(&j(r#"{"code": 0, "data": {"today_checked_in": true, "extra": 1}}"#))
        .expect("成功响应应解析");
    assert_eq!(ok.get_bool("ok"), Some(true));
    assert_eq!(ok.get_bool("todayCheckedIn"), Some(true));
    assert_eq!(ok.get("raw").unwrap().get_i64("extra"), Some(1));

    let snake = status_from_response(&j(r#"{"code": 200, "data": {"todayCheckedIn": false}}"#))
        .expect("camelCase 也应解析");
    assert_eq!(snake.get_bool("todayCheckedIn"), Some(false));
}

#[test]
fn checkin_path_candidates_are_variant_specific() {
    assert_eq!(
        variant_of(&j(r#"{"variant": "ai"}"#)).billing_paths(&format!("{CHECKIN_API_PREFIX}/daily-checkin")),
        vec!["/billing/meter/daily-checkin", "/v2/billing/meter/daily-checkin"]
    );
    assert_eq!(
        variant_of(&j("{}")).billing_paths(&format!("{CHECKIN_API_PREFIX}/daily-checkin")),
        vec!["/v2/billing/meter/daily-checkin"]
    );
    assert_eq!(
        checkin_urls(&j("{}"), "/daily-checkin"),
        vec!["https://www.codebuddy.cn/v2/billing/meter/daily-checkin"]
    );
}

#[test]
fn same_account_cannot_acquire_two_operation_guards() {
    let account = j(r#"{"id": "checkin-guard-test-account"}"#);
    let mut running = RunningAccounts::new();
    let first = AccountRunGuard::try_acquire(&mut running, &account).expect("first operation acquires guard");
    assert!(AccountRunGuard::try_acquire(&mut running, &account).is_none());
    first.release(&mut running);
    assert!(AccountRunGuard::try_acquire(&mut running, &account).is_some());
    assert_eq!(account_key(&account), "checkin-guard-test-account");
}

#[test]
fn manual_all_reports_busy_when_cycle_is_running() {
    let result = busy_answer(true);
    assert!(result.get_arr("accounts").unwrap().is_empty());
    assert_eq!(result.get_str("status"), Some("skipped"));
    assert_eq!(result.get_str("reason"), Some("already_running"));
    assert!(busy_answer(false).get("accounts").is_none());
}

#[test]
fn is_unauthorized_detects_code() {
    assert!(is_unauthorized(&j(r#"{"code": 401}"#)));
    assert!(is_unauthorized(&j(r#"{"code": 403}"#)));
    assert!(!is_unauthorized(&j(r#"{"code": 0}"#)));
}

#[test]
fn checked_in_today_requires_every_account() {
    let accounts = vec![j(r#"{"id": "a"}"#), j(r#"{"id": "b"}"#)];
    let logs = vec![
        j(r#"{"accountId": "a", "result": "success", "ts": 1700000000000}"#),
        j(r#"{"accountId": "b", "result": "already", "ts": 1700000100000}"#),
    ];
    let today = today_date(1_700_000_000_000);
    assert!(checked(&accounts, &logs, &today, &j("{}")));
    assert!(all_accounts_checked_in_today(&accounts, &logs, &j("{}"), 1_700_000_000_000));
    assert!(!all_accounts_checked_in_today(&accounts, &logs, &j("{}"), 1_800_000_000_000));
}

#[test]
fn checked_in_today_false_when_one_failed_last() {
    let accounts = vec![j(r#"{"id": "a"}"#)];
    let logs = vec![
        j(r#"{"accountId": "a", "result": "success", "ts": 1700000000000}"#),
        j(r#"{"accountId": "a", "result": "error", "ts": 1700000200000}"#),
    ];
    let today = today_date(1_700_000_200_000);
    assert!(!checked(&accounts, &logs, &today, &j("{}")));
}

#[test]
fn checked_in_today_false_when_empty_or_missing() {
    assert!(!checked(&[], &[], "2026-08-19", &j("{}")));
    let accounts = vec![j(r#"{"id": "a"}"#)];
    assert!(!checked(&accounts, &[], "2026-08-19", &j("{}")));
}

#[test]
fn checked_in_today_ignores_variants_without_checkin() {
    let today = today_date(1_700_000_000_000);
    let logs = vec![j(r#"{"accountId": "cn-1", "result": "success", "ts": 1700000000000}"#)];

    let ai_only = vec![j(r#"{"id": "ai-1", "variant": "ai"}"#)];
    assert!(checked(&ai_only, &[], &today, &j("{}")));

    let mixed = vec![j(r#"{"id": "cn-1", "variant": "cn"}"#), j(r#"{"id": "ai-1", "variant": "ai"}"#)];
    assert!(checked(&mixed, &logs, &today, &j("{}")));

    let pending_cn = vec![j(r#"{"id": "cn-2", "variant": "cn"}"#), j(r#"{"id": "ai-1", "variant": "ai"}"#)];
    assert!(!checked(&pending_cn, &logs, &today, &j("{}")));
}

#[test]
fn checked_in_today_ignores_excluded_accounts() {
    let today = today_date(1_700_000_000_000);
    let logs = vec![j(r#"{"accountId": "cn-1", "result": "success", "ts": 1700000000000}"#)];
    let cfg = j(r#"{"excluded_account_ids": ["cn-1"]}"#);

    let excluded_only = vec![j(r#"{"id": "cn-1", "variant": "cn"}"#)];
    assert!(checked(&excluded_only, &[], &today, &cfg));

    let mixed_excluded = vec![j(r#"{"id": "cn-1", "variant": "cn"}"#), j(r#"{"id": "cn-2", "variant": "cn"}"#)];
    assert!(!checked(&mixed_excluded, &logs, &today, &cfg));
}

#[test]
fn logs_are_tagged_with_variant_and_legacy_rows_fall_back_to_cn() {
    let accounts = vec![j(r#"{"id": "cn-1"}"#), j(r#"{"id": "ai-1", "variant": "ai"}"#)];
    let logs = vec![
        j(r#"{"accountId": "ai-1", "result": "success", "variant": "ai"}"#),
        j(r#"{"accountId": "ai-1", "result": "success"}"#),
        j(r#"{"accountId": "cn-1", "result": "success"}"#),
        j(r#"{"accountId": "gone", "result": "success"}"#),
        j(r#"{"email": "legacy@example.com", "result": "success"}"#),
    ];
    let rows = checkin_logs_with_variant(&logs, &accounts);
    assert_eq!(rows.len(), logs.len());
    assert_eq!(rows[0].get_str("variant"), Some("ai"));
    assert_eq!(rows[1].get_str("variant"), Some("ai"));
    assert_eq!(rows[2].get_str("variant"), Some("cn"));
    assert_eq!(rows[3].get_str("variant"), Some("cn"));
    assert_eq!(rows[4].get_str("variant"), Some("cn"));
}

#[test]
fn target_minute_is_stable_inside_window_and_spread_across_accounts_and_days() {
    let (start, end) = TEST_WINDOW;
    let day = "2026-09-21";
    let anchor = target_minute(day, "acc-a", start, end);
    assert!((start..end).contains(&anchor), "抽签必须落在窗口内: {anchor}");
    assert_eq!(anchor, target_minute(day, "acc-a", start, end));
    assert_eq!(target_minute(day, "acc-a", 60, 61), 60);
    assert_eq!(target_minute(day, "acc-a", 1439, 1440), 1439);

    let accounts: HashSet<u32> = ["a", "b", "c", "d", "e", "f", "g", "h"]
        .iter()
        .map(|key| target_minute(day, key, start, end))
        .collect();
    assert!(accounts.len() > 1, "不同账号必须错峰: {accounts:?}");
    assert!(accounts.iter().all(|minute| (start..end).contains(minute)));

    let days: HashSet<u32> = ["2026-09-21", "2026-09-22", "2026-09-23", "2026-09-24"]
        .iter()
        .map(|day| target_minute(day, "acc-a", start, end))
        .collect();
    assert!(days.len() > 1, "不同日期必须重新抽签: {days:?}");
}

#[test]
fn window_minutes_requires_both_bounds_and_start_before_end() {
    for cfg in [
        j("{}"),
        j(r#"{"checkin_start": "", "checkin_end": ""}"#),
        j(r#"{"checkin_start": "22:00", "checkin_end": ""}"#),
        j(r#"{"checkin_start": "", "checkin_end": "23:30"}"#),
        j(r#"{"checkin_start": "22:00"}"#),
        j(r#"{"checkin_end": "23:30"}"#),
        j(r#"{"checkin_start": "22:00", "checkin_end": "25:00"}"#),
        j(r#"{"checkin_start": "22:00", "checkin_end": "abc"}"#),
        j(r#"{"checkin_start": 2200, "checkin_end": 2330}"#),
        j(r#"{"checkin_start": "23:30", "checkin_end": "22:00"}"#),
        j(r#"{"checkin_start": "22:00", "checkin_end": "22:00"}"#),
    ] {
        assert_eq!(window_minutes(&cfg), None, "必须按不限制处理: {cfg:?}");
    }

    assert_eq!(
        window_minutes(&j(r#"{"checkin_start": "22:00", "checkin_end": "23:30"}"#)),
        Some((22 * 60, 23 * 60 + 30))
    );
    assert_eq!(
        window_minutes(&j(r#"{"checkin_start": "9:5", "checkin_end": "10:00"}"#)),
        Some((9 * 60 + 5, 10 * 60))
    );
    assert_eq!(window_minutes(&j(r#"{"checkin_start": "0:0", "checkin_end": "1:0"}"#)), Some((0, 60)));
}

#[test]
fn target_boundaries_are_stable_across_restarts() {
    let (account, target) = due_fixture();
    let yesterday = day_target_ms("2026-09-20", "due-a");
    let tomorrow = day_target_ms("2026-09-22", "due-a");
    let around = |now: i64| targets(now, &account, TEST_WINDOW);

    assert_eq!(latest_target_ms(target - 1, around(target - 1)), Some(yesterday));
    assert_eq!(next_target_ms(target - 1, around(target - 1)), Some(target));
    assert_eq!(latest_target_ms(target + 1, around(target + 1)), Some(target));
    assert_eq!(next_target_ms(target + 1, around(target + 1)), Some(tomorrow));
    assert_eq!(latest_target_ms(target, around(target)), Some(target));
}

#[test]
fn account_due_waits_for_today_target_then_fires() {
    let (account, target) = due_fixture();
    let answered_yesterday =
        vec![log_row("due-a", "success", day_target_ms("2026-09-20", "due-a") + 60_000)];

    assert!(!due(target - 60_000, &account, TEST_WINDOW, &answered_yesterday), "到点前不得发请求");
    assert!(due(target + 60_000, &account, TEST_WINDOW, &answered_yesterday));

    let mut answered = answered_yesterday;
    answered.push(log_row("due-a", "success", target + 30_000));
    assert!(!due(target + 60_000, &account, TEST_WINDOW, &answered));
}

#[test]
fn missed_window_and_new_accounts_are_due_immediately() {
    let (account, target) = due_fixture();
    assert!(due(local_ms(2026, 9, 22, 8, 0), &account, TEST_WINDOW, &[]));
    assert!(due(local_ms(2026, 9, 22, 10, 0), &account, TEST_WINDOW, &[]));
    assert!(due(target + 60_000, &account, TEST_WINDOW, &[]));

    let answered_yesterday =
        vec![log_row("due-a", "success", day_target_ms("2026-09-20", "due-a") + 60_000)];
    assert!(due(local_ms(2026, 9, 22, 8, 0), &account, TEST_WINDOW, &answered_yesterday));
}

#[test]
fn manual_checkin_before_target_is_answered_by_window_receipt() {
    let (account, target) = due_fixture();
    let manual = vec![log_row("due-a", "success", local_ms(2026, 9, 21, 14, 0))];
    assert!(due(target + 60_000, &account, TEST_WINDOW, &manual));

    let mut with_receipt = manual;
    with_receipt.push(log_row("due-a", "already", target + 60_000));
    assert!(!due(target + 60_000, &account, TEST_WINDOW, &with_receipt));
    assert!(!due(local_ms(2026, 9, 22, 0, 30), &account, TEST_WINDOW, &with_receipt));

    assert!(due(target + 60_000, &account, TEST_WINDOW, &[log_row("due-a", "error", target + 60_000)]));
    assert!(due(target + 60_000, &account, TEST_WINDOW, &[log_row("other", "success", target + 60_000)]));
}

#[test]
fn receipt_answers_the_window_it_is_written_for() {
    let (account, target) = due_fixture();
    let now = target + 60_000;
    let around = targets(now, &account, TEST_WINDOW);
    let receipt = write_window_receipt(&account, &[], around, now).expect("nothing answered it yet");
    assert_eq!(receipt.get_str("result"), Some("already"));
    assert_eq!(receipt.get_i64("ts"), Some(now));
    let logs = vec![receipt];
    assert!(!account_due(now, &account, around, &logs));
    assert!(write_window_receipt(&account, &logs, around, now).is_none());
}

#[test]
fn window_receipt_predicate_matches_same_account_after_target_only() {
    let (account, target) = due_fixture();
    assert!(!logs_answered_window(&[], &account, target));
    assert!(
        !logs_answered_window(&[log_row("due-a", "success", target - 60_000)], &account, target),
        "目标之前的记录不算本窗口回应"
    );
    assert!(logs_answered_window(&[log_row("due-a", "already", target + 60_000)], &account, target));

    let legacy = j(r#"{"email": "legacy@example.com"}"#);
    let legacy_rows = vec![j(&format!(
        r#"{{"accountId": null, "email": "legacy@example.com", "result": "success", "ts": {}}}"#,
        target + 1
    ))];
    assert!(logs_answered_window(&legacy_rows, &legacy, target));
    assert!(!logs_answered_window(&legacy_rows, &j(r#"{"email": "other@example.com"}"#), target));

    let empty_id_account = j(r#"{"id": "", "email": "legacy@example.com"}"#);
    let empty_id_rows = vec![j(&format!(
        r#"{{"accountId": "", "email": "legacy@example.com", "result": "already", "ts": {}}}"#,
        target + 1
    ))];
    assert!(logs_answered_window(&empty_id_rows, &empty_id_account, target));
    assert!(logs_answered_window(&empty_id_rows, &legacy, target));
    assert!(!logs_answered_window(
        &empty_id_rows,
        &j(r#"{"id": "due-a", "email": "legacy@example.com"}"#),
        target
    ));
}

#[test]
fn unresolvable_target_is_treated_as_due() {
    assert_eq!(target_at("not-a-date", 0), None);
    assert_eq!(target_at("2026-09-21", 24 * 60), None);

    let win = (24 * 60, 24 * 60 + 1);
    let account = j(r#"{"id": "gap"}"#);
    let now = local_ms(2026, 9, 21, 12, 0);
    assert_eq!(latest_target_ms(now, targets(now, &account, win)), None);
    assert!(due(now, &account, win, &[]), "target_at 失败必须保守当作到点未办，避免漏天");
    assert_eq!(
        plan(false, FAST_RETRY_MAX, now, &[account], Some(win)),
        (CHECKIN_RECOVERY_INTERVAL, FAST_RETRY_MAX),
        "无未来目标时回落 30 分钟，不得退化成更短空转"
    );
}

#[test]
fn unset_or_invalid_window_never_filters_accounts() {
    let accounts = vec![j(r#"{"id": "due-a"}"#), j(r#"{"id": "due-b"}"#)];
    let (account, target) = due_fixture();
    let answered = vec![log_row("due-a", "success", target + 60_000)];
    let now = target + 120_000;

    for cfg in [
        j("{}"),
        j(r#"{"checkin_start": "", "checkin_end": ""}"#),
        j(r#"{"checkin_start": "22:00"}"#),
        j(r#"{"checkin_start": "23:30", "checkin_end": "22:00"}"#),
        j(r#"{"checkin_start": "22:00", "checkin_end": "25:00"}"#),
    ] {
        assert!(window_minutes(&cfg).is_none());
        assert_eq!(
            ids(&due_accounts(&accounts, now, false, &[], &answered)),
            vec!["due-a", "due-b"],
            "未设置窗口必须原样返回全部账号: {cfg:?}"
        );
    }

    let all = all_targets(now, &accounts, TEST_WINDOW);
    let due_now = due_accounts(&accounts, now, true, &all, &answered);
    assert_eq!(due_now.len(), 1);
    assert_eq!(due_now[0].get_str("id"), Some("due-b"));
    assert!(!due(now, &account, TEST_WINDOW, &answered));
}

#[test]
fn plan_next_delay_covers_window_and_retry_rules() {
    let (account, target) = due_fixture();
    let accounts = vec![account];

    assert_eq!(plan(true, 3, target, &accounts, None), (CHECKIN_RECOVERY_INTERVAL, 3));
    assert_eq!(plan(true, 3, target, &[], None), (CHECKIN_RECOVERY_INTERVAL, 3));

    assert_eq!(
        plan(true, FAST_RETRY_MAX, target, &accounts, Some(TEST_WINDOW)),
        (FAST_RETRY_INTERVAL, FAST_RETRY_MAX - 1)
    );
    assert_eq!(plan(true, 1, target, &accounts, Some(TEST_WINDOW)), (FAST_RETRY_INTERVAL, 0));

    assert_eq!(
        plan(true, 0, target + 60_000, &accounts, Some(TEST_WINDOW)),
        (CHECKIN_RECOVERY_INTERVAL, 0)
    );
    assert_eq!(
        plan(false, FAST_RETRY_MAX, target + 60_000, &accounts, Some(TEST_WINDOW)),
        (CHECKIN_RECOVERY_INTERVAL, FAST_RETRY_MAX)
    );
    assert_eq!(
        plan(false, FAST_RETRY_MAX, target - 30_000, &accounts, Some(TEST_WINDOW)),
        (MIN_CYCLE_DELAY, FAST_RETRY_MAX)
    );
    assert_eq!(
        plan(false, FAST_RETRY_MAX, target, &accounts, Some(TEST_WINDOW)),
        (CHECKIN_RECOVERY_INTERVAL, FAST_RETRY_MAX)
    );
    assert_eq!(
        plan(false, FAST_RETRY_MAX, target - 10 * 60_000, &accounts, Some(TEST_WINDOW)),
        (10 * 60 * 1000, FAST_RETRY_MAX)
    );
    assert_eq!(
        plan(false, FAST_RETRY_MAX, target, &[], Some(TEST_WINDOW)),
        (CHECKIN_RECOVERY_INTERVAL, FAST_RETRY_MAX)
    );
}

#[test]
fn cycle_health_resets_fast_retry_budget_only_when_clean() {
    let mut health = CycleHealth::default();
    record_cycle_health(&mut health, true);
    assert!(health.had_errors);
    assert_eq!(health.budget, FAST_RETRY_MAX);

    health.budget = 2;
    record_cycle_health(&mut health, true);
    assert_eq!(health.budget, 2, "有 error 的轮次不得重置预算");

    record_cycle_health(&mut health, false);
    assert!(!health.had_errors);
    assert_eq!(health.budget, FAST_RETRY_MAX);
}

#[test]
fn quick_tries_use_up_the_budget() {
    let mut health = CycleHealth { had_errors: true, budget: 1 };
    assert_eq!(next_cycle_delay(&mut health, 0, &[], true), FAST_RETRY_INTERVAL);
    assert_eq!(health.budget, 0);
    assert_eq!(next_cycle_delay(&mut health, 0, &[], true), CHECKIN_RECOVERY_INTERVAL);
}

#[test]
fn submission_is_logged() {
    let acc = j(r#"{"id": "a", "nickname": "n"}"#);
    let done = perform_checkin(WbVariant::Cn, &j(r#"{"code": 0, "data": {"points": 5}}"#));
    assert_eq!(done.get_bool("ok"), Some(true));
    let (result, log) = checkin_account(&acc, &done, 77);
    assert_eq!(result.get_str("result"), Some("success"));
    let log = log.expect("a success is logged");
    assert_eq!(log.get_i64("ts"), Some(77));
    assert_eq!(log.get_str("accountId"), Some("a"));
    assert_eq!(log.get_str("result"), Some("success"));

    let failed = perform_checkin(WbVariant::Cn, &j(r#"{"code": 9, "message": "busy"}"#));
    let (result, log) = checkin_account(&acc, &failed, 78);
    assert_eq!(result.get_str("result"), Some("error"));
    assert_eq!(log.unwrap().get_str("result"), Some("error"));

    let again = perform_checkin(WbVariant::Cn, &j(r#"{"code": 9, "message": "今日已签到"}"#));
    assert_eq!(again.get_bool("ok"), Some(true));
}

#[test]
fn status_is_asked_twice_at_most() {
    let acc = j(r#"{"id": "a"}"#);
    let bad = j(r#"{"code": 5, "message": "down"}"#);
    let good = j(r#"{"code": 0, "data": {"today_checked_in": true}}"#);
    assert_eq!(get_checkin_status(&acc, &good, &bad).get_bool("todayCheckedIn"), Some(true));
    assert_eq!(get_checkin_status(&acc, &bad, &good).get_bool("todayCheckedIn"), Some(true));
    let status = get_checkin_status(&acc, &bad, &bad);
    assert_eq!(status.get_bool("ok"), Some(false));
    assert_eq!(checkin_after_status(&status).unwrap().get_str("result"), Some("error"));
    assert_eq!(
        checkin_after_status(&get_checkin_status(&acc, &good, &bad)).unwrap().get_str("result"),
        Some("already")
    );
    assert!(checkin_after_status(&j(r#"{"ok": true, "todayCheckedIn": false}"#)).is_none());
}

#[test]
fn round_tells_of_every_account() {
    let acc = j(r#"{"id": "a", "nickname": "n"}"#);
    let result = j(r#"{"result": "already"}"#);
    assert!(is_already_result(&result) && !is_error_result(&result));
    let row = cycle_row(&acc, &result);
    assert_eq!(row.get_str("result"), Some("already"));
    let summary = cycle_summary(vec![row]);
    assert_eq!(summary.get_str("status"), Some("ok"));
    assert_eq!(summary.get_arr("accounts").unwrap().len(), 1);
}

#[test]
fn round_runs_only_where_it_is_switched_on() {
    let accounts = vec![j(r#"{"id": "a"}"#), j(r#"{"id": "b", "variant": "ai"}"#)];
    let off = run_checkin_cycle(
        CheckinCycleMode::StartupVerify,
        &j(r#"{"enabled": false}"#),
        &accounts,
        0,
        false,
        &[],
        &[],
    );
    assert!(matches!(off, CycleStart::Answer { .. }));
    match run_checkin_cycle(
        CheckinCycleMode::PeriodicRecovery,
        &j(r#"{"enabled": true}"#),
        &accounts[..1],
        0,
        false,
        &[],
        &[],
    ) {
        CycleStart::Run(due) => assert_eq!(ids(&due), vec!["a"]),
        CycleStart::Answer { .. } => panic!("must run"),
    }
    assert_eq!(ids(&run_checkin_all(&accounts, Some(WbVariant::Ai))).len(), 0);
    assert_eq!(ids(&run_checkin_all(&accounts, None)), vec!["a"]);
}

#[test]
fn checkin_envelope_credentials_short_circuit_before_request() {
    let account = j(
        r#"{
            "id": "envelope-only",
            "variant": "cn",
            "access_token": {"$wbEncrypted": true, "envelope": "…"},
            "refresh_token": {"$wbEncrypted": true, "envelope": "…"}
        }"#,
    );
    let resp = refuse_envelope(&account).expect("nothing is sent");
    assert_eq!(resp.get_i64("code"), Some(-2));
    let msg = resp.get_str("message").expect("message 应为字符串");
    assert!(msg.contains("信封"), "错误文案应可读：{msg}");
}

#[test]
fn a_check_in_request_passes_only_missing_paths() {
    let acc = j(r#"{"id": "a", "refresh_token": "r"}"#);
    let first = AskStep::Send { path: 0, renewed: false };
    let refused = j(r#"{"code": 401}"#);
    let missing = j(r#"{"code": 404}"#);
    let lost = j(r#"{"code": -1, "message": "timeout"}"#);
    let renewed = ask_next(WbVariant::Cn, &acc, 2, first, &refused);
    assert_eq!(renewed, AskStep::Send { path: 0, renewed: true });
    assert_eq!(ask_next(WbVariant::Cn, &acc, 2, renewed, &refused), AskStep::Answered);
    assert_eq!(ask_next(WbVariant::Cn, &acc, 2, first, &missing), AskStep::Send { path: 1, renewed: false });
    assert_eq!(
        ask_next(WbVariant::Cn, &acc, 2, AskStep::Send { path: 1, renewed: false }, &missing),
        AskStep::Answered
    );
    assert_eq!(ask_next(WbVariant::Cn, &acc, 2, first, &lost), AskStep::Answered);
    let over = j(r#"{"code": 10, "message": "活动已过期"}"#);
    assert_eq!(ask_next(WbVariant::Ai, &acc, 2, first, &over), AskStep::Answered);
    assert_eq!(ask_next(WbVariant::Cn, &acc, 2, first, &over), AskStep::Send { path: 0, renewed: true });
    assert_eq!(no_checkin_path().get_str("message"), Some("无可用签到路径"));
}

#[test]
fn a_round_tells_of_its_accounts_and_notes_errors() {
    let accounts = [j(r#"{"id": "a", "email": "a@x.y"}"#), j(r#"{"id": "b", "email": "b@x.y"}"#)];
    let results = [j(r#"{"result": "success"}"#), j(r#"{"result": "error", "error": "no"}"#)];
    let mut health = CycleHealth { had_errors: false, budget: 3 };
    let told = finish_cycle(&mut health, &accounts, &results);
    assert_eq!(told.get_str("status"), Some("ok"));
    let rows = told.get_arr("accounts").unwrap();
    assert_eq!(rows.len(), 2);
    assert_eq!(rows[1].get_str("email"), Some("b@x.y"));
    assert_eq!(rows[1].get_str("error"), Some("no"));
    assert_eq!(health, CycleHealth { had_errors: true, budget: 3 });
    finish_cycle(&mut health, &accounts, &results[..1]);
    assert_eq!(health, CycleHealth { had_errors: false, budget: FAST_RETRY_MAX });
}

#[test]
fn requests_of_an_edition_go_to_its_own_address() {
    let ai = j(r#"{"id": "a", "variant": "ai", "domain": "www.workbuddy.cn"}"#);
    assert!(checkin_urls(&ai, "/x").iter().all(|url| url.starts_with("https://www.workbuddy.ai/")));
    assert!(refresh_url(&ai).starts_with("https://www.workbuddy.ai/"));
    assert_eq!(api_base_for(&ai), "https://www.workbuddy.ai");
    let cn = j(r#"{"id": "c"}"#);
    assert!(checkin_urls(&cn, "/x").iter().all(|url| url.starts_with("https://www.codebuddy.cn/")));
    assert!(refresh_url(&cn).starts_with("https://www.codebuddy.cn/"));
}

#[test]
fn moments_are_the_first_instants_that_a_zone_finds() {
    let account = j(r#"{"id": "due-a"}"#);
    let readings = readings_around("2026-09-21", &account, (60, 61));
    // 2026-09-21 01:00 by a clock that shows Greenwich's time.
    let one: i64 = 1_789_952_400_000;
    let day: i64 = 86_400_000;
    assert_eq!(
        readings,
        Readings { before: Some(one - day), today: Some(one), after: Some(one + day) }
    );
    let nothing = Readings { before: None, today: None, after: None };
    assert_eq!(readings_around("not-a-date", &account, (60, 61)), nothing);

    let found = Found { before: Some((1, true)), today: Some((2, false)), after: None };
    assert_eq!(targets_found(readings, found), Targets { before: Some(1), today: Some(2), after: None });
    assert_eq!(targets_found(nothing, found), Targets { before: None, today: None, after: None });

    let around = targets_around("2026-09-21", &account, TEST_WINDOW);
    assert_eq!(around.before, target_ms_for_day("2026-09-20", &account, TEST_WINDOW));
    assert_eq!(around.today, target_ms_for_day("2026-09-21", &account, TEST_WINDOW));
    assert_eq!(around.after, target_ms_for_day("2026-09-22", &account, TEST_WINDOW));
    assert_eq!(around.today, Some(day_target_ms("2026-09-21", "due-a")));
}
