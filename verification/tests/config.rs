use chrono::{Local, TimeZone};
use wb_switch_core::config::{
    accounts_file, add_checkin_log, add_rotate_log, add_travel_log, auto_rotate_config_file, compact_checkin_logs,
    default_auto_rotate_config, default_checkin_config, default_travel_config, is_route_missing, iso_of,
    load_auto_rotate_config, load_checkin_config, load_list, load_travel_config, local_hhmm, merge_checkin_config,
    norm_ts, normalize_checkin_logs, now_ms, now_secs, parse_clock, parse_workbuddy_exe_cache_json,
    response_answer, save_auto_rotate_config, save_rotate_logs, save_travel_config, store_dir, transport_failure,
    utc_iso, workbuddy_exe_cache, RunFlagGuard, CHECKIN_LOG_KEEP_DAYS, CHECKIN_LOG_MAX_RECORDS,
    ROTATE_LOG_MAX_RECORDS,
};
use wb_switch_core::config::exe_of_cache;
use wb_switch_core::json::{from_text, Json};
use wb_switch_core::paths::{directory_of, is_same_place, join, join_on, parts_of};

fn j(text: &str) -> Json {
    from_text(text).expect("JSON")
}

fn local_timestamp_ms(year: i32, month: u32, day: u32, hour: u32) -> i64 {
    Local
        .with_ymd_and_hms(year, month, day, hour, 0, 0)
        .single()
        .expect("test timestamp must be unambiguous")
        .timestamp_millis()
}

fn same_lists(a: &[Json], b: &[Json]) -> bool {
    a.len() == b.len() && a.iter().zip(b).all(|(x, y)| x.same_value(y))
}

fn markers(logs: &[Json]) -> Vec<&str> {
    logs.iter().filter_map(|entry| entry.get_str("marker")).collect()
}

#[test]
fn auto_checkin_defaults_enabled_and_preserves_legacy_fields() {
    let cfg = default_checkin_config();
    assert_eq!(cfg.get_bool("enabled"), Some(true));
    assert_eq!(cfg.get_i64("start_hour"), Some(6));
    assert_eq!(cfg.get_i64("end_hour"), Some(12));
}

#[test]
fn auto_checkin_explicit_false_wins_and_invalid_value_uses_default() {
    let disabled = merge_checkin_config(&j(r#"{"enabled": false, "keepalive_days": 7}"#));
    assert_eq!(disabled.get_bool("enabled"), Some(false));
    assert_eq!(disabled.get_i64("keepalive_days"), Some(7));

    let corrupt = merge_checkin_config(&j(r#"{"enabled": "no", "lazy_refresh_hours": null}"#));
    assert_eq!(corrupt.get_bool("enabled"), Some(true));
    assert_eq!(corrupt.get_i64("lazy_refresh_hours"), Some(24));
}

#[test]
fn settings_fall_back_to_defaults() {
    assert!(load_checkin_config(None).same_value(&default_checkin_config()));
    assert!(load_checkin_config(Some("{")).same_value(&default_checkin_config()));
    assert_eq!(load_checkin_config(Some(r#"{"enabled": false, "other": 1}"#)).get_bool("enabled"), Some(false));
    assert!(load_checkin_config(Some(r#"{"other": 1}"#)).get("other").is_none());

    assert!(load_auto_rotate_config(None).same_value(&default_auto_rotate_config()));
    assert_eq!(load_auto_rotate_config(Some(r#"{"other": 1}"#)).get_i64("other"), Some(1));
    let saved = save_auto_rotate_config(&j(r#"{"enabled": true, "other": 1}"#));
    assert_eq!(saved.get_bool("enabled"), Some(true));
    assert!(saved.get("other").is_none());
    assert_eq!(saved.get_i64("cooldown_minutes"), Some(120));

    assert_eq!(default_travel_config().get_str("depart_time"), Some("08:00"));
    assert_eq!(load_travel_config(Some(r#"{"claim_time": "21:00"}"#)).get_str("claim_time"), Some("21:00"));
    assert!(save_travel_config(&j(r#"{"x": 1}"#)).same_value(&default_travel_config()));
}

#[test]
fn checkin_log_normalization_keeps_latest_already_per_identity_and_local_date() {
    let day = local_timestamp_ms(2026, 8, 20, 12);
    let logs = vec![
        j(&format!(r#"{{"accountId": "a", "email": "same", "result": "already", "ts": {}, "marker": "a-old"}}"#, day + 1)),
        j(&format!(r#"{{"accountId": "b", "email": "same", "result": "already", "ts": {}, "marker": "b"}}"#, day + 2)),
        j(&format!(r#"{{"accountId": "a", "email": "same", "result": "already", "ts": {}, "marker": "a-new"}}"#, day + 3)),
        j(&format!(r#"{{"email": "legacy@example.com", "result": "already", "ts": {}, "marker": "legacy-old"}}"#, day + 4)),
        j(&format!(r#"{{"email": "legacy@example.com", "result": "already", "ts": {}, "marker": "legacy-new"}}"#, day + 5)),
        j(&format!(r#"{{"result": "already", "ts": {}, "marker": "no-identity"}}"#, day + 6)),
    ];
    let normalized = normalize_checkin_logs(&logs, day + 10);
    assert_eq!(markers(&normalized), vec!["b", "a-new", "legacy-new", "no-identity"]);
}

#[test]
fn checkin_log_identity_namespaces_stable_ids_and_legacy_email_fallbacks() {
    let day = local_timestamp_ms(2026, 8, 20, 12);
    let logs = vec![
        j(&format!(r#"{{"accountId": "same@example.com", "email": "display", "result": "already", "ts": {}, "marker": "stable-old"}}"#, day + 1)),
        j(&format!(r#"{{"email": "same@example.com", "result": "already", "ts": {}, "marker": "legacy-old"}}"#, day + 2)),
        j(&format!(r#"{{"accountId": "same@example.com", "email": "display", "result": "already", "ts": {}, "marker": "stable-new"}}"#, day + 3)),
        j(&format!(r#"{{"email": "same@example.com", "result": "already", "ts": {}, "marker": "legacy-new"}}"#, day + 4)),
    ];
    let normalized = normalize_checkin_logs(&logs, day + 10);
    assert_eq!(markers(&normalized), vec!["stable-new", "legacy-new"]);
}

#[test]
fn checkin_log_normalization_keeps_already_for_separate_dates() {
    let first_day = local_timestamp_ms(2026, 8, 19, 12);
    let second_day = local_timestamp_ms(2026, 8, 20, 12);
    let logs = vec![
        j(&format!(r#"{{"accountId": "a", "result": "already", "ts": {first_day}}}"#)),
        j(&format!(r#"{{"accountId": "a", "result": "already", "ts": {second_day}}}"#)),
    ];
    assert_eq!(normalize_checkin_logs(&logs, second_day).len(), 2);
}

#[test]
fn checkin_log_normalization_preserves_success_and_error_multiplicity() {
    let day = local_timestamp_ms(2026, 8, 20, 12);
    let logs = vec![
        j(&format!(r#"{{"accountId": "a", "result": "success", "ts": {}}}"#, day + 1)),
        j(&format!(r#"{{"accountId": "a", "result": "success", "ts": {}}}"#, day + 2)),
        j(&format!(r#"{{"accountId": "a", "result": "error", "ts": {}}}"#, day + 3)),
        j(&format!(r#"{{"accountId": "a", "result": "error", "ts": {}}}"#, day + 4)),
    ];
    assert!(same_lists(&normalize_checkin_logs(&logs, day + 10), &logs));
}

#[test]
fn checkin_log_normalization_applies_retention_and_record_cap() {
    let now = local_timestamp_ms(2026, 8, 20, 12);
    let cutoff = now - CHECKIN_LOG_KEEP_DAYS * 24 * 3600 * 1000;
    let mut logs =
        vec![j(&format!(r#"{{"accountId": "old", "result": "success", "ts": {}, "marker": -1}}"#, cutoff - 1))];
    logs.extend(
        (0..505).map(|marker| {
            j(&format!(r#"{{"accountId": "a", "result": "success", "ts": {now}, "marker": {marker}}}"#))
        }),
    );

    let normalized = normalize_checkin_logs(&logs, now);
    assert_eq!(normalized.len(), CHECKIN_LOG_MAX_RECORDS);
    assert_eq!(normalized[0].get_i64("marker"), Some(5));
    assert_eq!(normalized.last().unwrap().get_i64("marker"), Some(504));
}

#[test]
fn checkin_log_normalization_deduplicates_before_taking_final_500() {
    let now = local_timestamp_ms(2026, 8, 20, 12);
    let mut logs = vec![
        j(&format!(r#"{{"accountId": "duplicate", "result": "already", "ts": {}, "marker": "duplicate-old"}}"#, now - 2)),
        j(&format!(r#"{{"accountId": "duplicate", "result": "already", "ts": {}, "marker": "duplicate-new"}}"#, now - 1)),
    ];
    logs.extend(
        (0..500).map(|marker| {
            j(&format!(r#"{{"accountId": "a", "result": "success", "ts": {now}, "marker": {marker}}}"#))
        }),
    );

    let normalized = normalize_checkin_logs(&logs, now);
    assert_eq!(normalized.len(), CHECKIN_LOG_MAX_RECORDS);
    assert_eq!(normalized[0].get_i64("marker"), Some(0));
    assert_eq!(normalized.last().unwrap().get_i64("marker"), Some(499));
    assert!(normalized.iter().all(|entry| entry.get_str("marker") != Some("duplicate-old")));
}

#[test]
fn checkin_log_normalization_is_idempotent() {
    let day = local_timestamp_ms(2026, 8, 20, 12);
    let logs = vec![
        j(&format!(r#"{{"accountId": "a", "result": "already", "ts": {}}}"#, day + 1)),
        j(&format!(r#"{{"accountId": "a", "result": "already", "ts": {}}}"#, day + 2)),
        j(&format!(r#"{{"accountId": "a", "result": "success", "ts": {}}}"#, day + 3)),
    ];
    let once = normalize_checkin_logs(&logs, day + 10);
    assert!(same_lists(&normalize_checkin_logs(&once, day + 10), &once));
}

#[test]
fn persisted_checkin_log_compaction_writes_only_when_changed() {
    let day = local_timestamp_ms(2026, 8, 20, 12);
    let text = |n: i64| format!(r#"{{"accountId": "a", "result": "already", "ts": {}}}"#, day + n);
    let both = format!("[{}, {}]", text(1), text(2));
    let compacted = compact_checkin_logs(Some(&both), day + 10).expect("one of the two goes");
    assert_eq!(compacted.len(), 1);
    assert_eq!(compacted[0].get_i64("ts"), Some(day + 2));
    assert!(compact_checkin_logs(Some(&format!("[{}]", text(2))), day + 10).is_none());
    assert!(compact_checkin_logs(None, day + 10).is_none());
    assert!(compact_checkin_logs(Some("not-json"), day + 10).is_none());
}

#[test]
fn parse_workbuddy_exe_cache_json_reads_exe() {
    let path = parse_workbuddy_exe_cache_json(
        r#"{ "exe": "D:\\Users\\Zhou\\AppData\\Local\\Programs\\WorkBuddy\\WorkBuddy.exe" }"#,
    )
    .expect("valid cache");
    assert_eq!(path, r"D:\Users\Zhou\AppData\Local\Programs\WorkBuddy\WorkBuddy.exe");
}

#[test]
fn parse_workbuddy_exe_cache_json_ignores_corrupt_and_empty() {
    assert!(parse_workbuddy_exe_cache_json("not-json").is_none());
    assert!(parse_workbuddy_exe_cache_json(r#"{ "exe": "  " }"#).is_none());
    assert!(parse_workbuddy_exe_cache_json("{}").is_none());
}

#[test]
fn remembered_program_is_read_back() {
    assert_eq!(exe_of_cache(&workbuddy_exe_cache("/x/WorkBuddy")), Some("/x/WorkBuddy".to_string()));
}

#[test]
fn times_are_brought_to_milliseconds() {
    assert_eq!(norm_ts(Some(&j("1700000000"))), Some(1_700_000_000_000));
    assert_eq!(norm_ts(Some(&j("1700000000000"))), Some(1_700_000_000_000));
    assert_eq!(norm_ts(Some(&j("1700000000.9"))), Some(1_700_000_000_000));
    assert_eq!(norm_ts(Some(&Json::text(" 1700000000.5 "))), Some(1_700_000_000_000));
    assert_eq!(norm_ts(Some(&Json::text("x"))), None);
    assert_eq!(norm_ts(Some(&Json::Null)), None);
    assert_eq!(norm_ts(None), None);
}

#[test]
fn lists_are_read_and_cut() {
    assert_eq!(load_list(Some("[1, 2]")).len(), 2);
    assert!(load_list(Some("{}")).is_empty());
    assert!(load_list(None).is_empty());
    let long: Vec<Json> = (0..ROTATE_LOG_MAX_RECORDS as i64).map(Json::num).collect();
    let longer = add_rotate_log(&long, &Json::num(-7));
    assert_eq!(longer.len(), ROTATE_LOG_MAX_RECORDS);
    assert_eq!(longer[0].as_i64(), Some(1));
    assert_eq!(longer[ROTATE_LOG_MAX_RECORDS - 1].as_i64(), Some(-7));
    assert_eq!(save_rotate_logs(&long).len(), ROTATE_LOG_MAX_RECORDS);
    assert_eq!(add_travel_log(&long, &Json::num(1)).len(), 200);
}

#[test]
fn logged_entry_stays() {
    let now = now_ms();
    let entry = j(&format!(r#"{{"accountId": "a", "result": "success", "ts": {now}}}"#));
    let logs = add_checkin_log(&[], &entry, now);
    assert!(same_lists(&logs, &[entry]));
}

#[test]
fn answers_are_read() {
    assert_eq!(response_answer(200, r#"{"code": 0}"#).get_i64("code"), Some(0));
    assert!(matches!(response_answer(200, "x"), Json::Null));
    let answer = response_answer(502, "bad gateway");
    assert_eq!(answer.get_i64("code"), Some(502));
    assert_eq!(answer.get_str("message"), Some("bad gateway"));
    assert_eq!(response_answer(404, &"x".repeat(600)).get_str("message").unwrap().len(), 500);
    assert_eq!(transport_failure("down").get_i64("code"), Some(-1));
    assert!(is_route_missing(&response_answer(404, "404 page not found")));
    assert!(!is_route_missing(&j(r#"{"code": 0}"#)));
}

#[test]
fn clock_texts_are_read() {
    assert_eq!(parse_clock("9:5"), Some(545));
    assert_eq!(parse_clock("24:00"), None);
    assert_eq!(parse_clock("12"), None);
}

#[test]
fn one_run_at_a_time() {
    let mut flag = false;
    let guard = RunFlagGuard::try_acquire(&mut flag).unwrap();
    assert!(RunFlagGuard::try_acquire(&mut flag).is_none());
    guard.release(&mut flag);
    assert!(RunFlagGuard::try_acquire(&mut flag).is_some());
}

#[test]
fn present_time_is_told() {
    assert!(now_ms() / 1000 - now_secs() <= 1);
    assert!(now_ms() > 1_700_000_000_000);
    let iso = utc_iso();
    assert_eq!(iso.len(), 20);
    assert!(iso.ends_with('Z') && iso.contains('T'));
    assert_eq!(iso_of("2026-01-02T03-04-05"), "2026-01-02T03-04-05Z");
    assert!(parse_clock(&local_hhmm()).is_some());
}

#[test]
fn files_lie_in_the_store() {
    assert_eq!(store_dir("/home/me"), "/home/me/.wb-switch");
    assert_eq!(accounts_file("/home/me"), "/home/me/.wb-switch/accounts.json");
    assert_eq!(auto_rotate_config_file("/home/me"), "/home/me/.wb-switch/auto_rotate_config.json");
}

#[test]
fn an_already_entry_goes_only_for_another_of_its_day() {
    let day = local_timestamp_ms(2026, 8, 20, 12);
    let logs = vec![
        j(&format!(r#"{{"accountId": "a", "result": "already", "ts": {}, "marker": "late"}}"#, day + 5)),
        j(&format!(r#"{{"accountId": "a", "result": "already", "ts": {}, "marker": "early"}}"#, day + 1)),
        j(&format!(r#"{{"accountId": "a", "result": "success", "ts": {}, "marker": "done"}}"#, day + 2)),
        j(&format!(r#"{{"accountId": "b", "result": "already", "ts": {}, "marker": "b"}}"#, day + 1)),
    ];
    assert_eq!(markers(&normalize_checkin_logs(&logs, day + 10)), vec!["late", "done", "b"]);
    assert!(normalize_checkin_logs(&logs, day + 31 * 24 * 3_600_000).is_empty());
}

#[test]
fn a_part_from_the_root_stands_alone() {
    assert_eq!(join("/home/u", "a.json"), "/home/u/a.json");
    assert_eq!(join("/home/u/", "a.json"), "/home/u/a.json");
    assert_eq!(join("", "a.json"), "a.json");
    assert_eq!(join("/home/u", "/etc/a.json"), "/etc/a.json");
}

#[test]
fn paths_are_compared_by_their_parts() {
    let parts = |path: &str, windows: bool| parts_of(&path.chars().collect::<Vec<char>>(), windows);
    assert_eq!(parts("/a//b/./c/", false), vec!["c", "b", "a"]);
    assert_eq!(parts("./a/..", false), vec!["..", "a", "."]);
    assert_eq!(parts("", false), Vec::<String>::new());
    assert_eq!(parts(r"C:\a/b", true), vec!["b", "a", "C:"]);
    assert_eq!(parts(r"a\b", false), vec![r"a\b"]);
    for (a, b) in [("/a/b", "/a//b/."), ("a/b/", "a/./b"), ("/", "//"), ("/.", "/")] {
        assert!(is_same_place(a, b, false), "{a} {b}");
        assert_eq!(std::path::Path::new(a), std::path::Path::new(b));
    }
    for (a, b) in [("/a", "a"), ("./a", "a"), ("a/../b", "b"), (r"a\b", "a/b"), ("", "."), ("a", "A")] {
        assert!(!is_same_place(a, b, false), "{a} {b}");
        assert_ne!(std::path::Path::new(a), std::path::Path::new(b));
    }
    assert!(is_same_place(r"C:\a\b", r"C:\a/b\", true));
    assert!(!is_same_place(r"C:\", "C:", true));
}

#[test]
fn windows_paths_are_joined_by_backslashes() {
    assert_eq!(join_on("/home/u", "a", false), "/home/u/a");
    assert_eq!(join_on(r"C:\u", "a", true), r"C:\u\a");
    assert_eq!(join_on("C:/u/", "a", true), "C:/u/a");
    assert_eq!(join_on("C:", "a", true), "C:a");
    assert_eq!(join_on(r"C:\u", r"\a", true), r"C:\a");
    assert_eq!(join_on(r"C:\u", r"D:\a", true), r"D:\a");
}

#[test]
fn a_directory_is_what_a_path_lies_in() {
    let directory = |path: &str, windows: bool| {
        directory_of(&path.chars().collect::<Vec<char>>(), windows).map(|d| d.iter().collect::<String>())
    };
    for path in ["/a/b", "/a//b/", "a", "/a", "/", "", "a/./b", "./a", "a/b/./", "/a/..", "//"] {
        let expected = std::path::Path::new(path).parent().map(|p| p.to_string_lossy().into_owned());
        assert_eq!(directory(path, false), expected, "{path}");
    }
    assert_eq!(directory(r"C:\Git\cmd\git.exe", true).as_deref(), Some(r"C:\Git\cmd"));
    assert_eq!(directory(r"C:\Git\cmd", true).as_deref(), Some(r"C:\Git"));
    assert_eq!(directory(r"C:\Git\\cmd", true).as_deref(), Some(r"C:\Git"));
    assert_eq!(directory(r"C:\git.exe", true).as_deref(), Some(r"C:\"));
    assert_eq!(directory(r"C:\", true), None);
    assert_eq!(directory("C:git.exe", true).as_deref(), Some("C:"));
}
