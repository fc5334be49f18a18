use std::collections::HashSet;

use chrono::{Local, TimeZone};
use wb_switch_core::account::variant_of;
use wb_switch_core::clock::local_day;
use wb_switch_core::config::{is_route_missing, now_ms, CHECKIN_API_PREFIX};
use wb_switch_core::credits::{
    api_base_for, credit_failure, credit_next, credit_result, cycle_end, deduction_end, free_package_codes, free_packages_body,
    get_credit_expiry, has_resource_accounts, has_resource_packages, is_success, is_transport_error, is_unauthorized,
    legacy_credit_result, legacy_resource_body, legacy_resource_body_at, merge_resources, needs_refresh_after,
    new_resources, no_path_answer, normalized_new_resources, observed, paid_package_codes, paid_packages_body,
    parse_timestamp_ms, post_next, refuse_envelope, request_origin, request_url, resolve_expire_at, resource_accounts, resource_auth_headers,
    resource_packages, resource_summary, response_error, retries_legacy, retries_with_new_token,
    uses_three_endpoint_query, CreditStep, PostStep, RESOURCE_SUMMARY_PATH, USER_RESOURCE_SUFFIX, WORKBUDDY_WEB_ENDPOINT,
};
use wb_switch_core::json::{from_text, Json, Op, Real};
use wb_switch_core::variant::{WbVariant, WORKBUDDY_API_ENDPOINT};

fn j(text: &str) -> Json {
    from_text(text).expect("JSON")
}

fn double(x: f64) -> Json {
    Json::Real(Real { bits: x.to_bits(), whole: x as i64, finite: x.is_finite() })
}

fn float(v: &Json) -> f64 {
    match v {
        Json::Int(n) => *n as f64,
        Json::Real(r) => f64::from_bits(r.bits),
        Json::Calc(Op::Sum, list) => list.iter().map(float).fold(0.0, |a, b| a + b),
        Json::Calc(Op::Minus, list) => float(&list[0]) - float(&list[1]),
        Json::Calc(Op::AtLeastZero, list) => float(&list[0]).max(0.0),
        other => panic!("no number: {other:?}"),
    }
}

fn worked_out(v: Json) -> Json {
    match v {
        Json::Calc(op, list) => double(float(&Json::Calc(op, list))),
        Json::Arr(list) => Json::Arr(list.into_iter().map(worked_out).collect()),
        Json::Obj(members) => Json::Obj(members.into_iter().map(|(k, v)| (k, worked_out(v))).collect()),
        other => other,
    }
}

fn end(v: Option<&Json>) -> Option<i64> {
    parse_timestamp_ms(v, None)
}

fn ends(raws: &[Json]) -> Vec<(Option<i64>, Option<i64>)> {
    raws.iter().map(|raw| (end(deduction_end(raw)), end(cycle_end(raw)))).collect()
}

fn package(text: &str, now: i64) -> Json {
    let raw = j(text);
    worked_out(resource_summary(&raw, end(deduction_end(&raw)), end(cycle_end(&raw)), now))
}

fn amount(v: &Json, key: &str) -> f64 {
    float(v.get(key).expect("an amount"))
}

fn normalized(summary: &str, paid: &str, free: &str) -> Option<Vec<Json>> {
    let (summary, paid, free) = (j(summary), j(paid), j(free));
    let (summaries, details) = match wb_switch_core::credits::new_resources(&summary, &paid, &free) {
        Some((s, d)) => (ends(&s), ends(&d)),
        None => (vec![], vec![]),
    };
    normalized_new_resources(&summary, &paid, &free, &summaries, &details, 1_800_000_000_000)
        .map(|list| list.into_iter().map(worked_out).collect())
}

const ENVELOPE: &str = r#"{
    "id": "envelope-only",
    "access_token": {"$wbEncrypted": true, "envelope": "…"},
    "refresh_token": {"$wbEncrypted": true, "envelope": "…"}
}"#;

#[test]
fn credits_envelope_credentials_short_circuit_before_request() {
    let resp = refuse_envelope(&j(ENVELOPE)).expect("nothing is sent");
    assert_eq!(resp.get_i64("code"), Some(-2));
    let msg = resp.get_str("message").expect("message 应为字符串");
    assert!(msg.contains("信封"), "错误文案应可读：{msg}");
    assert!(refuse_envelope(&j(r#"{"access_token": "t"}"#)).is_none());
}

#[test]
fn envelope_credentials_short_circuit_in_credit_query() {
    match get_credit_expiry(&j(ENVELOPE)) {
        Err(resp) => {
            assert_eq!(resp.get_bool("ok"), Some(false));
            assert_eq!(resp.get_str("accountId"), Some("envelope-only"));
            let msg = resp.get_str("error").expect("error 应为字符串");
            assert!(msg.contains("信封"), "错误文案应可读：{msg}");
        }
        _ => panic!("nothing may be asked"),
    }
    assert_eq!(get_credit_expiry(&j("{}")), Ok(CreditStep::Newer));
    assert_eq!(get_credit_expiry(&j(r#"{"variant": "ai"}"#)), Ok(CreditStep::Older { renewed: false }));
}

#[test]
fn parses_cockpit_resource_shape_and_marks_expiry() {
    let now = 1_800_000_000_000_i64;
    let resource = package(
        &format!(
            r#"{{"PackageCode": "TCACA_code_007_nzdH5h4Nl0", "PackageName": "活动赠送包",
                "CycleCapacitySizePrecise": "100.5", "CycleCapacityRemainPrecise": "75.25",
                "DeductionEndTime": {}, "Status": 0}}"#,
            now + 2 * 24 * 3600 * 1000
        ),
        now,
    );
    assert_eq!(resource.get_str("packageName"), Some("活动赠送包"));
    assert_eq!(amount(&resource, "total"), 100.5);
    assert_eq!(amount(&resource, "remaining"), 75.25);
    assert_eq!(amount(&resource, "used"), 25.25);
    assert_eq!(resource.get_bool("expiringSoon"), Some(true));
    assert_eq!(resource.get_bool("expired"), Some(false));
}

#[test]
fn parses_second_millisecond_and_datetime_timestamps() {
    assert_eq!(end(Some(&j("1800000000"))), Some(1_800_000_000_000));
    assert_eq!(end(Some(&j("1800000000000"))), Some(1_800_000_000_000));
    assert!(end(Some(&Json::text("2099-01-02 03:04:05"))).is_some());
    assert_eq!(end(Some(&Json::text("?"))), None);
    assert_eq!(
        end(Some(&Json::text("2099-01-02T03:04:05Z"))),
        Some(chrono::Utc.with_ymd_and_hms(2099, 1, 2, 3, 4, 5).unwrap().timestamp_millis())
    );
    assert_eq!(parse_timestamp_ms(Some(&j("1.5")), Some(1500)), Some(1500));
}

#[test]
fn extracts_nested_accounts() {
    let response = j(r#"{"code": 0, "data": {"Response": {"Data": {"Accounts": [{"PackageName": "基础包"}]}}}}"#);
    let accounts = resource_accounts(&response);
    assert_eq!(accounts.len(), 1);
    assert_eq!(accounts[0].get_str("PackageName"), Some("基础包"));
}

#[test]
fn extracts_new_top_level_accounts_and_packages() {
    let response = j(
        r#"{"code": 0, "data": {"Accounts": [{"PackageCode": "paid"}], "Packages": [{"PackageCode": "summary"}]}}"#,
    );
    assert_eq!(resource_accounts(&response).len(), 1);
    assert_eq!(resource_accounts(&response)[0].get_str("PackageCode"), Some("paid"));
    assert_eq!(resource_packages(&response).len(), 1);
    assert_eq!(resource_packages(&response)[0].get_str("PackageCode"), Some("summary"));
    assert!(has_resource_accounts(&response));
    assert!(has_resource_packages(&response));
}

#[test]
fn parses_summary_capacity_fields_and_explicit_used_value() {
    let resource = package(
        r#"{"PackageCode": "summary", "CycleTotalCapacity": "4485", "CycleUsedCapacity": "2156.70999737",
            "CycleRemainCapacity": "2328.29000263", "CapacityUnit": "credits"}"#,
        1_800_000_000_000,
    );
    assert_eq!(amount(&resource, "total"), 4485.0);
    assert_eq!(amount(&resource, "used"), 2156.70999737);
    assert_eq!(amount(&resource, "remaining"), 2328.29000263);
    assert!(matches!(resource.get("expireAt"), Some(Json::Null)));
}

#[test]
fn keeps_detail_batches_and_only_fills_missing_summary_packages() {
    let now = 1_800_000_000_000;
    let summary = vec![
        package(r#"{"PackageCode": "activity", "CycleTotalCapacity": 100, "CycleRemainCapacity": 80}"#, now),
        package(r#"{"PackageCode": "free", "CycleTotalCapacity": 500, "CycleRemainCapacity": 300}"#, now),
    ];
    let details = vec![
        package(
            r#"{"PackageCode": "activity", "CycleCapacitySizePrecise": "60", "CycleCapacityRemainPrecise": "40",
                "DeductionEndTime": 1800000100000}"#,
            now,
        ),
        package(
            r#"{"PackageCode": "activity", "CycleCapacitySizePrecise": "40", "CycleCapacityRemainPrecise": "40",
                "DeductionEndTime": 1800000200000}"#,
            now,
        ),
    ];
    let merged = merge_resources(summary, details);
    assert_eq!(merged.len(), 3);
    assert_eq!(amount(&merged[0], "remaining"), 40.0);
    assert_eq!(amount(&merged[1], "remaining"), 40.0);
    assert_eq!(merged[2].get_str("packageCode"), Some("free"));
    assert_eq!(amount(&merged[2], "remaining"), 300.0);
}

#[test]
fn accepts_empty_detail_accounts_as_a_valid_success() {
    let response = j(r#"{"code": 0, "data": {"Accounts": []}}"#);
    assert!(is_success(&response));
    assert!(has_resource_accounts(&response));
    assert!(resource_accounts(&response).is_empty());
}

#[test]
fn partial_new_success_returns_available_resources() {
    let resources = normalized(
        r#"{"code": 500, "message": "summary failed"}"#,
        r#"{"code": 0, "data": {"Accounts": []}}"#,
        r#"{"code": 0, "data": {"data": {"Accounts": [{"PackageCode": "free",
            "CycleCapacitySizePrecise": "100", "CycleCapacityRemainPrecise": "75"}]}}}"#,
    )
    .expect("合法空 paid 和可用 free 明细应视为部分成功");
    assert_eq!(resources.len(), 1);
    assert_eq!(resources[0].get_str("packageCode"), Some("free"));
    assert_eq!(amount(&resources[0], "remaining"), 75.0);
}

#[test]
fn valid_empty_new_arrays_do_not_trigger_legacy_fallback() {
    let resources = normalized(
        r#"{"code": 0, "data": {"Packages": []}}"#,
        r#"{"code": 0, "data": {"Accounts": []}}"#,
        r#"{"code": 0, "data": {"Accounts": []}}"#,
    );
    assert_eq!(resources.map(|list| list.len()), Some(0));
}

#[test]
fn all_invalid_new_responses_require_legacy_fallback() {
    let resources = normalized(
        r#"{"code": 500, "message": "summary failed"}"#,
        r#"{"code": 500, "message": "paid failed"}"#,
        r#"{"code": 0, "data": {}}"#,
    );
    assert!(resources.is_none());
}

fn lists(body: &Json, code: &str) -> bool {
    body.get_arr("PackageCodes").is_some_and(|codes| codes.iter().any(|c| c.as_str() == Some(code)))
}

#[test]
fn new_request_bodies_match_workbuddy_filters() {
    let paid = paid_packages_body();
    assert_eq!(paid.get_i64("PageNumber"), Some(1));
    assert_eq!(paid.get_i64("PageSize"), Some(200));
    assert!(paid.get("Status").unwrap().same_value(&j("[0, 3]")));
    assert_eq!(paid.get_bool("NeedRenewInfo"), Some(true));
    assert!(lists(&paid, "TCACA_code_038_OhvqZtiPKr"));

    let free = free_packages_body(local_day(now_ms()).unwrap());
    assert_eq!(free.get_i64("PageNumber"), Some(1));
    assert_eq!(free.get_i64("PageSize"), Some(200));
    assert!(free.get("Status").unwrap().same_value(&j("[0, 3]")));
    let today = Local::now().format("%Y-%m-%d").to_string();
    assert_eq!(free.get_str("SlicePeriodStartTime"), Some(format!("{today} 00:00:00").as_str()));
    assert_eq!(free.get_str("SlicePeriodEndTime"), Some(format!("{today} 23:59:59").as_str()));
    assert!(lists(&free, "TCACA_code_007_nzdH5h4Nl0"));
    assert!(paid.get("NeedInUsage").is_none());
    assert!(free.get("NeedInUsage").is_none());
}

#[test]
fn older_request_names_a_span() {
    let body = legacy_resource_body("a", "b");
    assert_eq!(body.get_str("PackageEndTimeRangeBegin"), Some("a"));
    assert_eq!(body.get_str("PackageEndTimeRangeEnd"), Some("b"));
    let at = Local.with_ymd_and_hms(2026, 9, 21, 10, 11, 12).unwrap().timestamp_millis();
    let body = legacy_resource_body_at(at).unwrap();
    assert_eq!(body.get_str("PackageEndTimeRangeBegin"), Some("2026-09-21 10:11:12"));
    assert!(legacy_resource_body_at(i64::MAX).is_none());
}

#[test]
fn selects_endpoint_from_known_account_domain_and_keeps_headers_aligned() {
    let codebuddy = j(r#"{"domain": "www.codebuddy.cn", "access_token": "redacted", "uid": "u1"}"#);
    let workbuddy = j(r#"{"domain": "www.workbuddy.cn", "access_token": "redacted", "uid": "u2"}"#);
    let unknown = j(r#"{"domain": "attacker.example", "access_token": "redacted"}"#);
    let ai = j(r#"{"domain": "www.workbuddy.ai", "variant": "ai", "access_token": "redacted", "uid": "u3"}"#);

    assert_eq!(
        request_url(&codebuddy, RESOURCE_SUMMARY_PATH),
        "https://www.codebuddy.cn/billing/meter/get-user-resource-summary"
    );
    assert_eq!(
        request_url(&workbuddy, RESOURCE_SUMMARY_PATH),
        "https://www.workbuddy.cn/billing/meter/get-user-resource-summary"
    );
    assert_eq!(
        request_url(&unknown, RESOURCE_SUMMARY_PATH),
        "https://www.codebuddy.cn/billing/meter/get-user-resource-summary"
    );
    assert_eq!(api_base_for(&ai), WbVariant::Ai.api_endpoint());
    assert_eq!(
        request_url(&ai, RESOURCE_SUMMARY_PATH),
        format!("{}/billing/meter/get-user-resource-summary", WbVariant::Ai.api_endpoint())
    );

    let headers = resource_auth_headers(&codebuddy, api_base_for(&codebuddy));
    assert_eq!(headers.get("X-Client-Platform"), Some("web"));
    assert_eq!(headers.get("Accept"), Some("application/json, text/plain, */*"));
    assert_eq!(headers.get("Authorization"), Some("Bearer redacted"));
    assert_eq!(headers.get("X-User-Id"), Some("u1"));
    assert_eq!(headers.get("X-Domain"), Some("www.codebuddy.cn"));
    assert_eq!(headers.get("Origin"), Some("https://www.codebuddy.cn"));
    assert_eq!(headers.get("Referer"), Some("https://www.codebuddy.cn/profile/plans-usage"));

    let ai_headers = resource_auth_headers(&ai, api_base_for(&ai));
    assert_eq!(ai_headers.get("Origin"), Some(WbVariant::Ai.api_endpoint()));
    assert_eq!(
        ai_headers.get("Referer"),
        Some(format!("{}/profile/plans-usage", WbVariant::Ai.api_endpoint()).as_str())
    );
    assert_eq!(ai_headers.get("X-Domain"), Some("www.workbuddy.ai"));

    let workbuddy_headers = resource_auth_headers(&workbuddy, api_base_for(&workbuddy));
    assert_eq!(workbuddy_headers.get("Origin"), Some("https://www.workbuddy.cn"));
    assert_eq!(workbuddy_headers.get("Referer"), Some("https://www.workbuddy.cn/profile/plans-usage"));
    assert_eq!(workbuddy_headers.get("X-Domain"), Some("www.workbuddy.cn"));

    let unknown_headers = resource_auth_headers(&unknown, api_base_for(&unknown));
    assert_eq!(unknown_headers.get("Origin"), Some("https://www.codebuddy.cn"));
    assert_eq!(unknown_headers.get("Referer"), Some("https://www.codebuddy.cn/profile/plans-usage"));

    let usage_url = "https://www.workbuddy.cn/billing/meter/get-user-request-usage";
    assert_eq!(request_origin(usage_url), WORKBUDDY_WEB_ENDPOINT);
    let usage_headers = resource_auth_headers(&codebuddy, request_origin(usage_url));
    assert_eq!(usage_headers.get("Origin"), Some("https://www.workbuddy.cn"));
    assert_eq!(usage_headers.get("X-Domain"), Some("www.codebuddy.cn"));
    assert_eq!(
        request_origin("https://www.codebuddy.cn/v2/billing/meter/get-user-resource"),
        WORKBUDDY_API_ENDPOINT
    );
}

#[test]
fn request_origin_covers_ai_domain_and_keeps_fallback() {
    assert_eq!(
        request_origin(&format!("{}/billing/meter/daily-checkin", WbVariant::Ai.api_endpoint())),
        WbVariant::Ai.api_endpoint()
    );
    assert_eq!(request_origin("https://www.workbuddy.cn/x"), WORKBUDDY_WEB_ENDPOINT);
    assert_eq!(request_origin("https://www.codebuddy.cn/x"), WORKBUDDY_API_ENDPOINT);
    assert_eq!(request_origin("attacker://x"), WORKBUDDY_API_ENDPOINT);
    assert_eq!(request_origin("https://www.workbuddy.ai.evil.com/x"), WORKBUDDY_API_ENDPOINT);
}

#[test]
fn billing_path_candidates_by_variant() {
    let ai = j(r#"{"variant": "ai", "access_token": "t"}"#);
    let cn = j(r#"{"access_token": "t"}"#);

    assert_eq!(
        variant_of(&ai).billing_paths(RESOURCE_SUMMARY_PATH),
        vec!["/billing/meter/get-user-resource-summary", "/v2/billing/meter/get-user-resource-summary"]
    );
    assert_eq!(
        variant_of(&cn).billing_paths(RESOURCE_SUMMARY_PATH),
        vec!["/billing/meter/get-user-resource-summary"]
    );

    let legacy = format!("{CHECKIN_API_PREFIX}{USER_RESOURCE_SUFFIX}");
    assert_eq!(
        variant_of(&ai).billing_paths(&legacy),
        vec!["/billing/meter/get-user-resource", "/v2/billing/meter/get-user-resource"]
    );
    assert_eq!(variant_of(&cn).billing_paths(&legacy), vec!["/v2/billing/meter/get-user-resource"]);
}

#[test]
fn only_route_missing_allows_fallback() {
    let refused = j(r#"{"code": 10085, "msg": "请求不合法，如有疑问请联系客服"}"#);
    assert!(is_route_missing(&j(r#"{"code": 404}"#)));
    assert!(!is_route_missing(&j(r#"{"code": 401, "message": "unauthorized"}"#)));
    assert!(!is_route_missing(&refused));
    assert!(!is_route_missing(&j(r#"{"code": -1, "message": "error sending request"}"#)));
    assert!(!is_route_missing(&j(r#"{"code": 0, "data": {"Accounts": []}}"#)));

    assert!(!is_unauthorized(&refused));
    assert!(!is_unauthorized(&j(r#"{"code": 404, "message": "not found"}"#)));
}

#[test]
fn transport_error_is_code_minus_one_with_message() {
    assert!(is_transport_error(&j(
        r#"{"code": -1, "message": "error sending request for url (https://www.workbuddy.cn/billing/meter/get-user-resource-summary)"}"#
    )));
    assert!(!is_transport_error(&j(r#"{"code": -1, "message": ""}"#)));
    assert!(!is_transport_error(&j(r#"{"code": -1, "message": "   "}"#)));
    assert!(!is_transport_error(&j(r#"{"code": -1}"#)));
    assert!(!is_transport_error(&j(r#"{"code": 10085, "msg": "请求不合法，如有疑问请联系客服"}"#)));
    assert!(!is_transport_error(&j(r#"{"code": 401, "message": "unauthorized"}"#)));
    assert!(!is_transport_error(&j(r#"{"code": 0, "data": {}}"#)));
    assert!(!is_unauthorized(&j(r#"{"code": 10085, "msg": "请求不合法，如有疑问请联系客服"}"#)));
}

#[test]
fn accepts_object_response_without_code() {
    assert!(is_success(&j(r#"{"data": {"Response": {"Data": {}}}}"#)));
    assert!(is_success(&j(r#"{"data": {"Response": {"Data": {"Accounts": []}}}}"#)));
    assert!(is_success(&j(r#"{"code": "0", "data": {}}"#)));
    assert!(!is_success(&j(r#"{"message": "failed"}"#)));
    assert!(!is_success(&j(r#"{"data": {}, "ok": false}"#)));
    assert!(!is_success(&Json::Null));
    assert!(!is_success(&j(r#"{"code": 500, "message": "failed"}"#)));
}

#[test]
fn sums_only_resources_that_are_expiring_soon() {
    let now = 1_800_000_000_000_i64;
    let batch = |remaining: i64, days: i64| {
        package(
            &format!(
                r#"{{"CycleCapacityRemainPrecise": {remaining}, "DeductionEndTime": {}}}"#,
                now + days * 24 * 3600 * 1000
            ),
            now,
        )
    };
    let resources = vec![batch(80, 2), batch(20, 20)];
    let expiring: f64 = resources
        .iter()
        .filter(|resource| resource.get_bool("expiringSoon") == Some(true))
        .map(|resource| amount(resource, "remaining"))
        .sum();
    assert_eq!(expiring, 80.0);

    let acc = j(r#"{"id": "a", "nickname": "n"}"#);
    let told = worked_out(credit_result(&acc, resources, now));
    assert_eq!(told.get_bool("ok"), Some(true));
    assert_eq!(amount(&told, "totalRemaining"), 100.0);
    assert_eq!(amount(&told, "expiringSoonRemaining"), 80.0);
}

#[test]
fn prefers_cycle_end_when_deduction_end_is_a_far_placeholder() {
    let now = 1_800_000_000_000_i64;
    let cycle = now + 14 * 24 * 3600 * 1000;
    let resource = package(
        &format!(
            r#"{{"PackageCode": "TCACA_code_035_ArVxJcGDsm", "CycleTotalCapacity": 100,
                "CycleRemainCapacity": 80, "DeductionEndTime": 2049792688000, "CycleEndTime": {cycle}}}"#
        ),
        now,
    );
    assert_eq!(resource.get_i64("expireAt"), Some(cycle));
    assert_eq!(resource.get_bool("expired"), Some(false));
    assert_eq!(resource.get_bool("expiringSoon"), Some(false));
}

#[test]
fn uses_deduction_end_when_only_real_expiry_is_present() {
    let now = 1_800_000_000_000_i64;
    let deduction = now + 14 * 24 * 3600 * 1000;
    let resource = package(
        &format!(
            r#"{{"PackageCode": "TCACA_code_006_DbXS0lrypC", "CycleTotalCapacity": 250,
                "CycleRemainCapacity": 250, "DeductionEndTime": {deduction}}}"#
        ),
        now,
    );
    assert_eq!(resource.get_i64("expireAt"), Some(deduction));
}

#[test]
fn keeps_subscription_deduction_end_when_cycle_is_within_override_window() {
    let now = 1_800_000_000_000_i64;
    let cycle = now + 16 * 24 * 3600 * 1000;
    let deduction = cycle + 14 * 24 * 3600 * 1000;
    let resource = package(
        &format!(
            r#"{{"PackageCode": "TCACA_code_002_AkiJS3ZHF5", "CycleCapacitySizePrecise": "500",
                "CycleCapacityRemainPrecise": "400", "DeductionEndTime": {deduction}, "CycleEndTime": {cycle}}}"#
        ),
        now,
    );
    assert_eq!(resource.get_i64("expireAt"), Some(deduction));
    assert_eq!(resolve_expire_at(Some(deduction), Some(cycle), now), Some(deduction));
}

#[test]
fn drops_far_future_placeholder_when_no_cycle_end() {
    let now = 1_800_000_000_000_i64;
    let resource = package(
        r#"{"PackageCode": "placeholder", "CycleTotalCapacity": 100, "CycleRemainCapacity": 100,
            "DeductionEndTime": 2049792688000}"#,
        now,
    );
    assert!(matches!(resource.get("expireAt"), Some(Json::Null)));
    assert_eq!(resource.get_bool("expired"), Some(false));
    assert_eq!(resource.get_bool("expiringSoon"), Some(false));
}

#[test]
fn package_code_tables_include_intl_codes() {
    let paid: HashSet<&str> = paid_package_codes().into_iter().collect();
    let free: HashSet<&str> = free_package_codes().into_iter().collect();
    for code in ["TCACA_code_003_FAnt7lcmRT", "TCACA_code_036_lupO5WgNdG"] {
        assert!(paid.contains(code), "missing paid code {code}");
    }
    for code in [
        "TCACA_code_001_PqouKr6QWV",
        "TCACA_code_006_DbXS0lrypC",
        "TCACA_code_035_ArVxJcGDsm",
        "TCACA_code_037_WxOD3MpI2o",
        "TCACA_code_039_KRcQj7wUat",
        "TCACA_code_040_mi9rCYg46x",
    ] {
        assert!(free.contains(code), "missing free code {code}");
    }
}

#[test]
fn parses_string_cycle_end_from_official_detail_payload() {
    let now = Local.with_ymd_and_hms(2026, 9, 16, 12, 0, 0).unwrap().timestamp_millis();
    let expected_cycle_end = Local.with_ymd_and_hms(2026, 9, 30, 23, 59, 59).unwrap().timestamp_millis();
    let resource = package(
        r#"{
            "PackageCode": "TCACA_code_035_ArVxJcGDsm",
            "PackageName": "Free Plan Subscription",
            "CapacitySize": 100,
            "CapacityRemain": 100,
            "CycleCapacitySize": 100,
            "CycleCapacityRemain": 100,
            "CycleEndTime": "2026-09-30 23:59:59",
            "DeductionEndTime": 2049792688000,
            "ExpiredTime": ""
        }"#,
        now,
    );
    assert_eq!(resource.get_i64("expireAt"), Some(expected_cycle_end));
    assert_eq!(resource.get_bool("expired"), Some(false));
    assert_eq!(resource.get_bool("expiringSoon"), Some(false));
}

#[test]
fn three_endpoint_query_only_for_domestic_variant() {
    assert!(uses_three_endpoint_query(WbVariant::Cn));
    assert!(!uses_three_endpoint_query(WbVariant::Ai));
}

#[test]
fn refused_answers_are_retried_once() {
    let acc = j(r#"{"refresh_token": "r"}"#);
    let refused = j(r#"{"code": 401}"#);
    let fine = j(r#"{"code": 0, "data": {}}"#);
    assert!(needs_refresh_after(&acc, &fine, &refused, &fine));
    assert!(!needs_refresh_after(&j("{}"), &fine, &refused, &fine));
    assert!(!needs_refresh_after(&acc, &fine, &fine, &fine));
    assert!(retries_legacy(&acc, &refused, false));
    assert!(!retries_legacy(&acc, &refused, true));
    assert!(retries_with_new_token(&acc, &refused));
    assert!(is_unauthorized(&j(r#"{"code": 9, "message": "Token EXPIRED: Unauthorized"}"#)));
}

#[test]
fn failures_are_told() {
    let acc = j(r#"{"id": "a"}"#);
    assert_eq!(credit_failure(&acc, "e").get_str("error"), Some("e"));
    let failed = match legacy_credit_result(&acc, &j(r#"{"code": 5, "message": "down"}"#)) {
        Err(answer) => answer,
        Ok(_) => panic!("must fail"),
    };
    assert_eq!(failed.get_str("error"), Some("down"));
    assert_eq!(legacy_credit_result(&acc, &j(r#"{"code": 0, "data": {"Accounts": [{}]}}"#)).unwrap().len(), 1);
    assert_eq!(no_path_answer().get_i64("code"), Some(-1));
    assert_eq!(response_error(&j(r#"{"code": 5, "message": "down"}"#)), "down");
}

#[test]
fn a_query_renews_the_token_once() {
    let acc = j(r#"{"id": "a", "refresh_token": "r"}"#);
    let refused = j(r#"{"code": 401}"#);
    let null = Json::Null;
    let step = credit_next(CreditStep::Newer, &acc, &refused, &null, &null, &null);
    assert_eq!(step, CreditStep::NewerAgain);
    let step = credit_next(step, &acc, &refused, &refused, &refused, &null);
    assert_eq!(step, CreditStep::Older { renewed: true });
    let step = credit_next(step, &acc, &refused, &refused, &refused, &refused);
    assert_eq!(step, CreditStep::TellOlder);

    let first = CreditStep::Older { renewed: false };
    assert_eq!(credit_next(first, &acc, &null, &null, &null, &refused), CreditStep::OlderAgain);
    assert_eq!(credit_next(CreditStep::OlderAgain, &acc, &null, &null, &null, &refused), CreditStep::TellOlder);
    let poor = j(r#"{"id": "a"}"#);
    assert_eq!(credit_next(first, &poor, &null, &null, &null, &refused), CreditStep::TellOlder);
    assert_eq!(credit_next(CreditStep::Newer, &poor, &refused, &null, &null, &null), first);

    let listed = j(r#"{"code": 0, "data": {"Response": {"Data": {"Packages": []}}}}"#);
    let told = credit_next(CreditStep::Newer, &acc, &listed, &null, &null, &null);
    assert_eq!(new_resources(&listed, &null, &null).is_some(), told == CreditStep::TellNewer);
}

#[test]
fn a_request_goes_from_path_to_path() {
    let lost = j(r#"{"code": -1, "message": "timed out"}"#);
    let missing = j(r#"{"code": 404, "message": "page not found"}"#);
    let first = PostStep::Send { path: 0, again: false };
    assert_eq!(post_next(2, first, &lost), PostStep::Send { path: 0, again: true });
    assert_eq!(post_next(2, PostStep::Send { path: 0, again: true }, &lost), PostStep::Answered);
    assert_eq!(post_next(2, first, &missing), PostStep::Send { path: 1, again: false });
    assert_eq!(post_next(2, PostStep::Send { path: 1, again: false }, &missing), PostStep::Answered);
    assert_eq!(post_next(2, first, &j(r#"{"code": 0}"#)), PostStep::Answered);
}

#[test]
fn a_balance_is_recorded_under_the_id() {
    let told = j(r#"{"totalCapacity": 5, "totalRemaining": 3}"#);
    let seen = observed(&j(r#"{"id": "a", "email": "e@x.y", "variant": "ai"}"#), &told).unwrap();
    assert_eq!((seen.id.as_str(), seen.name.as_str()), ("a", "e@x.y"));
    assert!(seen.total.same_value(&Json::num(5)) && seen.remaining.same_value(&Json::num(3)));
    assert_eq!(seen.variant, WbVariant::Ai);
    assert!(observed(&j(r#"{"uid": "u"}"#), &told).is_none());
}

#[test]
fn a_status_is_cut_to_an_integer() {
    let status = |text: &str| package(&format!(r#"{{"Status": {text}}}"#), 0).get_i64("status");
    assert_eq!(status("7"), Some(7));
    assert_eq!(status("-3"), Some(-3));
    assert_eq!(status("2.9"), Some(2));
    assert_eq!(status("9007199254740992"), Some(9_007_199_254_740_992));
    // Beyond that not every integer is a double.
    assert_eq!(status("9007199254740993"), Some(9_007_199_254_740_992));
    assert_eq!(status("-9223372036854775808"), Some(i64::MIN));
    assert_eq!(status("18446744073709551615"), Some(i64::MAX));
    assert_eq!(status("null"), None);
}
