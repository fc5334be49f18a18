use wb_switch_core::json::{from_text, Json};
use wb_switch_core::refresh::{
    ensure_fresh_token, is_refresh_due, keep_alive, keepalive_report, keepalive_step, refresh_account_token,
    refresh_headers, refresh_request, refresh_url, Keepalive,
};
use wb_switch_core::variant::WbVariant;

fn j(text: &str) -> Json {
    from_text(text).expect("JSON")
}

#[test]
fn refresh_url_follows_account_variant() {
    assert_eq!(
        refresh_url(&j(r#"{"uid": "u-1"}"#)),
        format!("{}/v2/plugin/auth/token/refresh", WbVariant::Cn.api_endpoint())
    );
    assert_eq!(
        refresh_url(&j(r#"{"uid": "u-1", "access_token": "t"}"#)),
        "https://www.codebuddy.cn/v2/plugin/auth/token/refresh"
    );
    assert_eq!(
        refresh_url(&j(r#"{"uid": "u-2", "variant": "ai"}"#)),
        format!("{}/v2/plugin/auth/token/refresh", WbVariant::Ai.api_endpoint())
    );
    assert_ne!(refresh_url(&j(r#"{"variant": "ai"}"#)), refresh_url(&j(r#"{"variant": "cn"}"#)));
}

#[test]
fn refresh_headers_always_declare_plugin_refresh_source() {
    let cases = [
        j(r#"{"uid": "u-cn", "access_token": "at", "refresh_token": "rt"}"#),
        j(r#"{"uid": "u-cn", "access_token": "at", "variant": "cn"}"#),
        j(r#"{"uid": "u-ai", "access_token": "at", "variant": "ai"}"#),
    ];
    for account in cases {
        let headers = refresh_headers(&account, "rt-value");
        assert_eq!(headers.get("X-Auth-Refresh-Source"), Some("plugin"), "{account:?}");
        assert_eq!(headers.get("X-Refresh-Token"), Some("rt-value"));
        assert!(headers.get("platform").is_none());
    }
}

#[test]
fn a_renewal_brings_tokens_and_times() {
    let acc = j(r#"{"id":"a","refresh_token":"old","access_token":"o","needs_relogin":true,"needs_relogin_reason":"x"}"#);
    let resp = j(r#"{"code":0,"data":{"accessToken":"new","refreshToken":"r2","expiresIn":60,"refreshExpiresIn":120}}"#);
    let r = refresh_account_token(acc, &resp, 1_700_000_000_000);
    assert_eq!(r.get_str("id"), Some("a"));
    assert_eq!(r.get_str("access_token"), Some("new"));
    assert_eq!(r.get_str("refresh_token"), Some("r2"));
    assert_eq!(r.get_i64("expiresAt"), Some(1_700_000_060_000));
    assert_eq!(r.get_i64("refreshExpiresAt"), Some(1_700_000_120_000));
    assert_eq!(r.get_i64("refreshedAt"), Some(1_700_000_000_000));
    assert!(r.get("needs_relogin").is_none());
    assert!(r.get("needs_relogin_reason").is_none());
}

#[test]
fn a_failed_renewal_keeps_the_tokens_and_marks_the_account() {
    let acc = |text: &str| j(text);
    let full = r#"{"access_token":"o","refresh_token":"old"}"#;
    let refused = refresh_account_token(acc(full), &j(r#"{"code":401,"msg":"expired"}"#), 1);
    assert_eq!(refused.get_bool("needs_relogin"), Some(true));
    assert_eq!(refused.get_str("needs_relogin_reason"), Some("刷新失败(code=401): expired"));
    assert_eq!(refused.get_str("access_token"), Some("o"));
    assert_eq!(refused.get_str("refresh_token"), Some("old"));
    let empty = refresh_account_token(acc(full), &j(r#"{"code":200,"data":{}}"#), 1);
    assert_eq!(empty.get_str("needs_relogin_reason"), Some("刷新响应缺少 accessToken"));
    let none = refresh_account_token(acc(r#"{"access_token":"o"}"#), &j(r#"{"code":0}"#), 1);
    assert_eq!(none.get_str("needs_relogin_reason"), Some("缺少 refresh token，无法刷新，需重新登录"));
    assert!(refresh_request(&j(r#"{"access_token":"o"}"#)).is_none());
    let (url, headers) = refresh_request(&j(full)).unwrap();
    assert_eq!(url, refresh_url(&j(full)));
    assert_eq!(headers.get("X-Refresh-Token"), Some("old"));
}

#[test]
fn a_token_is_renewed_only_when_due() {
    let cfg = j(r#"{"lazy_refresh_hours":1,"keepalive_days":1}"#);
    let day = 24 * 3_600 * 1_000;
    let fresh = j(r#"{"refresh_token":"r","access_token":"o","expiresAt":1000000000000}"#);
    let now = 1_000_000_000_000 - 2 * day;
    let resp = j(r#"{"code":0,"data":{"accessToken":"new"}}"#);
    assert!(!is_refresh_due(&fresh, &cfg, now));
    assert!(!is_refresh_due(&fresh, &cfg, 1_000_000_000_000 - 3_600_000));
    assert!(is_refresh_due(&fresh, &cfg, 1_000_000_000_000 - 3_600_000 + 1));
    assert!(is_refresh_due(&fresh, &cfg, 1_000_000_000_000));
    assert!(is_refresh_due(&j(r#"{"refresh_token":"r"}"#), &cfg, now));
    assert_eq!(keepalive_step(&fresh, &cfg, now), Keepalive::Lasting);
    assert_eq!(keepalive_step(&fresh, &cfg, 1_000_000_000_000 - day + 1), Keepalive::Renew);
    assert_eq!(keepalive_step(&fresh, &j("{}"), now), Keepalive::Renew);
    assert_eq!(keepalive_step(&j("{}"), &cfg, now), Keepalive::NoToken);
    let kept = ensure_fresh_token(fresh, &cfg, &resp, now);
    assert_eq!(kept.get_str("access_token"), Some("o"));
    let renewed = ensure_fresh_token(kept, &cfg, &resp, 1_000_000_000_000);
    assert_eq!(renewed.get_str("access_token"), Some("new"));
}

#[test]
fn a_daily_round_reports_each_account() {
    let cfg = j(r#"{"keepalive_days":0}"#);
    let resp = j(r#"{"code":0,"data":{"accessToken":"new"}}"#);
    let (acc, row) = keep_alive(j(r#"{"email":"a@b.c","refresh_token":"r"}"#), &cfg, &resp, 7);
    assert_eq!(acc.get_str("access_token"), Some("new"));
    let row = row.unwrap();
    assert_eq!(row.get_str("email"), Some("a@b.c"));
    assert_eq!(row.get_str("status"), Some("ok"));
    assert!(row.get("error").unwrap().same_value(&Json::Null));
    let (bad, failed) = keep_alive(j(r#"{"refresh_token":"r"}"#), &cfg, &j(r#"{"code":1}"#), 7);
    assert_eq!(bad.get_bool("needs_relogin"), Some(true));
    let failed = failed.unwrap();
    assert_eq!(failed.get_str("status"), Some("failed"));
    assert_eq!(failed.get_str("error"), Some("刷新失败(code=1): 未知错误"));
    let (none, missing) = keep_alive(j("{}"), &cfg, &resp, 7);
    assert_eq!(none.get_str("needs_relogin_reason"), Some("缺少 refresh token，无法保活，需重新登录"));
    assert_eq!(missing.unwrap().get_str("status"), Some("missing_rt"));
    let told = keepalive_report(3, vec![row]);
    assert_eq!(told.get_i64("checked"), Some(3));
    assert_eq!(told.get_arr("refreshed").unwrap().len(), 1);
}
