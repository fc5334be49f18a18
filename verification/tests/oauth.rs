use std::collections::HashSet;

use wb_switch_core::config::OAUTH_TIMEOUT_SECONDS;
use wb_switch_core::ids::{new_id, new_login_id};
use wb_switch_core::json::{from_text, Json};
use wb_switch_core::oauth::{
    domain_mismatch_error, oauth_account_url, oauth_poll_begin, oauth_poll_collect, oauth_poll_profile,
    oauth_poll_saved, oauth_poll_token, oauth_profile_email, oauth_start, oauth_state_url, oauth_token_url,
    start_login_as, Logins, OAuthInfo, PollProfile, PollStart, PollToken,
};
use wb_switch_core::variant::WbVariant;

fn j(text: &str) -> Json {
    from_text(text).expect("JSON")
}

fn started(logins: &mut Logins, id: &str, v: WbVariant) {
    let resp = j(r#"{"code":0,"data":{"state":"st-1","authUrl":"https://login.example/x"}}"#);
    let told = start_login_as(logins, id, v, &resp, "", 1_000).unwrap();
    assert_eq!(told.get_str("loginId"), Some(id));
}

#[test]
fn oauth_profile_without_email_does_not_use_nickname_or_uid() {
    let profile = j(r#"{"uid": "u-1", "nickname": "同名用户"}"#);
    assert_eq!(oauth_profile_email(&profile), None);
}

#[test]
fn oauth_profile_keeps_factual_email() {
    let profile = j(r#"{"email": " user@example.com "}"#);
    assert_eq!(oauth_profile_email(&profile).as_deref(), Some("user@example.com"));
}

#[test]
fn oauth_urls_follow_the_initiating_variant() {
    assert_eq!(
        oauth_state_url(WbVariant::Cn),
        format!(
            "{}/v2/plugin/auth/state?platform={}",
            WbVariant::Cn.api_endpoint(),
            WbVariant::Cn.oauth_platform()
        )
    );
    assert_eq!(
        oauth_state_url(WbVariant::Ai),
        format!("{}/v2/plugin/auth/state?platform=workbuddy-ai", WbVariant::Ai.api_endpoint())
    );
    assert!(oauth_state_url(WbVariant::Ai).contains("workbuddy-ai"));
    assert!(!oauth_state_url(WbVariant::Cn).contains("workbuddy-ai"));

    assert_eq!(
        oauth_token_url(WbVariant::Ai, "st-1"),
        format!("{}/v2/plugin/auth/token?state=st-1", WbVariant::Ai.api_endpoint())
    );
    assert_eq!(
        oauth_account_url(WbVariant::Ai, "st-1"),
        format!("{}/v2/plugin/login/account?state=st-1", WbVariant::Ai.api_endpoint())
    );
    assert_eq!(
        oauth_account_url(WbVariant::Cn, "st-1"),
        format!("{}/v2/plugin/login/account?state=st-1", WbVariant::Cn.api_endpoint())
    );
}

#[test]
fn oauth_state_records_its_own_variant() {
    let cn_id = format!("test-cn-{}", new_id());
    let ai_id = format!("test-ai-{}", new_id());
    let mut map = Logins::new();
    for (id, variant) in [(&cn_id, WbVariant::Cn), (&ai_id, WbVariant::Ai)] {
        map.insert(
            id.clone(),
            OAuthInfo {
                variant,
                state: "state-1".to_string(),
                expires_at: 1_000 + OAUTH_TIMEOUT_SECONDS,
                done: false,
                result: None,
                error: None,
            },
        );
    }
    assert!(map.get(&cn_id).unwrap().variant == WbVariant::Cn);
    assert!(map.get(&ai_id).unwrap().variant == WbVariant::Ai);
}

#[test]
fn domain_mismatch_is_rejected_per_variant() {
    assert!(domain_mismatch_error(WbVariant::Ai, "www.codebuddy.cn").is_some());
    assert!(domain_mismatch_error(WbVariant::Ai, "www.workbuddy.cn").is_some());
    assert!(domain_mismatch_error(WbVariant::Ai, "www.workbuddy.ai").is_none());
    assert!(domain_mismatch_error(WbVariant::Ai, "").is_none());

    assert!(domain_mismatch_error(WbVariant::Cn, "www.workbuddy.ai").is_some());
    assert!(domain_mismatch_error(WbVariant::Cn, "www.codebuddy.cn").is_none());
    assert!(domain_mismatch_error(WbVariant::Cn, "www.workbuddy.cn").is_none());
    assert!(domain_mismatch_error(WbVariant::Cn, "").is_none());
}

#[test]
fn a_login_is_polled_to_its_end() {
    let mut logins = Logins::new();
    started(&mut logins, "a", WbVariant::Cn);
    match oauth_poll_begin(&mut logins, "a", 1_001) {
        PollStart::AskToken { variant, state } => {
            assert!(variant == WbVariant::Cn);
            assert_eq!(state, "st-1");
        }
        PollStart::Answer(_) => panic!("nothing to answer yet"),
    }
    match oauth_poll_token(&mut logins, "a", WbVariant::Cn, "st-1", &j(r#"{"code":11,"data":{}}"#)) {
        PollToken::Answer(a) => assert_eq!(a.get_bool("done"), Some(false)),
        PollToken::AskProfile { .. } => panic!("no token yet"),
    }
    let granted = j(r#"{"code":0,"data":{"accessToken":"tok","refreshToken":"ref","domain":"www.codebuddy.cn"}}"#);
    match oauth_poll_token(&mut logins, "a", WbVariant::Cn, "st-1", &granted) {
        PollToken::AskProfile { url, headers } => {
            assert_eq!(url, oauth_account_url(WbVariant::Cn, "st-1"));
            assert_eq!(headers.get("Authorization"), Some("Bearer tok"));
            assert_eq!(headers.get("X-Domain"), Some("www.codebuddy.cn"));
        }
        PollToken::Answer(_) => panic!("the token is there"),
    }
    let profile = j(r#"{"code":0,"data":{"uid":"u-1","nickname":"甲","email":"a@b.c"}}"#);
    let acc = match oauth_poll_profile(&mut logins, "a", WbVariant::Cn, &granted, &profile, "id-1", 5) {
        PollProfile::Save(acc) => acc,
        PollProfile::Answer(_) => panic!("the account is there"),
    };
    assert_eq!(acc.get_str("id"), Some("id-1"));
    assert_eq!(acc.get_str("uid"), Some("u-1"));
    assert_eq!(acc.get_str("access_token"), Some("tok"));
    assert_eq!(acc.get_str("refresh_token"), Some("ref"));
    let told = oauth_poll_saved(&mut logins, "a", Ok(acc));
    assert_eq!(told.get_bool("done"), Some(true));
    assert!(told.get("result").and_then(|r| r.get("access_token")).is_none());
    assert!(logins.get("a").unwrap().done);
    match oauth_poll_begin(&mut logins, "a", 999_999) {
        PollStart::Answer(a) => assert_eq!(a.get_bool("done"), Some(true)),
        PollStart::AskToken { .. } => panic!("the login is over"),
    }
}

#[test]
fn a_login_of_the_other_edition_fails() {
    let mut logins = Logins::new();
    started(&mut logins, "a", WbVariant::Ai);
    started(&mut logins, "b", WbVariant::Cn);
    let granted = j(r#"{"code":0,"data":{"accessToken":"tok","domain":"www.codebuddy.cn"}}"#);
    match oauth_poll_token(&mut logins, "a", WbVariant::Ai, "st-1", &granted) {
        PollToken::Answer(a) => assert!(a.get_str("error").unwrap().contains("www.codebuddy.cn")),
        PollToken::AskProfile { .. } => panic!("refused"),
    }
    assert!(logins.get("a").unwrap().error.is_some());
    assert!(logins.get("b").unwrap().error.is_none());
    let profile = j(r#"{"code":0,"data":{"uid":"u","domain":"www.workbuddy.ai"}}"#);
    match oauth_poll_collect(&mut logins, "b", WbVariant::Cn, &granted, &profile, 5) {
        PollProfile::Answer(a) => assert!(a.get_str("error").unwrap().contains("www.workbuddy.ai")),
        PollProfile::Save(_) => panic!("refused"),
    }
    assert!(logins.get("b").unwrap().error.is_some());
}

#[test]
fn a_login_runs_out_and_an_unknown_one_is_told() {
    let mut logins = Logins::new();
    started(&mut logins, "a", WbVariant::Cn);
    match oauth_poll_begin(&mut logins, "a", 1_000 + OAUTH_TIMEOUT_SECONDS + 1) {
        PollStart::Answer(a) => assert_eq!(a.get_str("error"), Some("登录超时")),
        PollStart::AskToken { .. } => panic!("too late"),
    }
    match oauth_poll_begin(&mut logins, "nobody", 0) {
        PollStart::Answer(a) => assert!(a.get_str("error").is_some()),
        PollStart::AskToken { .. } => panic!("unknown"),
    }
    let failed = oauth_poll_saved(&mut logins, "a", Err("磁盘已满".to_string()));
    assert_eq!(failed.get_str("error"), Some("保存账号失败: 磁盘已满"));
}

#[test]
fn a_start_without_a_state_is_refused() {
    let mut logins = Logins::new();
    let told = oauth_start(&mut logins, WbVariant::Cn, &j(r#"{"code":0,"data":{}}"#), "{...}", 0);
    assert_eq!(told.unwrap_err(), "auth/state 响应缺少 state: {...}");
    let ok = oauth_start(&mut logins, WbVariant::Ai, &j(r#"{"data":{"state":"s"}}"#), "", 0).unwrap();
    let id = ok.get_str("loginId").unwrap();
    assert!(id.starts_with("wb_") && id.len() == 35, "{id}");
    assert_eq!(
        ok.get_str("verificationUri").unwrap(),
        format!("{}/login?state=s", WbVariant::Ai.api_endpoint())
    );
    assert_eq!(logins.get(id).unwrap().expires_at, OAUTH_TIMEOUT_SECONDS);
}

#[test]
fn a_collected_account_gets_a_fresh_id() {
    let mut logins = Logins::new();
    let granted = j(r#"{"code":0,"data":{"accessToken":"tok"}}"#);
    let profile = j(r#"{"code":0,"data":{"uid":"u-1"}}"#);
    match oauth_poll_collect(&mut logins, "a", WbVariant::Ai, &granted, &profile, 5) {
        PollProfile::Save(acc) => {
            assert_eq!(acc.get_str("id").unwrap().len(), 36);
            assert_eq!(acc.get_str("variant"), Some("ai"));
        }
        PollProfile::Answer(_) => panic!("nothing is wrong"),
    }
}

#[test]
fn identifiers_have_their_shape_and_differ() {
    let mut seen = HashSet::new();
    for _ in 0..50 {
        let id = new_id();
        assert_eq!(id.len(), 36);
        for (i, c) in id.chars().enumerate() {
            if i == 8 || i == 13 || i == 18 || i == 23 {
                assert_eq!(c, '-');
            } else {
                assert!(c.is_ascii_digit() || ('a'..='f').contains(&c));
            }
        }
        assert!(seen.insert(id));
        let login = new_login_id();
        assert!(login[3..].chars().all(|c| c.is_ascii_digit() || ('a'..='f').contains(&c)));
        assert!(seen.insert(login));
    }
}
