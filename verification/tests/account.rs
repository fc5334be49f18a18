use wb_switch_core::account::{
    account_display_name, account_meta, accounts_file_in, build_auth_headers, delete_account, envelope_token_error,
    find_account_in, get_str, has_unexpired_plain_token, import_local, upsert_account_in, upsert_collected_account, variant_of,
};
use wb_switch_core::config::now_ms;
use wb_switch_core::json::{from_text, Json};
use wb_switch_core::variant::WbVariant;

fn j(text: &str) -> Json {
    from_text(text).expect("JSON")
}

fn quoted(o: Option<&str>) -> String {
    match o {
        Some(s) => format!("\"{s}\""),
        None => "null".to_string(),
    }
}

fn account(id: &str, uid: Option<&str>, nickname: &str, email: Option<&str>) -> Json {
    j(&format!(
        r#"{{"id":"{id}","uid":{},"nickname":"{nickname}","email":{},"access_token":"token-{id}","createdAt":1}}"#,
        quoted(uid),
        quoted(email)
    ))
}

#[test]
fn account_meta_strips_tokens() {
    let acc = j(r#"{
        "id": "a1",
        "uid": "u1",
        "email": "x@y.z",
        "nickname": "小明",
        "enterpriseName": "某公司",
        "access_token": "SECRET_ACCESS",
        "refresh_token": "SECRET_REFRESH",
        "expiresAt": 123456,
        "needs_relogin": true,
        "needs_relogin_reason": "刷新失败"
    }"#);
    let meta = account_meta(&acc);
    assert_eq!(meta.get_str("id"), Some("a1"));
    assert_eq!(meta.get_bool("needsRelogin"), Some(true));
    assert_eq!(meta.get_str("needsReloginReason"), Some("刷新失败"));
    assert!(meta.get("access_token").is_none(), "不得泄露 token");
    assert!(meta.get("refresh_token").is_none(), "不得泄露 token");
    assert_eq!(meta.get_str("uid"), Some("u1"));
    assert_eq!(meta.get_str("email"), Some("x@y.z"));
    assert_eq!(meta.get_str("nickname"), Some("小明"));
    assert_eq!(meta.get_str("enterpriseName"), Some("某公司"));
    assert_eq!(meta.get_i64("expiresAt"), Some(123456));
}

#[test]
fn account_meta_carries_variant_for_filtering() {
    assert_eq!(account_meta(&j(r#"{"id": "a1"}"#)).get_str("variant"), Some("cn"));
    assert_eq!(account_meta(&j(r#"{"id": "a2", "variant": "ai"}"#)).get_str("variant"), Some("ai"));
    assert_eq!(
        account_meta(&j(r#"{"id": "a3", "domain": "", "variant": ""}"#)).get_str("variant"),
        Some("cn")
    );
}

#[test]
fn account_display_name_priority() {
    assert_eq!(account_display_name(&j(r#"{"email": "a@b.c", "nickname": "n"}"#)), "a@b.c");
    assert_eq!(account_display_name(&j(r#"{"nickname": "n", "uid": "u"}"#)), "n");
    assert_eq!(account_display_name(&j(r#"{"uid": "u"}"#)), "u");
    assert_eq!(account_display_name(&j("{}")), "unknown");
}

#[test]
fn get_str_trims_and_filters_empty() {
    assert_eq!(get_str(&j(r#"{"k": "  v  "}"#), "k"), Some("v".to_string()));
    assert_eq!(get_str(&j(r#"{"k": "  "}"#), "k"), None);
    assert_eq!(get_str(&j(r#"{"k": 123}"#), "k"), None);
}

#[test]
fn same_nickname_with_different_uids_is_retained() {
    let mut accounts = vec![account("old", Some("uid-1"), "同名", Some("同名"))];
    let saved = upsert_collected_account(&mut accounts, account("new", Some("uid-2"), "同名", None), now_ms());

    assert_eq!(accounts.len(), 2);
    assert_eq!(saved.get_str("id"), Some("new"));
}

#[test]
fn same_uid_refresh_preserves_local_id_and_removes_duplicates() {
    let mut accounts = vec![
        account("stable", Some("uid-1"), "旧名称", Some("old@example.com")),
        account("duplicate", Some("uid-1"), "重复记录", None),
    ];
    let saved =
        upsert_collected_account(&mut accounts, account("generated", Some("uid-1"), "新名称", None), now_ms());

    assert_eq!(accounts.len(), 1);
    assert_eq!(saved.get_str("id"), Some("stable"));
    assert_eq!(saved.get_str("nickname"), Some("新名称"));
    assert_eq!(saved.get_str("access_token"), Some("token-generated"));
}

#[test]
fn different_uids_with_same_real_email_are_retained() {
    let mut accounts = vec![account("old", Some("uid-1"), "账号一", Some("shared@example.com"))];
    upsert_collected_account(
        &mut accounts,
        account("new", Some("uid-2"), "账号二", Some("shared@example.com")),
        now_ms(),
    );

    assert_eq!(accounts.len(), 2);
}

#[test]
fn real_email_is_fallback_only_when_collected_uid_is_missing() {
    let mut accounts = vec![account("stable", None, "旧名称", Some("user@example.com"))];
    let saved = upsert_collected_account(
        &mut accounts,
        account("generated", None, "新名称", Some("USER@example.com")),
        now_ms(),
    );

    assert_eq!(accounts.len(), 1);
    assert_eq!(saved.get_str("id"), Some("stable"));
    assert_eq!(saved.get_str("nickname"), Some("新名称"));
}

#[test]
fn legacy_synthetic_email_does_not_merge_accounts() {
    let mut accounts = vec![account("old", None, "同名", Some("同名"))];
    upsert_collected_account(&mut accounts, account("new", None, "同名", Some("同名")), now_ms());

    assert_eq!(accounts.len(), 2);
}

#[test]
fn variant_of_defaults_to_cn_and_reads_domain_fallback() {
    assert_eq!(variant_of(&j(r#"{"uid": "u-1"}"#)), WbVariant::Cn);
    assert_eq!(variant_of(&j(r#"{"uid": "u-1", "variant": "ai"}"#)), WbVariant::Ai);
    assert_eq!(variant_of(&j(r#"{"uid": "u-1", "domain": "www.workbuddy.ai"}"#)), WbVariant::Ai);
}

#[test]
fn upsert_keeps_variant_of_recollected_account() {
    let mut accounts =
        vec![j(r#"{"id": "a-1", "uid": "uid-1", "variant": "ai", "access_token": "old-token"}"#)];
    let saved =
        upsert_collected_account(&mut accounts, account("a-1", Some("uid-1"), "新名称", None), now_ms());

    assert_eq!(accounts.len(), 1);
    assert_eq!(saved.get_str("variant"), Some("ai"));
    assert_eq!(accounts[0].get_str("variant"), Some("ai"));
}

#[test]
fn envelope_reimport_keeps_unexpired_plain_oauth_token() {
    let mut accounts = vec![j(&format!(
        r#"{{"id": "a-1", "uid": "uid-1", "nickname": "明文昵称", "access_token": "plain-token",
            "refresh_token": "plain-refresh", "expiresAt": {}}}"#,
        now_ms() + 86_400_000_i64
    ))];
    let collected = j(r#"{
        "uid": "uid-1",
        "nickname": {"$wbEncrypted": 1, "envelope": "enc"},
        "access_token": {"$wbEncrypted": 1, "envelope": "a"},
        "refresh_token": {"$wbEncrypted": 1, "envelope": "r"}
    }"#);
    let saved = upsert_collected_account(&mut accounts, collected, now_ms());

    assert_eq!(accounts.len(), 1);
    assert_eq!(saved.get_str("access_token"), Some("plain-token"));
    assert_eq!(saved.get_str("refresh_token"), Some("plain-refresh"));
    assert_eq!(saved.get_str("nickname"), Some("明文昵称"));
}

#[test]
fn envelope_reimport_takes_over_after_plain_token_expired() {
    let mut accounts = vec![j(&format!(
        r#"{{"id": "a-1", "uid": "uid-1", "access_token": "stale-plain", "expiresAt": {}}}"#,
        now_ms() - 1_000_i64
    ))];
    let collected = j(r#"{"uid": "uid-1", "access_token": {"$wbEncrypted": 1, "envelope": "a"}}"#);
    let saved = upsert_collected_account(&mut accounts, collected, now_ms());

    assert_eq!(accounts.len(), 1);
    assert!(saved.get("access_token").and_then(|v| v.as_str()).is_none());
}

#[test]
fn fresh_plain_oauth_token_replaces_envelope_record() {
    let mut accounts =
        vec![j(r#"{"id": "a-1", "uid": "uid-1", "access_token": {"$wbEncrypted": 1, "envelope": "old"}}"#)];
    let collected = j(&format!(
        r#"{{"uid": "uid-1", "access_token": "fresh-plain", "expiresAt": {}}}"#,
        now_ms() + 86_400_000_i64
    ));
    let saved = upsert_collected_account(&mut accounts, collected, now_ms());

    assert_eq!(accounts.len(), 1);
    assert_eq!(saved.get_str("access_token"), Some("fresh-plain"));
}

#[test]
fn upsert_accepts_caller_supplied_variant_for_new_account() {
    let mut accounts: Vec<Json> = vec![];
    let saved = upsert_collected_account(
        &mut accounts,
        j(r#"{"id": "a-ai", "uid": "uid-ai", "variant": "ai", "access_token": "t"}"#),
        now_ms(),
    );

    assert_eq!(saved.get_str("variant"), Some("ai"));
    assert_eq!(variant_of(&accounts[0]), WbVariant::Ai);
}

#[test]
fn upsert_account_keeps_existing_variant_when_updated_lacks_it() {
    let mut accounts = vec![j(r#"{"id": "a-1", "uid": "uid-1", "variant": "ai", "access_token": "old"}"#)];

    let mut refreshed = accounts[0].clone();
    refreshed.set("access_token", Json::text("new"));
    let refreshed = refreshed.without("variant");
    upsert_account_in(&mut accounts, &refreshed);

    assert_eq!(accounts.len(), 1);
    assert_eq!(accounts[0].get_str("access_token"), Some("new"));
    assert_eq!(accounts[0].get_str("variant"), Some("ai"), "覆盖写入不得丢档位");

    upsert_account_in(
        &mut accounts,
        &j(r#"{"id": "a-2", "uid": "uid-2", "variant": "cn", "access_token": "t2"}"#),
    );
    assert_eq!(accounts.len(), 2);
    assert_eq!(accounts[1].get_str("variant"), Some("cn"));
}

#[test]
fn persisted_same_name_accounts_can_be_found_and_deleted_independently() {
    let mut accounts: Vec<Json> = vec![];
    upsert_collected_account(&mut accounts, account("account-1", Some("uid-1"), "同名用户", None), now_ms());
    upsert_collected_account(&mut accounts, account("account-2", Some("uid-2"), "同名用户", None), now_ms());

    assert_eq!(find_account_in(&accounts, "account-1").unwrap().get_str("uid"), Some("uid-1"));
    assert_eq!(find_account_in(&accounts, "account-2").unwrap().get_str("uid"), Some("uid-2"));

    let after_first_delete = delete_account(&accounts, "account-1").expect("first account should delete");
    assert!(find_account_in(&after_first_delete, "account-1").is_none());
    assert_eq!(find_account_in(&after_first_delete, "account-2").unwrap().get_str("uid"), Some("uid-2"));

    let left = delete_account(&after_first_delete, "account-2").expect("second account should delete");
    assert!(left.is_empty());
}

#[test]
fn deleting_an_unknown_account_is_an_error() {
    let accounts = vec![account("a", Some("u"), "n", None)];
    assert!(delete_account(&accounts, "b").is_err());
}

#[test]
fn collecting_twice_leaves_one_account_of_a_uid() {
    let mut accounts: Vec<Json> = vec![];
    upsert_collected_account(&mut accounts, account("one", Some("uid"), "a", None), 5);
    upsert_collected_account(&mut accounts, account("two", Some("uid"), "b", None), 5);
    assert_eq!(accounts.len(), 1);
    assert_eq!(accounts[0].get_str("id"), Some("one"));
    assert_eq!(accounts[0].get_str("nickname"), Some("b"));
}

#[test]
fn plain_token_counts_until_it_ends() {
    let acc = j(r#"{"access_token": "t", "expiresAt": 2000000000000}"#);
    assert!(has_unexpired_plain_token(&acc, 1_999_999_999_999));
    assert!(!has_unexpired_plain_token(&acc, 2_000_000_000_000));
}

#[test]
fn headers_name_the_account() {
    let headers = build_auth_headers(&j(
        r#"{"access_token": "tok", "uid": "u-9", "domain": "www.codebuddy.cn", "enterpriseId": "e-1"}"#,
    ));
    assert_eq!(headers.get("Authorization"), Some("Bearer tok"));
    assert_eq!(headers.get("X-User-Id"), Some("u-9"));
}

#[test]
fn sealed_tokens_are_refused() {
    let sealed = j(r#"{"access_token": {"$wbEncrypted": 1, "envelope": "a"}}"#);
    assert!(envelope_token_error(&sealed).is_some());
    assert!(envelope_token_error(&j(r#"{"access_token": "t"}"#)).is_none());
}

#[test]
fn accounts_lie_in_the_store() {
    assert_eq!(accounts_file_in("/s"), "/s/accounts.json");
}

#[test]
fn the_local_login_is_taken_over() {
    let login = r#"{"account": {"uid": "u-1", "nickname": "小明"}, "auth": {"accessToken": "t-1"}}"#;
    let mut accounts = vec![];
    let shown = import_local(&mut accounts, Some(login), WbVariant::Cn, 5).unwrap();
    assert_eq!(accounts.len(), 1);
    assert_eq!(accounts[0].get_str("access_token"), Some("t-1"));
    assert_eq!(shown.get_str("uid"), Some("u-1"));
    assert!(shown.get("access_token").is_none());
    let id = accounts[0].get_str("id").unwrap().to_string();
    assert_eq!(id.len(), 36);
    import_local(&mut accounts, Some(login), WbVariant::Cn, 6).unwrap();
    assert_eq!(accounts.len(), 1);
    assert_eq!(accounts[0].get_str("id"), Some(id.as_str()));
    for nothing in [None, Some("no json"), Some("{}")] {
        let error = import_local(&mut accounts, nothing, WbVariant::Cn, 7).unwrap_err();
        assert_eq!(error, "未读取到本地 WorkBuddy 登录信息");
    }
    assert_eq!(accounts.len(), 1);
}
