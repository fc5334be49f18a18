use wb_switch_core::account::variant_of;
use wb_switch_core::auth_file::{
    auth_file_path, build_account_obj, build_auth_obj, check_written_login, existing_login, import_account_from_root,
    imported_account_from_root, login_was_written, workbuddy_app_path, write_account_to_auth_file, write_failure,
};
use wb_switch_core::json::{from_text, whole, Json};
use wb_switch_core::variant::WbVariant;

fn j(text: &str) -> Json {
    from_text(text).expect("JSON")
}

#[test]
fn auth_file_path_is_expected_location() {
    let data_dir = "/home/u/.local/share";
    let s = auth_file_path(WbVariant::Cn, data_dir);
    assert!(s.contains("CodeBuddyExtension"), "路径应包含 CodeBuddyExtension: {s}");
    assert!(s.ends_with("workbuddy-desktop.info"), "文件名应为 workbuddy-desktop.info: {s}");

    let ai = auth_file_path(WbVariant::Ai, data_dir);
    assert_eq!(std::path::Path::new(&ai).parent(), std::path::Path::new(&s).parent());
    assert!(ai.ends_with("workbuddy-desktop-ai.info"));
}

#[test]
fn backup_file_name_is_distinguishable_per_variant() {
    let ts = "2026-09-15T00-00-00Z";
    assert_eq!(WbVariant::Cn.backup_file_name(ts), "workbuddy-desktop.2026-09-15T00-00-00Z.info");
    assert_eq!(WbVariant::Ai.backup_file_name(ts), "workbuddy-desktop-ai.2026-09-15T00-00-00Z.info");
}

#[test]
fn import_from_auth_file_extracts_fields() {
    let root = j(r#"{
        "account": {"uid": "u-1", "nickname": "小明", "email": "a@b.c"},
        "auth": {
            "accessToken": "AT-1",
            "refreshToken": "RT-1",
            "tokenType": "Bearer",
            "domain": "www.codebuddy.cn",
            "expiresAt": "1791912333558"
        },
        "domain": "www.codebuddy.cn"
    }"#);
    let auth = root.get("auth").unwrap();
    assert_eq!(whole(auth.get("expiresAt")), Some(1791912333558));
    assert_eq!(whole(auth.get("refreshToken")), None);
    assert_eq!(whole(Some(&Json::text("1786728333"))), Some(1786728333));

    let acc = imported_account_from_root(&root, WbVariant::Cn, "id-1", 7).unwrap();
    assert_eq!(acc.get_str("id"), Some("id-1"));
    assert_eq!(acc.get_str("uid"), Some("u-1"));
    assert_eq!(acc.get_str("nickname"), Some("小明"));
    assert_eq!(acc.get_str("email"), Some("a@b.c"));
    assert_eq!(acc.get_str("access_token"), Some("AT-1"));
    assert_eq!(acc.get_str("refresh_token"), Some("RT-1"));
    assert_eq!(acc.get_str("domain"), Some("www.codebuddy.cn"));
    assert_eq!(acc.get_i64("expiresAt"), Some(1791912333558));
}

#[test]
fn import_without_email_does_not_synthesize_one() {
    let root = j(r#"{"account": {"uid": "u-1", "nickname": "同名用户"}, "auth": {"accessToken": "test-token"}}"#);
    let account = import_account_from_root(&root, WbVariant::Cn, 1).expect("auth payload should import");

    assert_eq!(account.get_str("uid"), Some("u-1"));
    assert_eq!(account.get_str("nickname"), Some("同名用户"));
    assert!(matches!(account.get("email"), Some(Json::Null)));
    assert_eq!(account.get_str("variant"), Some("cn"));
}

#[test]
fn blank_access_token_is_not_imported() {
    for blank in ["", "   ", "\\t\\n"] {
        let root = j(&format!(
            r#"{{"account": {{"uid": "u-1", "nickname": "小明"}}, "auth": {{"accessToken": "{blank}", "refreshToken": "RT-1"}}}}"#
        ));
        assert!(
            import_account_from_root(&root, WbVariant::Cn, 1).is_none(),
            "空 accessToken（{blank:?}）不得被导入"
        );
    }

    let root = j(r#"{"account": {"uid": "u-1"}, "auth": {"accessToken": {"$wbEncrypted": 1, "envelope": "enc"}}}"#);
    let imported =
        import_account_from_root(&root, WbVariant::Cn, 1).expect("加密信封 accessToken 必须可导入");
    assert!(imported
        .get("access_token")
        .unwrap()
        .same_value(&j(r#"{"$wbEncrypted": 1, "envelope": "enc"}"#)));
}

#[test]
fn imported_account_records_source_variant() {
    let root = j(r#"{"account": {"uid": "u-ai"}, "auth": {"accessToken": "at-ai", "domain": "www.workbuddy.ai"}}"#);
    let account = import_account_from_root(&root, WbVariant::Ai, 1).expect("auth payload should import");

    assert_eq!(account.get_str("variant"), Some("ai"));
    assert_eq!(variant_of(&account), WbVariant::Ai, "导入账号自带档位，无需依赖域名兜底");
}

#[test]
fn imported_accounts_get_distinct_ids() {
    let root = j(r#"{"account": {"uid": "u"}, "auth": {"accessToken": "t"}}"#);
    let a = import_account_from_root(&root, WbVariant::Cn, 1).unwrap();
    let b = import_account_from_root(&root, WbVariant::Cn, 1).unwrap();
    assert_eq!(a.get_str("id").unwrap().len(), 36);
    assert_ne!(a.get_str("id"), b.get_str("id"));
}

#[test]
fn written_login_holds_the_account() {
    let acc = j(r#"{"uid": "u-1", "nickname": "n", "access_token": "AT", "refresh_token": "RT",
        "domain": "www.codebuddy.cn", "expiresAt": 2000000000000}"#);
    let session = write_account_to_auth_file(&acc, &j("{}"), 1_700_000_000_000);
    let auth = session.get("auth").unwrap();
    assert_eq!(auth.get_str("accessToken"), Some("AT"));
    assert_eq!(auth.get_str("refreshToken"), Some("RT"));
    assert_eq!(session.get("account").unwrap().get_str("uid"), Some("u-1"));
    assert!(login_was_written(&session, &session));
    assert!(!login_was_written(&j("{}"), &session));
}

#[test]
fn login_parts_are_built_of_the_account() {
    let acc = j(r#"{"uid": "u-1", "nickname": "n", "access_token": "AT"}"#);
    let owner = build_account_obj(&acc);
    assert_eq!(owner.get_str("uid"), Some("u-1"));
    assert_eq!(owner.get_str("type"), Some("personal"));
    let auth = build_auth_obj(&acc, 1);
    assert_eq!(auth.get_str("accessToken"), Some("AT"));
    assert_eq!(auth.get_str("tokenType"), Some("Bearer"));
}

#[test]
fn client_is_where_it_was_found() {
    assert_eq!(workbuddy_app_path(Some("/x"), "/usual"), "/x");
    assert_eq!(workbuddy_app_path(None, "/usual"), "/usual");
}

#[test]
fn a_written_login_is_held_against_what_is_read_back() {
    assert!(existing_login(None).same_value(&Json::object()));
    assert!(existing_login(Some("{broken")).same_value(&Json::object()));
    let existing = existing_login(Some(r#"{"accounts": []}"#));
    let acc = j(r#"{"uid": "u", "access_token": "t"}"#);
    let session = write_account_to_auth_file(&acc, &existing, 5);
    assert_eq!(check_written_login(r#"{"auth": {"accessToken": "t"}}"#, &session), Ok(()));
    let other = check_written_login(r#"{"auth": {"accessToken": "x"}}"#, &session).unwrap_err();
    assert_eq!(other, "认证文件写后校验失败，未写入目标账号");
    assert!(check_written_login("", &session).is_err());
    assert!(write_failure(true, "denied").contains("无权限写入认证文件"));
    assert_eq!(write_failure(false, "disk full"), "disk full");
}
