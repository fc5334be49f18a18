use wb_switch_core::export_import::{
    check_accounts, check_export_path, import_accounts, merge_import_record, merge_import_records, parse_accounts_json,
    preview_accounts, select_export_records, validate_export_file_name, validate_export_path, MergeOutcome,
};
use wb_switch_core::json::{from_text, Json};

fn j(text: &str) -> Json {
    from_text(text).expect("JSON")
}

fn record(id: &str, uid: Option<&str>, nickname: &str, email: Option<&str>, token: bool) -> Json {
    let secret = if token { format!("token-{id}") } else { String::new() };
    Json::object()
        .put("id", Json::text(id))
        .put("uid", Json::opt_text(uid))
        .put("nickname", Json::text(nickname))
        .put("email", Json::opt_text(email))
        .put("access_token", Json::text(&secret))
        .put("createdAt", Json::num(1))
}

fn written(list: &[Json]) -> String {
    let items: Vec<serde_json::Value> = list.iter().map(plain).collect();
    serde_json::to_string(&items).expect("text")
}

fn plain(v: &Json) -> serde_json::Value {
    match v {
        Json::Null => serde_json::Value::Null,
        Json::Bool(b) => serde_json::Value::Bool(*b),
        Json::Int(n) => serde_json::Value::from(i64::try_from(*n).expect("i64")),
        Json::Str(s) => serde_json::Value::String(s.clone()),
        Json::Arr(list) => serde_json::Value::Array(list.iter().map(plain).collect()),
        Json::Obj(members) => {
            serde_json::Value::Object(members.iter().map(|(k, v)| (k.clone(), plain(v))).collect())
        }
        other => panic!("not written here: {other:?}"),
    }
}

#[test]
fn parse_rejects_empty_invalid_and_non_array() {
    assert!(parse_accounts_json("").is_err());
    assert!(parse_accounts_json("not json").is_err());
    assert!(parse_accounts_json(r#"{ "a": 1 }"#).is_err());
}

#[test]
fn parse_rejects_non_object_element() {
    let err = parse_accounts_json(r#"[{ "uid": "u1" }, 42]"#).unwrap_err();
    assert!(err.contains("第 2 项"), "{err}");
}

#[test]
fn parse_accepts_object_array() {
    let parsed = parse_accounts_json(r#"[{ "uid": "u1" }, {}]"#).unwrap();
    assert_eq!(parsed.len(), 2);
}

#[test]
fn merge_overwrites_same_uid_preserving_imported_record() {
    let mut accounts = vec![record("local", Some("u1"), "旧名称", None, true)];
    let text = r#"[{ "id": "imported", "uid": "u1", "nickname": "新名称", "access_token": "tok-new" }]"#;
    let result = merge_import_records(&mut accounts, text, &[0]).unwrap();
    assert_eq!(result.imported, 1);
    assert_eq!(result.overwritten, 1);
    assert_eq!(result.skipped, 0);
    assert_eq!(accounts.len(), 1);
    assert_eq!(accounts[0].get_str("id"), Some("imported"));
    assert_eq!(accounts[0].get_str("nickname"), Some("新名称"));
    assert_eq!(accounts[0].get_str("access_token"), Some("tok-new"));
}

#[test]
fn merge_preserves_local_id_when_imported_record_has_none() {
    let mut accounts = vec![record("local-id", Some("u1"), "旧名称", None, true)];
    let text = r#"[{ "uid": "u1", "nickname": "新名称", "access_token": "tok" }]"#;
    let result = merge_import_records(&mut accounts, text, &[0]).unwrap();
    assert_eq!(result.imported, 1);
    assert_eq!(result.overwritten, 1);
    assert_eq!(accounts.len(), 1);
    assert_eq!(accounts[0].get_str("id"), Some("local-id"));
    assert_eq!(accounts[0].get_str("nickname"), Some("新名称"));
    assert_eq!(accounts[0].get_str("access_token"), Some("tok"));
}

#[test]
fn merge_appends_when_uid_missing_or_unmatched() {
    let mut accounts = vec![record("local", Some("u1"), "甲", None, true)];
    let text = r#"[
        { "id": "n1", "nickname": "无uid", "access_token": "t1" },
        { "id": "n2", "uid": "u-other", "nickname": "uid不匹配", "access_token": "t2" }
    ]"#;
    let result = merge_import_records(&mut accounts, text, &[0, 1]).unwrap();
    assert_eq!(result.imported, 2);
    assert_eq!(result.overwritten, 0);
    assert_eq!(accounts.len(), 3);
}

#[test]
fn merge_skips_missing_token() {
    let mut accounts: Vec<Json> = vec![];
    let text = r#"[{ "id": "no-token", "uid": "u9", "nickname": "缺token" }]"#;
    let result = merge_import_records(&mut accounts, text, &[0]).unwrap();
    assert_eq!(result.imported, 0);
    assert_eq!(result.skipped, 1);
    assert!(accounts.is_empty());
}

#[test]
fn merge_counts_out_of_range_index_as_skipped() {
    let mut accounts: Vec<Json> = vec![];
    let result = merge_import_records(&mut accounts, r#"[{ "access_token": "t" }]"#, &[5]).unwrap();
    assert_eq!(result.imported, 0);
    assert_eq!(result.skipped, 1);
}

#[test]
fn merge_deduplicates_within_file() {
    let mut accounts: Vec<Json> = vec![];
    let text = r#"[
        { "id": "f1", "uid": "u9", "access_token": "t1" },
        { "id": "f2", "uid": "u9", "access_token": "t2" }
    ]"#;
    let result = merge_import_records(&mut accounts, text, &[0, 1]).unwrap();
    assert_eq!(result.imported, 2);
    assert_eq!(result.overwritten, 1);
    assert_eq!(accounts.len(), 1);
    assert_eq!(accounts[0].get_str("id"), Some("f2"));
}

#[test]
fn export_requires_selection() {
    let accounts = vec![record("a1", Some("u1"), "甲", None, true)];
    assert!(select_export_records(&accounts, &[]).is_err());
    assert!(select_export_records(&accounts, &["missing".to_string()]).is_err());
}

#[test]
fn export_returns_full_records_with_tokens() {
    let accounts = vec![
        record("a1", Some("u1"), "甲", Some("a@b.c"), true),
        record("a2", Some("u2"), "乙", None, true),
    ];
    let exported = select_export_records(&accounts, &["a1".to_string(), "missing".to_string()]).unwrap();
    assert_eq!(exported.len(), 1);
    assert_eq!(exported[0].get_str("id"), Some("a1"));
    assert_eq!(exported[0].get_str("access_token"), Some("token-a1"));
}

#[test]
fn exported_records_roundtrip_import() {
    let accounts = vec![j(
        r#"{
            "id": "a1",
            "uid": "u1",
            "nickname": "甲",
            "email": "a@b.c",
            "access_token": "tok-1",
            "refresh_token": "ref-1",
            "auth_raw": { "k": "v" },
            "createdAt": 1
        }"#,
    )];
    let exported = select_export_records(&accounts, &["a1".to_string()]).unwrap();
    let text = written(&exported);
    let mut target: Vec<Json> = vec![];
    let result = merge_import_records(&mut target, &text, &[0]).unwrap();
    assert_eq!(result.imported, 1);
    assert_eq!(target.len(), 1);
    assert_eq!(target[0].get_str("access_token"), Some("tok-1"));
    assert_eq!(target[0].get_str("refresh_token"), Some("ref-1"));
    assert_eq!(target[0].get("auth_raw").and_then(|a| a.get_str("k")), Some("v"));
    assert!(target[0].same_value(&accounts[0]));
}

#[test]
fn preview_exposes_only_desensitized_fields() {
    let text = r#"[{
        "id": "a1",
        "uid": "u1",
        "nickname": "小明",
        "email": "x@y.z",
        "access_token": "SECRET"
    }]"#;
    let preview = preview_accounts(text).unwrap();
    assert_eq!(preview.get_i64("total"), Some(1));
    let first = &preview.get_arr("accounts").unwrap()[0];
    assert_eq!(first.get_i64("index"), Some(0));
    assert_eq!(first.get_str("uid"), Some("u1"));
    assert_eq!(first.get_str("nickname"), Some("小明"));
    assert_eq!(first.get_str("email"), Some("x@y.z"));
    assert_eq!(first.get_bool("hasToken"), Some(true));
    assert!(first.get("access_token").is_none());
}

#[test]
fn export_file_name_rejects_traversal_and_non_json() {
    assert!(validate_export_file_name("../../etc/passwd.json").is_err());
    assert!(validate_export_file_name("a/b.json").is_err());
    assert!(validate_export_file_name("a\\b.json").is_err());
    assert!(validate_export_file_name("out.txt").is_err());
    assert!(validate_export_file_name("").is_err());
    assert!(validate_export_file_name("wb-switch-accounts-2026-08-21.json").is_ok());
}

#[test]
fn export_path_validation() {
    assert!(validate_export_path("relative/out.json").is_err());
    let root = if std::path::Path::new("/tmp").is_absolute() { "/tmp" } else { "C:\\Temp" };
    assert!(validate_export_path(&format!("{root}/out.txt")).is_err());
    assert!(validate_export_path(&format!("{root}/out.JSON")).is_ok());
    assert!(validate_export_path(&format!("{root}/out.json")).is_ok());
}

#[test]
fn write_records_to_file_rejects_bad_name() {
    assert!(validate_export_file_name("../escape.json").is_err());
    assert!(validate_export_file_name("no-ext").is_err());
}

#[test]
fn a_path_is_judged_by_its_parts() {
    assert!(check_export_path(false, Some("json".to_string())).is_err());
    assert!(check_export_path(true, None).is_err());
    assert!(check_export_path(true, Some("txt".to_string())).is_err());
    assert!(check_export_path(true, Some("JsOn".to_string())).is_ok());
    assert_ne!(
        check_export_path(false, Some("json".to_string())).unwrap_err(),
        check_export_path(true, None).unwrap_err()
    );
}

#[test]
fn a_refused_import_leaves_the_accounts() {
    let kept = vec![record("local", Some("u1"), "甲", None, true)];
    assert!(import_accounts(kept, "oops", &[0]).is_err());
    let mut accounts = vec![record("local", Some("u1"), "甲", None, true)];
    assert!(merge_import_records(&mut accounts, "{}", &[0]).is_err());
    assert_eq!(accounts.len(), 1);
    assert!(accounts[0].same_value(&record("local", Some("u1"), "甲", None, true)));
    let (after, told) =
        import_accounts(accounts, r#"[{"id":"n","uid":"u2","access_token":"t"}]"#, &[0]).unwrap();
    assert_eq!(after.len(), 2);
    assert_eq!(told.imported, 1);
}

#[test]
fn parsed_content_is_checked_apart() {
    assert!(check_accounts("  ", Ok(Json::Arr(vec![]))).is_err());
    assert_eq!(check_accounts("[]", Ok(Json::Arr(vec![]))).unwrap().len(), 0);
    assert!(check_accounts("x", Err("broken".to_string())).unwrap_err().contains("broken"));
    assert!(check_accounts("1", Ok(Json::num(1))).is_err());
}

#[test]
fn one_record_is_added_replaces_or_is_skipped() {
    let mut accounts = vec![record("local", Some("u1"), "甲", None, true)];
    assert!(matches!(
        merge_import_record(&mut accounts, &record("a", Some("u1"), "乙", None, false)),
        MergeOutcome::Skipped
    ));
    assert!(matches!(
        merge_import_record(&mut accounts, &record("b", Some("u1"), "乙", None, true)),
        MergeOutcome::Overwritten
    ));
    assert!(matches!(
        merge_import_record(&mut accounts, &record("c", Some("u2"), "丙", None, true)),
        MergeOutcome::Appended
    ));
    assert_eq!(accounts.len(), 2);
    assert_eq!(accounts[0].get_str("id"), Some("b"));
    assert_eq!(accounts[1].get_str("id"), Some("c"));
}

#[test]
fn exported_records_are_imported_as_they_were() {
    let accounts = vec![
        record("a1", Some("u1"), "甲", None, true),
        record("a2", None, "乙", Some("b@example.com"), true),
        record("a3", Some("u3"), "丙", None, true),
    ];
    let ids = ["a3".to_string(), "a1".to_string(), "a2".to_string()];
    let records = select_export_records(&accounts, &ids).unwrap();
    let (store, told) = import_accounts(vec![], &written(&records), &[0, 1, 2]).unwrap();
    assert_eq!((told.imported, told.skipped, told.overwritten), (3, 0, 0));
    assert_eq!(store.len(), 3);
    for (kept, record) in store.iter().zip(&records) {
        assert!(kept.same_value(record));
    }
    assert_eq!(store[0].get_str("access_token"), Some("token-a3"));
}

#[test]
fn an_import_of_what_is_stored_changes_nothing() {
    let accounts =
        vec![record("a1", Some("u1"), "甲", None, true), record("a2", Some("u2"), "乙", None, true)];
    let text = written(&accounts);
    let (store, told) = import_accounts(accounts, &text, &[0, 1]).unwrap();
    assert_eq!((told.imported, told.skipped, told.overwritten), (2, 0, 2));
    assert_eq!(store.len(), 2);
    assert!(store[0].same_value(&record("a1", Some("u1"), "甲", None, true)));
    assert!(store[1].same_value(&record("a2", Some("u2"), "乙", None, true)));
}
