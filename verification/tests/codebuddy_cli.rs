use wb_switch_core::codebuddy_cli::{
    account_index, account_index_by_token, after_close_error, apply_cli_region_env, clean_bearer_token,
    cli_cache_filename, close_then_write_state, command_path, commit_settings_env_update, current_cli_variant,
    ensure_no_process_env_override, ensure_region_env_compatible, has_live_session, helper_supports_account_ids,
    install_account, install_answer, install_env_auth, install_helper, install_helper_next,
    is_codebuddy_cli_process_args, is_legacy_helper_path, list_codebuddy_cli_pids, load_state,
    node_path_from_shell_output, path_is_posix_eval_safe, persist_cli_region_env, prepare_settings_env_update,
    region_switch_message, same_path, select_windows_configured_path, sessions_dir, settings_account_token,
    settings_env_token, settings_path, state_account_index, state_path, status, switch_active_account,
    switch_answer, switched_state, sync_cli_runtime_cache, sync_windows_env_for_account,
    validate_helper_for_account, validate_helper_result, validate_persisted_env_token, write_settings_env_token,
    HelperRun, InstallStep, RealPaths, SaveReport, SaveStep, StatusFacts, SwitchFacts, SwitchReport, SwitchStep,
    System, TokenSync, AI_CLI_ENDPOINT, AI_CLI_OPENAI_BASE_URL, AI_INTERNET_ENVIRONMENT, CLI_ENDPOINT_CACHE_KEY,
    CLI_ENV_CACHE_KEY, CLI_PRODUCT_CACHE_KEY, CN_CLI_ENDPOINT, CN_INTERNET_ENVIRONMENT, CODEBUDDY_AUTH_TOKEN,
    CODEBUDDY_BASE_URL, CODEBUDDY_INTERNET_ENVIRONMENT, HELPER_FILE, LEGACY_HELPER_FILE,
    LEGACY_WINDOWS_HELPER_FILE, LIVE_SESSION_STALE_MS, SESSIONS_DIR_NAME, SETTINGS_DIR,
};
use wb_switch_core::json::{from_text, Json};
use wb_switch_core::paths::join;
use wb_switch_core::variant::WbVariant;

fn j(text: &str) -> Json {
    from_text(text).expect("JSON")
}

fn env<'a>(settings: &'a Json, key: &str) -> Option<&'a str> {
    settings.get("env").and_then(|e| e.get_str(key))
}

fn unresolved() -> RealPaths {
    RealPaths { configured: None, current: None, legacy: None, legacy_windows: None }
}

#[test]
fn resolves_account_by_id_or_uid_and_returns_canonical_id() {
    let accounts = vec![j(r#"{"id": "a1", "uid": "u1"}"#), j(r#"{"id": "a2", "uid": "u2"}"#)];
    assert_eq!(account_index(&accounts, "a2"), Some((1, "a2".to_string())));
    assert_eq!(account_index(&accounts, "u1"), Some((0, "a1".to_string())));
    assert_eq!(account_index(&accounts, "missing"), None);
}

#[test]
fn state_prefers_account_id_over_legacy_index() {
    let accounts = vec![j(r#"{"id": "a1", "uid": "u1"}"#), j(r#"{"id": "a2", "uid": "u2"}"#)];
    let state = j(r#"{"active": 0, "activeAccountId": "a2"}"#);
    assert_eq!(state_account_index(&state, &accounts), Some((1, "a2".to_string())));
}

#[test]
fn legacy_index_wraps_without_panicking() {
    let accounts = vec![j(r#"{"id": "a1"}"#), j(r#"{"id": "a2"}"#)];
    let state = j(r#"{"active": 5}"#);
    assert_eq!(state_account_index(&state, &accounts), Some((1, "a2".to_string())));
    assert_eq!(state_account_index(&j(r#"{"active": -1}"#), &accounts), Some((1, "a2".to_string())));
    assert_eq!(state_account_index(&j(r#"{"active": -2}"#), &accounts), Some((0, "a1".to_string())));
}

#[test]
fn empty_accounts_have_no_active_account() {
    assert_eq!(state_account_index(&j(r#"{"active": 0}"#), &[]), None);
}

#[test]
fn sessions_dir_is_the_single_join_point_under_codebuddy_home() {
    assert_eq!(sessions_dir("/home/me"), format!("/home/me/{SETTINGS_DIR}/{SESSIONS_DIR_NAME}"));
    assert_eq!(settings_path("/home/me"), "/home/me/.codebuddy/settings.json");
    assert_eq!(state_path("/home/me"), "/home/me/.codebuddy-rotate/state.json");
}

fn session_json(heartbeat: i64) -> String {
    format!(
        r#"{{"pid": 9312, "sessionId": "01a0aeb3-1f70-7d85-b356-0faa85650c1f", "startedAt": {heartbeat}, "lastHeartbeat": {heartbeat}}}"#
    )
}

fn file(name: &str, body: String) -> (String, String) {
    (name.to_string(), body)
}

#[test]
fn fresh_heartbeat_marks_the_session_alive_and_stale_one_does_not() {
    let now = 1_800_000_000_000;
    assert!(has_live_session(&[file("9312.json", session_json(now - LIVE_SESSION_STALE_MS))], now));
    assert!(!has_live_session(&[file("9312.json", session_json(now - LIVE_SESSION_STALE_MS - 1))], now));
    assert!(has_live_session(&[file("9312.json", session_json(now + 5 * 60_000))], now));
}

#[test]
fn manual_session_files_count_and_other_names_are_ignored() {
    let now = 1_800_000_000_000;
    let fresh = now - 1_000;
    assert!(has_live_session(&[file("manual-review.json", session_json(fresh))], now));

    let mut files: Vec<(String, String)> =
        ["session.json", "manual-.json", ".json", "9312.json.bak", "9312", "notes.txt"]
            .iter()
            .map(|name| file(name, session_json(fresh)))
            .collect();
    assert!(!has_live_session(&files, now));
    files.push(file("9313.json", "not-json".to_string()));
    files.push(file("9314.json", r#"{"pid": 9314}"#.to_string()));
    assert!(!has_live_session(&files, now));
    files.push(file("9315.json", session_json(fresh)));
    assert!(has_live_session(&files, now));
}

#[test]
fn missing_sessions_dir_is_not_an_error() {
    assert!(!has_live_session(&[], 1_800_000_000_000));
}

#[test]
fn state_is_written_only_after_the_cli_is_closed() {
    let step = close_then_write_state(SwitchStep::MakeDir, SwitchReport::Fine, false);
    assert!(matches!(step, SwitchStep::Close));
    let step = close_then_write_state(step, SwitchReport::Closed(2), false);
    assert!(matches!(step, SwitchStep::WriteState(2)));
    let step = close_then_write_state(step, SwitchReport::Fine, false);
    assert!(matches!(step, SwitchStep::Apply(2)));
    let step = close_then_write_state(step, SwitchReport::Fine, false);
    assert!(matches!(step, SwitchStep::Done(2)));
}

#[test]
fn state_write_failure_reports_the_already_closed_cli() {
    let failed = |n: usize| match close_then_write_state(
        SwitchStep::WriteState(n),
        SwitchReport::Failed("x".to_string()),
        false,
    ) {
        SwitchStep::Refuse(e) => e,
        _ => panic!("must be refused"),
    };
    let error = failed(3);
    assert!(error.contains("已关闭 3 个"), "必须说明 CLI 已被关闭: {error}");
    let error = failed(0);
    assert!(!error.contains("已关闭"), "无进程可关时不追加: {error}");
}

#[test]
fn failed_change_puts_the_state_back() {
    match close_then_write_state(SwitchStep::Apply(1), SwitchReport::Failed("no".to_string()), true) {
        SwitchStep::Undo(e) => assert!(e.starts_with("no；已关闭 1 个")),
        _ => panic!("must be undone"),
    }
    match close_then_write_state(SwitchStep::MakeDir, SwitchReport::Failed(String::new()), true) {
        SwitchStep::Refuse(e) => assert!(e.contains("无法创建 CLI 账号状态目录")),
        _ => panic!("must be refused"),
    }
}

#[test]
fn settings_env_token_preserves_helper_and_other_env_values() {
    let mut settings = j(r#"{
        "apiKeyHelper": "C:/Users/tester/bin/wb-helper.bat",
        "trustedDirectories": ["C:/Users/tester"],
        "env": { "HTTPS_PROXY": "http://127.0.0.1:7890" }
    }"#);
    write_settings_env_token(&mut settings, "RAW_SECRET").unwrap();
    assert_eq!(settings_env_token(&settings), Some("RAW_SECRET".to_string()));
    assert_eq!(settings.get_str("apiKeyHelper"), Some("C:/Users/tester/bin/wb-helper.bat"));
    assert_eq!(env(&settings, "HTTPS_PROXY"), Some("http://127.0.0.1:7890"));
    assert_eq!(env(&settings, CODEBUDDY_AUTH_TOKEN), Some("RAW_SECRET"));
}

#[test]
fn settings_env_token_rejects_non_object_env() {
    let mut settings = j(r#"{"env": "invalid"}"#);
    let error = write_settings_env_token(&mut settings, "SECRET").unwrap_err();
    assert!(error.contains("env 字段不是对象"));
    assert!(!error.contains("SECRET"));
    assert!(write_settings_env_token(&mut j("[]"), "SECRET").unwrap_err().contains("顶层不是对象"));
}

#[test]
fn settings_env_file_update_roundtrips_and_preserves_existing_fields() {
    let content = r#"{
  "apiKeyHelper": "C:/Users/tester/bin/wb-helper.bat",
  "trustedDirectories": ["C:/Users/tester"],
  "env": { "HTTPS_PROXY": "http://127.0.0.1:7890" }
}"#;
    let persisted = prepare_settings_env_update(Some(content), "Bearer RAW_SECRET", WbVariant::Cn).unwrap();
    let step = commit_settings_env_update(SaveStep::Write, SaveReport::Fine, Some("RAW_SECRET"));
    assert!(matches!(step, SaveStep::Check));
    let step = commit_settings_env_update(step, SaveReport::Read(Some(persisted.clone())), Some("RAW_SECRET"));
    assert!(matches!(step, SaveStep::Cache));
    let step = commit_settings_env_update(step, SaveReport::Fine, Some("RAW_SECRET"));
    assert!(matches!(step, SaveStep::Done));

    assert_eq!(settings_env_token(&persisted), Some("RAW_SECRET".to_string()));
    assert_eq!(persisted.get_str("apiKeyHelper"), Some("C:/Users/tester/bin/wb-helper.bat"));
    assert_eq!(persisted.get_arr("trustedDirectories").unwrap()[0].as_str(), Some("C:/Users/tester"));
    assert_eq!(env(&persisted, "HTTPS_PROXY"), Some("http://127.0.0.1:7890"));
    assert_eq!(env(&persisted, CODEBUDDY_INTERNET_ENVIRONMENT), Some(CN_INTERNET_ENVIRONMENT));
}

#[test]
fn saving_settings_that_fails_is_undone() {
    let said = |step: SaveStep, report: SaveReport| match commit_settings_env_update(step, report, Some("T")) {
        SaveStep::Undo(e) => e,
        _ => panic!("must be undone"),
    };
    assert!(said(SaveStep::Write, SaveReport::NoDir).contains("无法创建 CodeBuddy 配置目录"));
    assert!(said(SaveStep::Write, SaveReport::NoWrite).contains("无法写入 CodeBuddy settings.json"));
    assert!(said(SaveStep::Check, SaveReport::Read(None)).contains("无法重新读取"));
    assert!(said(SaveStep::Check, SaveReport::Read(Some(j("{}")))).contains("不一致"));
    assert!(said(SaveStep::Cache, SaveReport::NoDir).contains("无法创建 CodeBuddy CLI 缓存目录"));
    assert!(said(SaveStep::Cache, SaveReport::NoWrite).contains("无法写入 CodeBuddy CLI 缓存"));
    assert!(matches!(commit_settings_env_update(SaveStep::Write, SaveReport::Fine, None), SaveStep::Cache));
}

#[test]
fn codebuddy_cli_process_args_match_package_and_skip_ide() {
    assert!(is_codebuddy_cli_process_args(
        "node /Users/me/.nvm/versions/node/v22.20.0/lib/node_modules/@tencent-ai/codebuddy-code/dist-server/codebuddy.js"
    ));
    assert!(is_codebuddy_cli_process_args(
        "node C:\\Users\\me\\AppData\\Roaming\\npm\\node_modules\\@tencent-ai\\codebuddy-code\\bin\\codebuddy"
    ));
    assert!(is_codebuddy_cli_process_args(
        "/Users/me/.nvm/versions/node/v22.20.0/lib/node_modules/@tencent-ai/codebuddy-code/bin/cbc-prewarm"
    ));
    assert!(is_codebuddy_cli_process_args(
        "node /Users/me/.nvm/versions/node/v22.20.0/bin/codebuddy --acp"
    ));
    assert!(!is_codebuddy_cli_process_args("/Applications/CodeBuddy.app/Contents/MacOS/CodeBuddy"));
    assert!(!is_codebuddy_cli_process_args("/Applications/CodeBuddy CN.app/Contents/MacOS/CodeBuddy CN"));
    assert!(!is_codebuddy_cli_process_args(r"C:\Users\me\AppData\Local\Programs\CodeBuddy\CodeBuddy.exe"));
    assert!(!is_codebuddy_cli_process_args("node /Users/me/Documents/github-project/wb-switch/src-tauri"));
}

#[test]
fn own_process_is_not_listed() {
    let rows = vec![
        (1u32, "/bin/codebuddy".to_string()),
        (2, "/bin/bash".to_string()),
        (3, "cbc-prewarm".to_string()),
    ];
    assert_eq!(list_codebuddy_cli_pids(System::Linux, &rows, 3), vec![1]);
    assert_eq!(list_codebuddy_cli_pids(System::Linux, &rows, 9), vec![1, 3]);
    assert_eq!(list_codebuddy_cli_pids(System::Mac, &rows, 9), vec![1, 3]);
    assert_eq!(list_codebuddy_cli_pids(System::Windows, &rows, 9), vec![3]);
    let node = vec![
        (4u32, r"node C:\n\codebuddy-code\x\Dist-Server\a.js".to_string()),
        (5, "node dist-server codebuddy-code".to_string()),
        (6, "CODEBUDDY.CMD".to_string()),
    ];
    assert_eq!(list_codebuddy_cli_pids(System::Windows, &node, 9), vec![4, 6]);
    assert_eq!(list_codebuddy_cli_pids(System::Linux, &node, 9), vec![6]);
    assert!(list_codebuddy_cli_pids(System::Mac, &node, 9).is_empty());
}

#[test]
fn apply_cli_region_env_writes_internal_for_cn_and_public_for_ai() {
    let mut settings = j(&format!(
        r#"{{"env": {{"HTTPS_PROXY": "http://127.0.0.1:7890", "{CODEBUDDY_INTERNET_ENVIRONMENT}": "internal",
            "{CODEBUDDY_BASE_URL}": "{AI_CLI_ENDPOINT}"}}}}"#
    ));
    apply_cli_region_env(&mut settings, WbVariant::Ai).unwrap();
    assert_eq!(env(&settings, CODEBUDDY_INTERNET_ENVIRONMENT), Some(AI_INTERNET_ENVIRONMENT));
    assert_eq!(env(&settings, CODEBUDDY_BASE_URL), Some(AI_CLI_OPENAI_BASE_URL));
    assert_eq!(env(&settings, "HTTPS_PROXY"), Some("http://127.0.0.1:7890"));
    apply_cli_region_env(&mut settings, WbVariant::Cn).unwrap();
    assert_eq!(env(&settings, CODEBUDDY_INTERNET_ENVIRONMENT), Some(CN_INTERNET_ENVIRONMENT));
    assert!(settings.get("env").unwrap().get(CODEBUDDY_BASE_URL).is_none());
}

#[test]
fn apply_cli_region_env_replaces_portal_root_base_url_with_openai_v2() {
    let mut settings = j(&format!(r#"{{"env": {{"{CODEBUDDY_BASE_URL}": "https://www.codebuddy.ai"}}}}"#));
    apply_cli_region_env(&mut settings, WbVariant::Ai).unwrap();
    assert_eq!(env(&settings, CODEBUDDY_BASE_URL), Some("https://www.codebuddy.ai/v2"));
}

#[test]
fn sync_cli_runtime_cache_rewrites_endpoint_and_drops_internal_env_for_ai() {
    let ai = sync_cli_runtime_cache(WbVariant::Ai);
    assert_eq!(ai.dropped, cli_cache_filename(CLI_PRODUCT_CACHE_KEY));
    assert_eq!(ai.site, (cli_cache_filename(CLI_ENV_CACHE_KEY).to_string(), AI_INTERNET_ENVIRONMENT.to_string()));
    assert_eq!(
        ai.endpoint,
        (cli_cache_filename(CLI_ENDPOINT_CACHE_KEY).to_string(), AI_CLI_ENDPOINT.to_string())
    );
    let cn = sync_cli_runtime_cache(WbVariant::Cn);
    assert_eq!(cn.site.1, CN_INTERNET_ENVIRONMENT);
    assert_eq!(cn.endpoint.1, CN_CLI_ENDPOINT);
    assert_eq!(cli_cache_filename("?"), "entry_unknown.info");
}

#[test]
fn windows_current_account_is_derived_from_persisted_token() {
    let accounts = vec![
        j(r#"{"id": "a1", "access_token": "TOKEN_ONE"}"#),
        j(r#"{"id": "a2", "access_token": "TOKEN_TWO"}"#),
    ];
    assert_eq!(account_index_by_token(&accounts, "Bearer TOKEN_TWO"), Some((1, "a2".to_string())));
    assert_eq!(account_index_by_token(&accounts, "UNKNOWN"), None);
    assert_eq!(account_index_by_token(&accounts, "Bearer "), None);
}

#[test]
fn settings_account_token_rejects_empty_bearer_value() {
    let error = settings_account_token(&j(r#"{"access_token": "Bearer "}"#)).unwrap_err();
    assert!(error.contains("没有可用的认证信息"));
    assert!(!error.contains("Bearer"));
    assert_eq!(settings_account_token(&j(r#"{"access_token": " Bearer X "}"#)), Ok("X".to_string()));
    assert!(settings_account_token(&j("{}")).is_err());
}

#[test]
fn invalid_settings_file_is_not_overwritten_or_leaked() {
    let error = match prepare_settings_env_update(Some("not-json SECRET_ON_DISK"), "NEW_SECRET", WbVariant::Cn) {
        Err(e) => e,
        Ok(_) => panic!("must fail"),
    };
    assert!(error.contains("不是有效 JSON"));
    assert!(!error.contains("NEW_SECRET"));
    assert!(!error.contains("SECRET_ON_DISK"));
}

#[test]
fn recognizes_legacy_windows_path_and_direct_cjs_path() {
    assert_eq!(
        command_path(r"C:\Users\tester\.codebuddy-rotate\helper.cmd"),
        Some(r"C:\Users\tester\.codebuddy-rotate\helper.cmd".to_string())
    );
    assert_eq!(
        command_path(r"C:\Users\test user\.codebuddy-rotate\helper.cjs"),
        Some(r"C:\Users\test user\.codebuddy-rotate\helper.cjs".to_string())
    );
    assert!(command_path("node helper.cjs").is_none());
    assert!(command_path("  ").is_none());
    assert!(command_path("'/x/helper.cjs'").is_none());
}

#[test]
fn windows_paths_compare_case_and_separator_insensitively() {
    assert!(same_path(
        r"C:\Users\Tester\.codebuddy-rotate\helper.cmd",
        "c:/users/tester/.codebuddy-rotate/helper.cmd",
        None,
        None,
        true,
    ));
    assert!(!same_path("/a/B", "/a/b", None, None, false));
    assert!(same_path("/link", "/a/b", Some("/a/b"), Some("/a/b"), false));
}

#[test]
fn windows_space_path_requires_a_space_free_short_path() {
    let original = r"C:\Users\Test User\.codebuddy-rotate\helper.cjs";
    assert_eq!(
        select_windows_configured_path(
            original,
            Some(r"C:\Users\TESTUS~1\.codebuddy-rotate\helper.cjs"),
            false
        )
        .unwrap(),
        r"C:\Users\TESTUS~1\.codebuddy-rotate\helper.cjs"
    );
    let error = select_windows_configured_path(original, None, false).unwrap_err();
    assert!(error.contains("配置阶段"));
    assert!(error.contains("shell 不安全字符"));
}

#[test]
fn windows_shell_metacharacters_also_require_a_safe_short_path() {
    for path in [
        r"C:\Users\Test&User\.codebuddy-rotate\helper.cjs",
        r"C:\Users\Test(User)\.codebuddy-rotate\helper.cjs",
        r#"C:\Users\Test'User\.codebuddy-rotate\helper.cjs"#,
    ] {
        assert!(!path_is_posix_eval_safe(path));
        assert!(select_windows_configured_path(path, None, false).is_err());
    }
    assert!(path_is_posix_eval_safe(r"C:\Users\TESTUS~1\.codebuddy-rotate\helper.cjs"));
}

#[test]
fn legacy_windows_helper_requires_migration_even_when_logic_supports_ids() {
    let directory = r"C:\Users\tester\.codebuddy-rotate";
    let found = unresolved();
    assert!(is_legacy_helper_path(&join(directory, LEGACY_WINDOWS_HELPER_FILE), directory, &found, true));
    assert!(is_legacy_helper_path(&join(directory, LEGACY_HELPER_FILE), directory, &found, true));
    assert!(!is_legacy_helper_path(&join(directory, HELPER_FILE), directory, &found, true));
    assert!(helper_supports_account_ids(None, Some("state.activeAccountId")));
    assert!(!helper_supports_account_ids(Some("echo"), None));
}

#[test]
fn helper_validation_errors_never_include_stdout_or_token() {
    let secret = "SECRET_ACCESS_TOKEN";
    let error =
        validate_helper_result(true, Some(0), b"Bearer OTHER_SECRET\n", secret, false).unwrap_err();
    assert!(error.contains("输出阶段"));
    assert!(!error.contains(secret));
    assert!(!error.contains("OTHER_SECRET"));

    let error = validate_helper_result(false, Some(127), b"Bearer LEAKED\n", secret, false).unwrap_err();
    assert!(error.contains("退出码为 127"));
    assert!(!error.contains(secret));
    assert!(!error.contains("LEAKED"));
}

#[test]
fn helper_results_are_judged() {
    assert_eq!(validate_helper_result(true, Some(0), b"Bearer T\n", "T", false), Ok(()));
    assert!(validate_helper_result(true, Some(0), b" \n", "T", true).unwrap_err().contains("未返回认证结果"));
    assert!(validate_helper_result(false, None, b"", "T", true).unwrap_err().contains("退出码为 未知"));
    let acc = j(r#"{"access_token": "T"}"#);
    let run = Ok(HelperRun { success: true, code: Some(0), stdout: b"Bearer T".to_vec() });
    assert_eq!(validate_helper_for_account(&acc, &run, false), Ok(()));
    assert_eq!(
        validate_helper_for_account(&acc, &Err("gone".to_string()), false),
        Err("gone".to_string())
    );
    assert!(validate_helper_for_account(&j("{}"), &run, false).is_err());
}

#[test]
fn extracts_node_path_without_accepting_shell_noise() {
    let node = "/Users/test/.nvm/versions/node/v22/bin/node";
    let output = format!("welcome to the shell\n{node}\n");
    assert_eq!(node_path_from_shell_output(output.as_bytes()), Some(node.to_string()));
    assert_eq!(node_path_from_shell_output(b"node\nwelcome\n"), None);
    assert_eq!(node_path_from_shell_output(b"/a/node\n/b/node/\n/c/nodejs\n"), Some("/b/node/".to_string()));
}

#[test]
fn bearer_marks_are_cut() {
    assert_eq!(clean_bearer_token(" Bearer  abc "), "abc");
    assert_eq!(clean_bearer_token("Bearer"), "");
    assert_eq!(clean_bearer_token("Bearerabc"), "Bearerabc");
}

#[test]
fn process_variables_that_override_are_refused() {
    assert!(ensure_no_process_env_override(Some(" x ")).unwrap_err().contains("CODEBUDDY_AUTH_TOKEN"));
    assert_eq!(ensure_no_process_env_override(Some("  ")), Ok(()));
    assert_eq!(ensure_no_process_env_override(None), Ok(()));
    assert_eq!(ensure_region_env_compatible(Some("IOA"), WbVariant::Cn), Ok(()));
    assert_eq!(ensure_region_env_compatible(Some("External"), WbVariant::Ai), Ok(()));
    assert!(ensure_region_env_compatible(Some("public"), WbVariant::Cn).is_err());
    assert!(ensure_region_env_compatible(Some("internal"), WbVariant::Ai).is_err());
    assert!(ensure_region_env_compatible(Some("other"), WbVariant::Ai).is_err());
}

#[test]
fn messages_say_what_was_closed() {
    assert_eq!(
        region_switch_message(WbVariant::Ai, true, 2),
        "已切换到国际版并关闭正在运行的 CodeBuddy CLI（2 个进程）。请重新打开 CLI 后再发会话"
    );
    assert_eq!(
        region_switch_message(WbVariant::Cn, true, 0),
        "已切换到国内版。未发现正在运行的 CodeBuddy CLI，新开会话即可"
    );
    assert!(region_switch_message(WbVariant::Cn, false, 0).contains("未发现正在运行的"));
    assert!(region_switch_message(WbVariant::Cn, false, 7).contains("（7 个进程）"));
    assert_eq!(after_close_error("e".to_string(), 0), "e");
}

fn switch_facts(windows: bool) -> SwitchFacts {
    SwitchFacts {
        windows,
        process_token: None,
        site: None,
        helper_is_legacy: false,
        helper_present: true,
        settings: None,
    }
}

#[test]
fn changes_are_refused_before_anything_is_written() {
    let accounts = vec![j(r#"{"id": "a1", "uid": "u1", "access_token": "T"}"#)];
    let error = |facts: &SwitchFacts, id: &str| match switch_active_account(facts, &accounts, id) {
        Err(e) => e,
        Ok(_) => panic!("must be refused"),
    };
    assert_eq!(error(&switch_facts(false), "nobody"), "账号不存在");
    let mut facts = switch_facts(false);
    facts.helper_present = false;
    assert!(error(&facts, "a1").contains("未检测到"));
    facts.helper_is_legacy = true;
    assert!(error(&facts, "a1").contains("旧版"));
    let mut facts = switch_facts(true);
    facts.process_token = Some("x".to_string());
    assert!(error(&facts, "a1").contains("CODEBUDDY_AUTH_TOKEN"));
    let mut facts = switch_facts(false);
    facts.site = Some("public".to_string());
    assert!(error(&facts, "a1").contains("CODEBUDDY_INTERNET_ENVIRONMENT"));
}

#[test]
fn change_of_account_is_read_back() {
    let accounts = vec![
        j(r#"{"id": "a1", "uid": "u1", "access_token": "T1"}"#),
        j(r#"{"id": "a2", "uid": "u2", "access_token": "T2", "variant": "ai"}"#),
    ];
    let plan = switch_active_account(&switch_facts(true), &accounts, "u2").ok().unwrap();
    assert_eq!((plan.index, plan.id.as_str(), plan.edition), (1, "a2", WbVariant::Ai));
    let (settings, token) = plan.settings.unwrap();
    assert_eq!(token, "T2");
    assert_eq!(settings_env_token(&settings), Some("T2".to_string()));
    let state = switched_state(load_state(Some("[]")), plan.index, &plan.id, 99);
    assert_eq!(state_account_index(&state, &accounts), Some((1, "a2".to_string())));
    assert_eq!(state.get_i64("updatedAt"), Some(99));
    assert_eq!(current_cli_variant(&accounts, &state, Some(&settings), true), Some(WbVariant::Ai));
    assert_eq!(current_cli_variant(&accounts, &state, None, false), Some(WbVariant::Ai));

    let answer = switch_answer(true, 1, "a2", WbVariant::Ai, Some(WbVariant::Cn), 2);
    assert_eq!(answer.get_bool("regionChanged"), Some(true));
    assert_eq!(answer.get_bool("cliClosed"), Some(true));
    assert_eq!(answer.get_i64("closedProcessCount"), Some(2));
    assert_eq!(answer.get_str("authMode"), Some("settings-env"));
    let answer = switch_answer(false, 1, "a2", WbVariant::Ai, Some(WbVariant::Ai), 0);
    assert_eq!(answer.get_bool("regionChanged"), Some(false));
    assert_eq!(answer.get_str("authMode"), Some("api-key-helper"));
}

#[test]
fn helper_of_another_is_not_replaced() {
    let dir = "/home/me/.codebuddy-rotate";
    let error = |content: &str| match install_helper(Some(content), dir, &unresolved()) {
        Err(e) => e,
        Ok(_) => panic!("must be refused"),
    };
    assert!(error(r#"{"apiKeyHelper": "node /x.js"}"#).contains("apiKeyHelper 命令"));
    assert!(error(r#"{"apiKeyHelper": "/x.js"}"#).contains("已有其他 CodeBuddy CLI helper；"));
    assert!(error("[]").contains("顶层不是对象"));
    assert!(error("{").contains("不是有效 JSON"));
    for name in [HELPER_FILE, LEGACY_HELPER_FILE, LEGACY_WINDOWS_HELPER_FILE] {
        let content = format!(r#"{{"apiKeyHelper": "{dir}/{name}", "keep": 1}}"#);
        let settings = install_helper(Some(&content), dir, &unresolved()).unwrap();
        assert_eq!(settings.get_str("apiKeyHelper"), Some("/home/me/.codebuddy-rotate/helper.cjs"));
        assert_eq!(settings.get_i64("keep"), Some(1));
    }
    let settings = install_helper(None, dir, &unresolved()).unwrap();
    assert_eq!(settings.get_str("apiKeyHelper"), Some("/home/me/.codebuddy-rotate/helper.cjs"));
}

#[test]
fn installation_goes_step_by_step() {
    let mut step = InstallStep::MakeDir;
    let mut n = 0;
    while !matches!(step, InstallStep::Done) {
        step = install_helper_next(step, Ok(()));
        n += 1;
    }
    assert_eq!(n, 7);
}

#[test]
fn failed_installation_is_undone_as_far_as_it_went() {
    let undo = |step: InstallStep| match install_helper_next(step, Err("said".to_string())) {
        InstallStep::Undo { settings, helper, error } => (settings, helper, error),
        _ => panic!("must be undone"),
    };
    let (settings, helper, error) = undo(InstallStep::MakeDir);
    assert!(!settings && !helper && error.contains("无法创建 helper 目录"));
    let (settings, helper, error) = undo(InstallStep::WriteHelper);
    assert!(!settings && !helper && error.contains("无法写入 helper.cjs"));
    let (settings, helper, error) = undo(InstallStep::Permit);
    assert!(!settings && helper && error.contains("执行权限"));
    let (settings, helper, error) = undo(InstallStep::MakeSettingsDir);
    assert!(!settings && helper && error.contains("无法创建 CodeBuddy 配置目录"));
    let (settings, helper, error) = undo(InstallStep::WriteSettings);
    assert!(!settings && helper && error.contains("无法写入 CodeBuddy settings.json"));
    assert_eq!(undo(InstallStep::Check), (true, true, "said".to_string()));
    assert_eq!(undo(InstallStep::Site), (true, true, "said".to_string()));
}

#[test]
fn setting_up_on_windows_writes_the_token() {
    let accounts = vec![j(r#"{"id": "a1", "access_token": "Bearer T"}"#)];
    let auth = install_env_auth(&accounts, &j("{}"), None, None, Some(r#"{"keep": 1}"#)).ok().unwrap();
    assert_eq!(auth.token, "T");
    assert_eq!(auth.edition, WbVariant::Cn);
    assert_eq!(settings_env_token(&auth.settings), Some("T".to_string()));
    assert_eq!(auth.settings.get_i64("keep"), Some(1));
    assert!(install_env_auth(&[], &j("{}"), None, None, None).is_err());
    assert!(install_env_auth(&accounts, &j("{}"), Some("x"), None, None).is_err());
    assert!(install_env_auth(&accounts, &j("{}"), None, Some("public"), None).is_err());
    assert_eq!(install_answer(true, false, false).get_bool("helperPresent"), Some(false));
    assert_eq!(install_answer(false, false, false).get_bool("helperPresent"), Some(true));
    assert_eq!(install_account(&accounts, &j("{}")), Ok(0));
    assert!(install_account(&[], &j("{}")).unwrap_err().contains("账号阶段"));
}

#[test]
fn renewed_token_replaces_only_the_one_before() {
    let accounts = vec![j(r#"{"id": "a1", "access_token": "NEW"}"#), j(r#"{"id": "a2", "access_token": "X"}"#)];
    let state = j(r#"{"activeAccountId": "a1"}"#);
    let sync = |settings: &str, previous: Option<&str>, acc: usize| {
        sync_windows_env_for_account(
            &accounts[acc],
            previous,
            true,
            None,
            Some(&j(settings)),
            &state,
            &accounts,
        )
    };
    match sync(r#"{"env": {"CODEBUDDY_AUTH_TOKEN": "OLD"}}"#, Some("OLD"), 0) {
        Ok(TokenSync::Write { settings, token, edition }) => {
            assert_eq!(token, "NEW");
            assert_eq!(edition, WbVariant::Cn);
            assert_eq!(settings_env_token(&settings), Some("NEW".to_string()));
        }
        _ => panic!("must be written"),
    }
    assert!(matches!(
        sync(r#"{"env": {"CODEBUDDY_AUTH_TOKEN": "NEW"}}"#, Some("OLD"), 0),
        Ok(TokenSync::Synced)
    ));
    assert!(matches!(
        sync(r#"{"env": {"CODEBUDDY_AUTH_TOKEN": "OTHER"}}"#, Some("OLD"), 0),
        Ok(TokenSync::Leave)
    ));
    assert!(matches!(
        sync(r#"{"env": {"CODEBUDDY_AUTH_TOKEN": "OLD"}}"#, Some("OLD"), 1),
        Ok(TokenSync::Leave)
    ));
    assert!(matches!(
        sync_windows_env_for_account(&accounts[0], None, false, Some("x"), None, &state, &accounts),
        Ok(TokenSync::Leave)
    ));
    assert!(sync_windows_env_for_account(&accounts[0], None, true, Some("x"), None, &state, &accounts).is_err());
}

#[test]
fn status_shows_no_token() {
    let accounts = vec![j(r#"{"id": "a1", "nickname": "n", "access_token": "SECRET"}"#)];
    let settings = j(r#"{"env": {"CODEBUDDY_AUTH_TOKEN": "SECRET"}}"#);
    let facts = StatusFacts {
        windows: true,
        process_token: None,
        settings_present: true,
        helper_present: false,
        helper_is_ours: false,
        helper_is_legacy: false,
        supports_ids: false,
        state_path: "/s".to_string(),
    };
    let shown = status(&facts, &accounts, &j("{}"), &settings);
    assert_eq!(shown.get_bool("configured"), Some(true));
    assert_eq!(shown.get_i64("activeIndex"), Some(0));
    assert_eq!(shown.get_str("activeAccountId"), Some("a1"));
    assert_eq!(shown.get_str("activeAccountName"), Some("n"));
    assert_eq!(shown.get_str("activeAccountVariant"), Some("cn"));
    assert_eq!(shown.get_bool("syncPending"), Some(false));
    assert!(!format!("{shown:?}").contains("SECRET"));
}

#[test]
fn region_is_written_into_readable_settings_only() {
    let settings = persist_cli_region_env(Some("{}"), WbVariant::Ai).unwrap();
    assert_eq!(env(&settings, CODEBUDDY_INTERNET_ENVIRONMENT), Some("public"));
    assert!(persist_cli_region_env(Some("{"), WbVariant::Ai).is_err());
    assert!(validate_persisted_env_token(None, "T").is_err());
    assert!(validate_persisted_env_token(Some(&settings), "T").is_err());
}
