use wb_switch_core::codebuddy_cn_ide::{
    active_account_id_from_state, build_session_json, close_codebuddy_cn, codebuddy_cn_app_path,
    detect_current_account, final_wait_ms, first_step, graceful_wait_ms, is_codebuddy_cn_image_name,
    is_codebuddy_cn_running, is_codebuddy_cn_windows_exe, keep_windows_cn_row, launch_codebuddy_cn,
    launch_missing_error, linux_cmdline_is_codebuddy_cn, linux_cn_candidates, linux_exe_is_codebuddy_cn, load_state,
    macos_cn_app_candidates, macos_cn_bundle_patterns, macos_cn_main_patterns, macos_cn_mdfind_app_path,
    macos_cn_running_apps, match_account_for_token,
    parse_session, parse_token_from_secret, parse_windows_process_rows, path_contains_codebuddy_cn_dir,
    set_active_account_id, state_path, status, switch_account, switch_account_next, switch_answer,
    validate_macos_cn_startup, windows_cn_fallback_exe_candidates, windows_cn_registry_exe_candidates, CloseStep, IdeFacts, IdeStep, PathMemory,
    Processes, Startup,
};
use wb_switch_core::codebuddy_cli::System;
use wb_switch_core::json::{from_text, Json};

fn j(text: &str) -> Json {
    from_text(text).expect("JSON")
}

#[test]
fn session_json_includes_uid_plus_token() {
    let acc = j(r#"{
        "uid": "u-42",
        "nickname": "测试",
        "access_token": "tok-abc",
        "refresh_token": "rt-1",
        "domain": "www.codebuddy.cn",
        "expiresAt": 1234567890
    }"#);
    let v = build_session_json(&acc, 5);
    assert_eq!(v.get_str("accessToken"), Some("u-42+tok-abc"));
    assert_eq!(v.get_str("token"), Some("tok-abc"));
    assert_eq!(v.get("auth").unwrap().get_str("accessToken"), Some("tok-abc"));
    assert_eq!(v.get("account").unwrap().get_str("uid"), Some("u-42"));
    assert_eq!(v.get_str("id"), Some("Tencent-Cloud.genie-ide-cn"));
    assert_eq!(v.get("auth").unwrap().get_i64("lastRefreshTime"), Some(5));
    assert_eq!(v.get("auth").unwrap().get_str("tokenType"), Some("Bearer"));
}

#[test]
fn session_gives_back_uid_and_token() {
    let acc = j(r#"{"uid": "u-42", "access_token": "tok-abc"}"#);
    assert_eq!(
        parse_session(&build_session_json(&acc, 5)),
        Some((Some("u-42".to_string()), "tok-abc".to_string()))
    );
}

#[test]
fn parse_token_from_uid_plus_form() {
    let (uid, token) = parse_token_from_secret("uid-1+ACCESS").unwrap();
    assert_eq!(uid.as_deref(), Some("uid-1"));
    assert_eq!(token, "ACCESS");
}

#[test]
fn parse_token_from_session_json() {
    let secret = r#"{"token":"T1","accessToken":"u9+T1","account":{"uid":"u9"}}"#;
    let (uid, token) = parse_token_from_secret(secret).unwrap();
    assert_eq!(uid.as_deref(), Some("u9"));
    assert_eq!(token, "T1");
}

#[test]
fn other_secrets_are_read() {
    assert_eq!(parse_token_from_secret("  "), None);
    assert_eq!(parse_token_from_secret("alone"), Some((None, "alone".to_string())));
    assert_eq!(parse_token_from_secret("alone+ "), Some((None, "alone+".to_string())));
    assert_eq!(parse_token_from_secret("+T"), Some((None, "T".to_string())));
    assert_eq!(parse_token_from_secret("{}"), None);
    assert_eq!(
        parse_token_from_secret(r#"{"auth": {"access_token": "u+T"}, "account": {"id": "i"}}"#),
        Some((Some("i".to_string()), "T".to_string()))
    );
    assert_eq!(
        parse_token_from_secret(r#"{"accessToken": "u+T"}"#),
        Some((Some("u".to_string()), "T".to_string()))
    );
}

#[test]
fn cn_image_name_is_exact_not_international_codebuddy() {
    assert!(is_codebuddy_cn_image_name("CodeBuddy CN.exe"));
    assert!(is_codebuddy_cn_image_name("codebuddy cn"));
    assert!(is_codebuddy_cn_image_name(
        r"D:\Users\Zhou\AppData\Local\Programs\CodeBuddy CN\CodeBuddy CN.exe"
    ));
    assert!(!is_codebuddy_cn_image_name("CodeBuddy.exe"));
    assert!(!is_codebuddy_cn_image_name("CodeBuddy"));
    assert!(!is_codebuddy_cn_image_name("WorkBuddy.exe"));
    assert!(!is_codebuddy_cn_image_name("workbuddy-switch.exe"));
    assert!(!is_codebuddy_cn_image_name("wb-switch"));
    assert!(is_codebuddy_cn_windows_exe(
        r"C:\Users\Zhou\AppData\Local\Programs\CodeBuddy CN\CodeBuddy.exe"
    ));
    assert!(!is_codebuddy_cn_windows_exe(
        r"C:\Users\Zhou\AppData\Local\Programs\CodeBuddy\CodeBuddy.exe"
    ));
}

const ROWS: &str = "\
1001|workbuddy-switch|C:\\apps\\workbuddy-switch.exe
1002|CodeBuddy|D:\\Programs\\CodeBuddy\\CodeBuddy.exe
1003|CodeBuddy CN|D:\\Users\\Zhou\\AppData\\Local\\Programs\\CodeBuddy CN\\CodeBuddy CN.exe
1004|crashpad_handler|C:\\x\\crashpad_handler.exe
1005|wb-switch|
1006|CodeBuddy|C:\\Users\\Zhou\\AppData\\Local\\Programs\\CodeBuddy CN\\CodeBuddy.exe
";

#[test]
fn windows_cn_rows_drop_self_international_and_crashpad() {
    let kept: Vec<u32> = parse_windows_process_rows(ROWS)
        .into_iter()
        .filter(keep_windows_cn_row)
        .map(|row| row.pid)
        .collect();
    assert_eq!(kept, vec![1003, 1006]);
}

#[test]
fn broken_rows_are_passed_over() {
    let rows = parse_windows_process_rows("x|y|z\n7|only\n8|n| p \n99999999999|a|b\n");
    assert_eq!(rows.len(), 1);
    assert_eq!(rows[0].pid, 8);
    assert_eq!(rows[0].name, "n");
    assert_eq!(rows[0].exe_path.as_deref(), Some("p"));
}

#[test]
fn windows_cn_fallback_candidates_include_local_and_program_files() {
    let s = windows_cn_fallback_exe_candidates(
        Some(r"C:\Users\Zhou\AppData\Local"),
        Some(r"C:\Program Files"),
        Some(r"C:\Program Files (x86)"),
        Some("Zhou"),
        &['C'],
        false,
    );
    assert!(s.iter().any(|p| p.contains("Programs") && p.contains("CodeBuddy CN.exe")));
    assert!(s.iter().any(|p| p.contains("CodeBuddy CN") && p.contains("CodeBuddy.exe")));
    assert!(s.iter().any(|p| p.contains("Program Files") && p.contains("CodeBuddy CN.exe")));
    assert!(!s.iter().any(|p| { p.contains("CodeBuddy.exe") && !path_contains_codebuddy_cn_dir(p) }));
}

#[test]
fn places_are_listed_once() {
    let s = windows_cn_fallback_exe_candidates(None, Some("/p"), Some("/p/."), None, &['c', '?'], false);
    assert_eq!(
        s,
        vec![
            "/p/CodeBuddy CN/CodeBuddy CN.exe".to_string(),
            "/p/CodeBuddy CN/CodeBuddy.exe".to_string(),
            "C:/Program Files/CodeBuddy CN/CodeBuddy CN.exe".to_string(),
            "C:/Program Files/CodeBuddy CN/CodeBuddy.exe".to_string(),
        ]
    );
    let s = windows_cn_fallback_exe_candidates(None, Some(r"D:\p"), Some(r"D:\p\"), None, &['c'], true);
    assert_eq!(
        s,
        vec![
            r"D:\p\CodeBuddy CN\CodeBuddy CN.exe",
            r"D:\p\CodeBuddy CN\CodeBuddy.exe",
            r"C:Program Files\CodeBuddy CN\CodeBuddy CN.exe",
            r"C:Program Files\CodeBuddy CN\CodeBuddy.exe",
        ]
    );
}

#[test]
fn linux_cmdline_matcher_accepts_cn_not_switcher() {
    assert!(linux_cmdline_is_codebuddy_cn("/opt/codebuddy-cn/codebuddy-cn --foo"));
    assert!(linux_cmdline_is_codebuddy_cn("/usr/bin/CodeBuddy CN"));
    assert!(linux_exe_is_codebuddy_cn("/usr/bin/codebuddy-cn"));
    assert!(!linux_cmdline_is_codebuddy_cn("/usr/bin/workbuddy-switch"));
    assert!(!linux_cmdline_is_codebuddy_cn("/opt/codebuddy-cn/codebuddy-cn --type=gpu-process"));
    assert!(!linux_exe_is_codebuddy_cn("/usr/bin/codebuddy"));
}

#[test]
fn macos_cn_pattern_fallback_does_not_match_international_codebuddy() {
    assert_eq!(macos_cn_main_patterns(None), vec!["CodeBuddy CN.app/Contents/MacOS".to_string()]);
    assert_eq!(macos_cn_bundle_patterns(None), vec!["CodeBuddy CN.app".to_string()]);
    assert_eq!(
        macos_cn_main_patterns(Some("/Applications/CodeBuddy CN.app")),
        vec!["/Applications/CodeBuddy CN.app/Contents/MacOS".to_string()]
    );
    let s = macos_cn_app_candidates("/Users/tester");
    assert_eq!(
        s,
        vec![
            "/Applications/CodeBuddy CN.app".to_string(),
            "/Users/tester/Applications/CodeBuddy CN.app".to_string(),
        ]
    );
    assert!(!s.iter().any(|p| p.ends_with("CodeBuddy.app")));
}

#[test]
fn macos_cn_ps_filter_excludes_self_and_international() {
    let self_pid = 5999;
    let rows = vec![
        (self_pid, "/Applications/workbuddy-switch.app/Contents/MacOS/wb-switch".to_string()),
        (6001, "/Applications/CodeBuddy CN.app/Contents/MacOS/CodeBuddy CN --foo".to_string()),
        (6002, "/Applications/CodeBuddy.app/Contents/MacOS/CodeBuddy".to_string()),
        (6003, "/bin/zsh -c 'echo CodeBuddy CN.app mention via wb-switch'".to_string()),
        (6004, "/Applications/CodeBuddy CN.app/Contents/Resources/helper".to_string()),
    ];
    let processes = Processes::Mac(rows, None);
    assert_eq!(processes.codebuddy_cn_pids(self_pid, true), vec![6001]);
    assert_eq!(processes.codebuddy_cn_pids(self_pid, false), vec![6001, 6004]);
    assert!(is_codebuddy_cn_running(&processes, self_pid));
}

#[test]
fn running_editor_is_seen_on_each_system() {
    let windows = Processes::Windows(parse_windows_process_rows(ROWS));
    assert_eq!(windows.codebuddy_cn_pids(1003, true), vec![1006]);
    let linux = Processes::Linux(vec![
        (1, None, "/usr/bin/CodeBuddy CN".to_string()),
        (2, Some("/usr/bin/codebuddy-cn".to_string()), String::new()),
        (3, Some("/bin/bash".to_string()), "bash".to_string()),
    ]);
    assert_eq!(linux.codebuddy_cn_pids(0, true), vec![1, 2]);
    assert!(!is_codebuddy_cn_running(&Processes::Linux(vec![]), 0));
}

#[test]
fn remembered_account_is_read_back() {
    let state = set_active_account_id(load_state(None), "a1", 9);
    assert_eq!(active_account_id_from_state(&state), Some("a1".to_string()));
    assert_eq!(state.get_i64("updatedAt"), Some(9));
    let kept = set_active_account_id(load_state(Some("[1]")), "a1", 9);
    assert_eq!(active_account_id_from_state(&kept), None);
    assert_eq!(state_path("/s"), "/s/codebuddy_cn_ide.json");
}

#[test]
fn secret_is_matched_to_an_account() {
    let accounts = vec![
        j(r#"{"id": "a1", "uid": "u1", "access_token": "T1"}"#),
        j(r#"{"id": "a2", "uid": "u2", "access_token": "T2"}"#),
    ];
    assert_eq!(match_account_for_token(&accounts, Some("u2"), "T1").unwrap().get_str("id"), Some("a2"));
    assert_eq!(match_account_for_token(&accounts, Some("?"), "T1").unwrap().get_str("id"), Some("a1"));
    assert!(match_account_for_token(&accounts, None, "T3").is_none());

    let (answer, id) = detect_current_account(Some("u2+T2"), &accounts).unwrap();
    assert_eq!(id, Some("a2".to_string()));
    assert_eq!(answer.get_bool("matched"), Some(true));
    assert!(!format!("{answer:?}").contains("T2"));
    let (answer, id) = detect_current_account(Some("x+T9"), &accounts).unwrap();
    assert_eq!((answer.get_bool("matched"), id), (Some(false), None));
    let (answer, _) = detect_current_account(None, &accounts).unwrap();
    assert_eq!(answer.get_bool("found"), Some(false));
    assert!(detect_current_account(Some(" "), &accounts).unwrap_err().contains("解析失败"));
}

#[test]
fn editor_is_looked_for_in_order() {
    let places = vec![("/a".to_string(), false), ("/b".to_string(), true)];
    let found = codebuddy_cn_app_path(Some("/run"), Some("/old"), true, &places, false);
    assert_eq!(found.path.as_deref(), Some("/run"));
    assert!(matches!(found.memory, PathMemory::Save));
    let found = codebuddy_cn_app_path(Some("/run"), Some("/run/."), true, &places, false);
    assert!(matches!(found.memory, PathMemory::Keep));
    let found = codebuddy_cn_app_path(None, Some("/old"), true, &places, false);
    assert_eq!(found.path.as_deref(), Some("/old"));
    let found = codebuddy_cn_app_path(None, Some("/old"), false, &places, false);
    assert_eq!(found.path.as_deref(), Some("/b"));
    assert!(matches!(found.memory, PathMemory::Save));
    let found = codebuddy_cn_app_path(None, Some("/old"), false, &[], false);
    assert_eq!(found.path, None);
    assert!(matches!(found.memory, PathMemory::Clear));
    assert_eq!(linux_cn_candidates()[0], "/usr/bin/codebuddy-cn");
}

#[test]
fn closing_goes_from_asking_to_forcing() {
    let step = close_codebuddy_cn(System::Linux, None, vec![4, 5]);
    assert!(matches!(&step, CloseStep::Ask(p) if *p == vec![4, 5]));
    let step = close_codebuddy_cn(System::Linux, Some(step), vec![5]);
    assert!(matches!(&step, CloseStep::Force(p) if *p == vec![5]));
    match close_codebuddy_cn(System::Linux, Some(step), vec![5, 6]) {
        CloseStep::Failed(e) => {
            assert_eq!(e, "CodeBuddy CN 进程无法关闭（残留进程: 5, 6）。请手动执行: kill -9 5 6")
        }
        _ => panic!("must fail"),
    }
    assert!(matches!(close_codebuddy_cn(System::Windows, None, vec![]), CloseStep::Done));
    assert!(matches!(close_codebuddy_cn(System::Mac, None, vec![]), CloseStep::Ask(_)));
    assert_eq!(graceful_wait_ms(System::Linux, 20, 0), 8000);
    assert_eq!(graceful_wait_ms(System::Mac, 3, 2950), 100);
    assert_eq!(final_wait_ms(System::Linux, 20, 0), 12000);
    assert_eq!(final_wait_ms(System::Windows, 20, 19500), 1000);
    assert_eq!(final_wait_ms(System::Mac, 0, 5000), 100);
}

#[test]
fn start_is_watched() {
    assert!(matches!(validate_macos_cn_startup("/a", None, 0, false), Startup::Watch(None)));
    assert!(matches!(validate_macos_cn_startup("/a", None, 500, true), Startup::Watch(Some(500))));
    assert!(matches!(validate_macos_cn_startup("/a", Some(500), 10500, true), Startup::Up));
    match validate_macos_cn_startup("/a", Some(500), 1000, false) {
        Startup::Failed(e) => assert!(e.contains("立即退出") && e.contains("/a")),
        _ => panic!("must fail"),
    }
    match validate_macos_cn_startup("/a", None, 30000, true) {
        Startup::Failed(e) => assert!(e.contains("超时")),
        _ => panic!("must fail"),
    }
}

#[test]
fn failed_start_says_why() {
    assert_eq!(launch_codebuddy_cn("/a", Some((true, Some(0), vec![]))), Ok(()));
    assert_eq!(
        launch_codebuddy_cn("/a", Some((false, Some(3), b" no \n".to_vec()))),
        Err("启动 CodeBuddy CN 失败: no（路径: /a）".to_string())
    );
    assert_eq!(
        launch_codebuddy_cn("/a", Some((false, None, vec![]))),
        Err("启动 CodeBuddy CN 失败: open 退出码 -1（路径: /a）".to_string())
    );
    assert_eq!(
        launch_codebuddy_cn("/a", None),
        Err("启动 CodeBuddy CN 失败: open 超时（路径: /a）".to_string())
    );
    assert!(launch_missing_error(System::Linux, None).contains("/usr/bin/codebuddy-cn"));
    assert!(launch_missing_error(System::Mac, Some("/x")).contains("/x"));
}

#[test]
fn handing_over_is_refused_early() {
    let accounts = vec![j(r#"{"id": "a1", "access_token": "T"}"#), j(r#"{"id": "a2"}"#)];
    let dir = Some(("/d".to_string(), true));
    let error = |id: &str, dir: &Option<(String, bool)>| match switch_account(&accounts, id, dir) {
        Err(e) => e,
        Ok(_) => panic!("must be refused"),
    };
    assert_eq!(error("a3", &dir), "账号不存在: a3");
    assert!(error("a2", &dir).contains("缺少 access_token"));
    assert!(error("a1", &None).contains("无法定位"));
    assert!(error("a1", &Some(("/d".to_string(), false))).contains("未找到 CodeBuddy CN 用户数据目录（/d）"));
    assert_eq!(switch_account(&accounts, "a1", &dir).unwrap().get_str("id"), Some("a1"));
}

#[test]
fn handing_over_goes_step_by_step() {
    let mut steps = 0;
    let mut step = first_step(true);
    while !matches!(step, IdeStep::Done) {
        step = switch_account_next(step, true, Ok(()));
        steps += 1;
    }
    assert_eq!(steps, 4);
    let step = switch_account_next(first_step(false), false, Ok(()));
    assert!(matches!(step, IdeStep::Remember));
    assert!(matches!(switch_account_next(step, false, Ok(())), IdeStep::Done));
    match switch_account_next(IdeStep::Inject, true, Err("no Keychain".to_string())) {
        IdeStep::Failed(e) => assert!(e.starts_with("注入登录状态失败：no Keychain")),
        _ => panic!("must fail"),
    }
    match switch_account_next(IdeStep::Inject, true, Err("no".to_string())) {
        IdeStep::Failed(e) => assert_eq!(e, "no"),
        _ => panic!("must fail"),
    }
    let acc = j(r#"{"nickname": "n"}"#);
    assert_eq!(switch_answer(&acc, "a1", "/db", true).get_str("message"), Some("已切换 CodeBuddy IDE 到 n 并重启"));
}

#[test]
fn vanished_account_is_not_shown() {
    let facts = IdeFacts {
        data_dir: Some(("/d".to_string(), false)),
        db_path: None,
        app_path: None,
        running: false,
        state_path: "/s".to_string(),
    };
    let state = j(r#"{"activeAccountId": " a1 "}"#);
    let accounts = vec![j(r#"{"id": "a1", "nickname": "n"}"#)];
    let shown = status(&facts, &state, &accounts);
    assert_eq!(shown.get_str("activeAccountName"), Some("n"));
    assert_eq!(shown.get_bool("installed"), Some(false));
    assert_eq!(shown.get_str("dataDir"), Some("/d"));
    let shown = status(&facts, &state, &[]);
    assert!(matches!(shown.get("activeAccountId"), Some(Json::Null)));
}

#[test]
fn the_running_editor_names_its_bundle() {
    let rows = [
        (1, "/Applications/CodeBuddy CN.app/Contents/MacOS/Electron --x".to_string()),
        (2, "/Applications/Other.app/Contents/MacOS/Other".to_string()),
        (3, "/x/wb-switch /Applications/CodeBuddy CN.app/Contents/MacOS/Electron".to_string()),
    ];
    assert_eq!(macos_cn_running_apps(&rows), vec!["/Applications/CodeBuddy CN.app"]);
    assert_eq!(macos_cn_mdfind_app_path("\n  /A/CodeBuddy CN.app \n/B.app\n").as_deref(), Some("/A/CodeBuddy CN.app"));
    assert_eq!(macos_cn_mdfind_app_path(" \n"), None);
}

#[test]
fn the_registry_names_the_editor_once() {
    let printed = "\"C:\\P\\CodeBuddy CN\\CodeBuddy CN.exe\",0\r\n\
        C:\\P\\CodeBuddy CN\\CodeBuddy CN.exe\r\n\
        C:/P/CodeBuddy CN\\\\CodeBuddy CN.exe\r\n\
        C:\\P\\CodeBuddy\\CodeBuddy.exe\r\n\r\n\
        D:\\CodeBuddy CN\\CodeBuddy.exe,-1\r\n\
        C:\\P\\CodeBuddy CN\\wb-switch.exe\r\n";
    assert_eq!(
        windows_cn_registry_exe_candidates(printed),
        vec!["C:\\P\\CodeBuddy CN\\CodeBuddy CN.exe", "D:\\CodeBuddy CN\\CodeBuddy.exe"]
    );
}
