use std::collections::BTreeSet;

use chrono::{Local, TimeZone};
use wb_switch_core::json::{from_text, Json};
use wb_switch_core::limits::{
    account_by_session, account_id_by_uid, build_payload, cached_scan, cli_logs_root, cli_state_path,
    codebuddy_ide_data_dir, collect_events, config_saved, dedupe, hook_sources, invalidate_scan_cache, report_time,
    resolve, resolve_by_uid, scan_ide_logs_of, scan_scope, scan_sources, window_start, windowed_log_files,
    ActiveAccount, CodeBuddyIdeFlavor, Event, LogEntry, Resolved, ScanCache, ScanDecision, ScanScope, ScanSource,
    SourceLog, SourceLogs, CLI_DATA_DIR, CLI_ROTATE_DIR, CLI_STATE_FILE, DAY_MS, IDE_LOG_DIR_NAME, LOG_DIR_NAME,
    SCAN_MIN_INTERVAL_MS, WINDOW_DAYS,
};
use wb_switch_core::log_scan;
use wb_switch_core::log_scan::{
    contains, scan_text, scan_text_scoped, session_from_file_name, AuthMarker, Hit, LogFormat, LONG_LINE_SNIFF_BYTES,
    QUOTA_EN, QUOTA_ZH,
};
use wb_switch_core::textmap::TextMap;
use wb_switch_core::variant::WbVariant;

fn j(text: &str) -> Json {
    from_text(text).expect("JSON")
}

fn chars(line: &str) -> Vec<char> {
    line.chars().collect()
}

fn text(found: Option<&[char]>) -> Option<String> {
    found.map(|s| s.iter().collect())
}

fn line_timestamp(line: &str, format: LogFormat) -> Option<i64> {
    log_scan::line_timestamp(&chars(line), format)
}

fn parse_reset_at(line: &str) -> Option<i64> {
    log_scan::parse_reset_at(&chars(line))
}

fn request_pair(line: &str) -> Option<(String, String)> {
    let line = chars(line);
    log_scan::request_pair(&line).map(|(a, b)| (a.iter().collect(), b.iter().collect()))
}

fn ide_conversation_id(line: &str) -> Option<String> {
    text(log_scan::ide_conversation_id(&chars(line)))
}

fn ide_json_model(line: &str) -> Option<String> {
    text(log_scan::ide_json_model(&chars(line)))
}

fn json_field(line: &str, key: &str) -> Option<String> {
    text(log_scan::json_field(&chars(line), key))
}

fn file(path: &str, content: &str) -> (String, Vec<u8>) {
    (path.to_string(), content.as_bytes().to_vec())
}

fn entry(path: &str, modified: i64) -> LogEntry {
    LogEntry { parts: path.split('/').map(str::to_string).collect(), modified: Some(modified) }
}

const CN_RESET_AT: i64 = 1_789_639_167_000;

const EN_RESET_AT: i64 = 1_789_354_761_000;

const SDK_OCCURRED_AT: i64 = 1_789_575_631_523;

const CN_SESSION: &str = "387a486d-b5c9-473d-b823-121db59f0084";

const CN_REQUEST: &str = "34fccb8a1ed74da39dea5481eba85b46";

const EN_SESSION: &str = "9b9130df-3665-4fdc-9ae7-65c23c8f8edd";

const EN_REQUEST: &str = "4d83788eb9de41d08424eb2b64c08bd3";

fn business_line(timestamp: &str, body: &str) -> String {
    format!("[{timestamp}] [Error] [pid=1] {body}")
}

#[test]
fn sdk_send_prompt_supplies_the_model_via_file_session() {
    let session = "b3df1149-8a3f-4d73-b7a4-c71c46e15762";
    let quota = cn_quota_with(session, CN_REQUEST, "2026-09-19 13:49:50");
    let text = [
        "2026-09-18T07:37:17.657Z method:sendPrompt {\"instanceId\":\"ci-3\",\"modelId\":\"hy4-preview-f\"}"
            .to_string(),
        format!("2026-09-18T07:40:22.997Z runtime.applyStopReason {{\"preview\":\"{quota}\"}}"),
    ]
    .join("\n");
    let events = dedupe(scan_text_scoped(
        &text,
        LogFormat::WorkBuddy,
        AuthMarker::Absent,
        Some(session),
    ));
    assert_eq!(events.len(), 1);
    assert_eq!(events[0].model.as_deref(), Some("hy4-preview-f"));
    let without = dedupe(scan_text(&text, LogFormat::WorkBuddy, AuthMarker::Absent));
    assert_eq!(without[0].model, None);
}

#[test]
fn sdk_auto_is_not_a_model_name() {
    let session = "b3df1149-8a3f-4d73-b7a4-c71c46e15762";
    let quota = format!(
        "2026-09-18T07:40:22.997Z runtime.applyStopReason {{\"preview\":\"{}\"}}",
        cn_quota_with(session, CN_REQUEST, "2026-09-19 13:49:50")
    );
    let sdk_line = |model: &str| {
        format!(
            "2026-09-18T07:37:17.657Z method:sendPrompt {{\"instanceId\":\"ci-3\",\"modelId\":\"{model}\"}}"
        )
    };
    let scan = |text: &str| {
        dedupe(scan_text_scoped(
            text,
            LogFormat::WorkBuddy,
            AuthMarker::Absent,
            Some(session),
        ))
    };

    let only_auto = scan(&[sdk_line("auto"), quota.clone()].join("\n"));
    assert_eq!(only_auto.len(), 1);
    assert_eq!(only_auto[0].model, None, "auto 是未知哨兵，不是模型名");

    let after_known =
        scan(&[sdk_line("hy4-preview-f"), sdk_line("auto"), quota.clone()].join("\n"));
    assert_eq!(after_known.len(), 1);
    assert_eq!(
        after_known[0].model.as_deref(),
        Some("hy4-preview-f"),
        "未知值不得覆盖已知的模型线索"
    );
}

#[test]
fn accepts_both_business_timestamp_styles() {
    for ts in ["9/17/2026, 12:20:31 AM.232", "2026/9/18 15:46:30.242"] {
        let events = dedupe(workbuddy_hits(&business_line(ts, &cn_quota())));
        assert_eq!(events.len(), 1, "时间戳 {ts} 未被解析");
    }
}

#[test]
fn workbuddy_quota_lines_without_event_identity_are_dropped() {
    let text = [
        "[2026/9/18 20:09:00.000] [Info] [pid=9999] [AgentClassifier] refusal classified category=quota sessionId=aaaaaaaa-bbbb-4ccc-8ddd-eeeeeeeeeeee",
        &config_line("aaaaaaaa-bbbb-4ccc-8ddd-eeeeeeeeeeee", "glm-5.3-flash"),
        "[2026/9/18 20:10:00.000] [Info] [pid=9999] [BashTool] execute start | command=\"grep 429 您的使用量已超出频率限制，将在 2026-09-19 13:49:50 UTC+8 重置 logs/\"",
    ]
    .join("\n");
    let events = dedupe(workbuddy_hits(&text));
    assert!(events.is_empty(), "无身份的限额文案行不得入账");
}

#[test]
fn transport_lines_are_neither_events_nor_model_context() {
    let other_session = "aaaaaaaa-bbbb-4ccc-8ddd-eeeeeeeeeeee";
    let text = [
        provider_line(CN_REQUEST, "hy4-preview-f"),
        business_line("2026/9/18 15:46:30.242", &cn_quota()),
        config_line(other_session, "glm-5.3-flash"),
        format!(
            "[2026/9/18 20:10:00.000] [Info] [pid=9999] [SandboxShell] ProcessOutput | processId=pipe-1 | stream=stdout | dataLen=1980 | content= 2026-09-19 13:49:50 UTC+8 重置，您也可以切换其他模型继续使用。 ({}/{}",
            &CN_REQUEST[..12], other_session
        ),
        format!(
            "[2026/9/18 20:10:01.000] [Info] [pid=9999] [SandboxShell] ProcessOutput | processId=pipe-2 | stream=stdout | dataLen=900 | content=\"{}\"",
            business_line("2026/9/18 15:46:30.242", &cn_quota())
        ),
        format!(
            "[2026/9/18 20:10:02.000] [Info] [pid=9999] [SandboxShell] ProcessOutput | processId=pipe-3 | stream=stdout | dataLen=220 | content=[ModelProvider] Sending request: agent=cli, model=glm-5.3-flash, requestId=zzz{}, stream=true",
            &CN_REQUEST[3..]
        ),
    ]
    .join("\n");
    let events = dedupe(workbuddy_hits(&text));
    assert_eq!(events.len(), 1, "回显行不得产生事件");
    assert_eq!(
        events[0].model.as_deref(),
        Some("hy4-preview-f"),
        "归因必须来自真实 Sending request 行，而不是回显"
    );
}

#[test]
fn real_quota_lines_mentioning_stdout_are_not_dropped() {
    let workbuddy = business_line(
        "2026/9/18 15:46:30.242",
        &format!(
            "[Error] [Interruption] httpStatus=429, tool echo truncated: stdout(…) stderr(…) content=truncated {}",
            cn_quota()
        ),
    );
    let events = dedupe(workbuddy_hits(&workbuddy));
    assert_eq!(
        events.len(),
        1,
        "正文里的 stdout(/content= 不得让真事件消失"
    );
    assert_eq!(events[0].reset_at, CN_RESET_AT);

    let ide = ide_line(
        "2026-09-17 10:28:26.741",
        &format!(
            "[AgentReporter] [{IDE_TRACE}] Agent execution failed: {{\"statusCode\":429,\"requestBodyValues\":{{\"model\":\"{IDE_MODEL}\"}},\"responseHeaders\":{{\"x-request-id\":\"{IDE_REQUEST}\"}},\"toolOutput\":\"stdout(truncated) stderr(truncated) content=truncated\",\"message\":\"429 {IDE_QUOTA}\"}}"
        ),
    );
    let events = dedupe(scan_text(
        &ide,
        LogFormat::Ide,
        AuthMarker::AuthSessionChanged,
    ));
    assert_eq!(events.len(), 1, "IDE 正文里的 stdout( 不得让真事件消失");
    assert_eq!(events[0].reset_at, CN_RESET_AT);
    assert_eq!(events[0].model.as_deref(), Some(IDE_MODEL));
}

#[test]
fn cli_quota_lines_without_event_identity_are_kept() {
    let text = [
        cli_auth_line("9/15/2026, 2:07:59 PM.057", UID_A),
        business_line(
            "9/15/2026, 2:08:10 PM.000",
            "429 您的使用量已超出频率限制，将在 2026-09-17 17:59:27 UTC+8 重置，您也可以切换其他模型继续使用。",
        ),
    ]
    .join("\n");

    let cli = dedupe(scan_text(
        &text,
        LogFormat::WorkBuddy,
        AuthMarker::AuthDoInitProbe,
    ));
    assert_eq!(cli.len(), 1, "CLI 缺 session_id 不得被丢弃");
    assert_eq!(cli[0].session_id, None);
    assert_eq!(cli[0].reset_at, CN_RESET_AT);
    assert_eq!(cli[0].uid.as_deref(), Some(UID_A), "uid 归因链照常工作");

    assert!(
        dedupe(workbuddy_hits(&text)).is_empty(),
        "WorkBuddy 两档位无事件身份仍要丢弃"
    );
}

fn cn_quota_with(session: &str, request: &str, reset: &str) -> String {
    format!(
        "429 您的使用量已超出频率限制，将在 {reset} UTC+8 重置，您也可以切换其他模型继续使用。 ({request}/{session})"
    )
}

fn cn_quota() -> String {
    cn_quota_with(CN_SESSION, CN_REQUEST, "2026-09-17 17:59:27")
}

fn en_quota() -> String {
    format!(
        "429 usage exceeds frequency limit, please try later, will reset at 2026-09-14 10:59:21 UTC+8, switch to another model. ({EN_REQUEST}/{EN_SESSION})"
    )
}

fn config_line(session: &str, model: &str) -> String {
    format!("[ModelConfig] sessionId={session}, resolved model={model} for agent=cli, requestOptions.model={model}")
}

fn provider_line(request: &str, model: &str) -> String {
    format!(
        "[ModelProvider] Sending request: agent=cli, model={model}, requestId={request}, stream=true"
    )
}

fn workbuddy_hits(text: &str) -> Vec<Hit> {
    scan_text(text, LogFormat::WorkBuddy, AuthMarker::Absent)
}

const IDE_CONV: &str = "b3cca2525ba544debd0abc63ca69f8b9";

const IDE_OTHER_CONV: &str = "a12075d16ada4fbba38047b0d879db2b";

const IDE_REQUEST: &str = "0ffa4f2d001e4aee92e1cd6ce6a709c2";

const IDE_TRACE: &str = "8e090575f6032a82163c94dc3d65e9ba";

const IDE_MODEL: &str = "deepseek-v4.1-flash";

const UID_A: &str = "f0ae9eeb-8476-4ef5-9a3e-1d6339d545da";

const UID_B: &str = "2e649415-05c1-4c8a-8736-6b8e3aac0f9a";

const IDE_QUOTA: &str = "您的使用量已超出频率限制，将在 2026-09-17 17:59:27 UTC+8 重置，您也可以切换其他模型继续使用。";

fn ide_line(timestamp: &str, body: &str) -> String {
    format!("{timestamp} [error] {body}")
}

fn ide_auth_line(uid: &str) -> String {
    format!(
        "2026-09-17 10:26:01.772 [info] [PulseServiceLifecycle] Auth session changed: hasSession=true, initialized=true, uid={uid}"
    )
}

fn cli_auth_line(timestamp: &str, uid: &str) -> String {
    business_line(
        timestamp,
        &format!(
            "[AuthenticationManager]  [FirstScreen] [AuthDoInitProbe] stage=fastPathBeforeEmit totalMs=591 sinceLastMs=0 uid={uid} hasAccessToken=true"
        ),
    )
}

fn ide_event_lines(conversation: &str, uid: &str) -> String {
    let quota = IDE_QUOTA;
    let notify_step_error = ide_line(
        "2026-09-17 10:28:26.730",
        &format!(
            "[BaseAgent:craft] [{IDE_REQUEST}]  notifyStepError responseBody: \"{{\\\"code\\\":6004,\\\"msg\\\":\\\"{quota}\\\",\\\"requestId\\\":\\\"{IDE_REQUEST}\\\"}}\""
        ),
    );
    let agent_execution_failed = ide_line(
        "2026-09-17 10:28:26.741",
        &format!(
            "[AgentReporter] [{IDE_TRACE}]  Agent execution failed: {{\"name\":\"AI_APICallError\",\"url\":\"https://copilot.tencent.com/v2/chat/completions\",\"requestBodyValues\":{{\"model\":\"{IDE_MODEL}\"}},\"statusCode\":429,\"responseHeaders\":{{\"x-request-id\":\"{IDE_REQUEST}\",\"x-user-id\":\"{uid}\"}},\"responseBody\":\"{{\\\"code\\\":6004,\\\"msg\\\":\\\"{quota}\\\"}}\",\"message\":\"{quota}\",\"code\":6004}}"
        ),
    );
    let lines = [
        notify_step_error,
        agent_execution_failed,
        ide_line(
            "2026-09-17 10:28:26.746",
            &format!("[CraftInvokableAgent] [{IDE_TRACE}]  Execution failed: {quota}"),
        ),
        ide_line(
            "2026-09-17 10:28:26.746",
            &format!("[CraftInvokableAgent] [{IDE_TRACE}]  Agent call failed: {quota}"),
        ),
        ide_line(
            "2026-09-17 10:28:26.748",
            &format!("[handleAuthError] modelId={IDE_MODEL}, baseUrl=undefined, officialEndpoint=https://copilot.tencent.com, isCustomAuthFailure=false"),
        ),
        ide_line(
            "2026-09-17 10:28:26.749",
            &format!(
                "[ResultHandler.handleError]  errorMessage {{\"requestId\":\"acp-{conversation}-1789612105908\",\"complete\":true,\"error\":{{\"code\":6004,\"message\":\"{quota}\",\"traceId\":\"{IDE_TRACE}\",\"model\":\"{IDE_MODEL}\"}},\"isEnd\":true,\"conversationId\":\"{conversation}\"}}"
            ),
        ),
        ide_line(
            "2026-09-17 10:28:26.751",
            &format!("[AcpAgent:{conversation}] Session error: {quota}"),
        ),
        ide_line(
            "2026-09-17 10:28:26.751",
            &format!(
                "[AgentSessionManager] executeAsync FAILED: conversationId={conversation}, errorCode=6004, traceId={IDE_TRACE}, message={quota}"
            ),
        ),
        ide_line(
            "2026-09-17 10:28:26.751",
            &format!(
                "[[acp-conn]] [AgentCraftError: {quota}]  [AcpConnection:{conversation}] Error handling request:"
            ),
        ),
    ];
    lines.join("\n")
}

fn ide_model_selection_line(conversation: &str, model: &str) -> String {
    ide_line(
        "2026-09-17 10:28:25.919",
        &format!(
            "[ModelSelection] conversationId={conversation}, mode=craft, modelId={model}, source=user-selected"
        ),
    )
}

fn ide_quota_line(timestamp: &str, conversation: &str) -> String {
    ide_line(
        timestamp,
        &format!("[AcpAgent:{conversation}] Session error: {IDE_QUOTA}"),
    )
}

#[test]
fn byte_filter_matches_multibyte_and_ascii_markers() {
    assert!(contains(cn_quota().as_bytes(), QUOTA_ZH.as_bytes()));
    assert!(contains(
        b"x usage exceeds frequency limit y",
        QUOTA_EN.as_bytes()
    ));
    assert!(!contains(b"nothing to see", QUOTA_EN.as_bytes()));
    assert!(!contains(b"", QUOTA_ZH.as_bytes()));
    assert!(!contains(b"", b""));
    assert!(!contains(b"aaa", b"aaaa"));
    assert!(contains(b"aaaa", b"aaaa"));
    assert!(contains(b"abcabcabd", b"abcabd"));
    assert!(contains(b"xxababacyy", b"ababac"));
    assert!(!contains(b"xxabababyy", b"ababac"));
}

#[test]
fn parses_chinese_and_english_reset_times() {
    assert_eq!(parse_reset_at(&cn_quota()), Some(CN_RESET_AT));
    assert_eq!(parse_reset_at(&en_quota()), Some(EN_RESET_AT));
    assert_eq!(
        parse_reset_at("429 您的使用量已超出频率限制，将在 2026-09-17 17:59:27 重置"),
        None
    );
}

#[test]
fn parses_utc_offsets_the_official_text_may_use() {
    let at = |offset: &str| {
        parse_reset_at(&format!(
            "将在 2026-09-17 17:59:27 UTC{offset} 重置，您也可以切换其他模型继续使用。"
        ))
    };
    assert_eq!(at("+8"), Some(CN_RESET_AT));
    assert_eq!(at("+08"), Some(CN_RESET_AT));
    assert_eq!(at("+08:00"), Some(CN_RESET_AT));
    assert_eq!(at("+0800"), Some(CN_RESET_AT));
    assert_eq!(at("+7"), Some(CN_RESET_AT + 3_600_000));
    assert_eq!(at(""), None);
}

#[test]
fn business_log_timestamp_is_local_while_sdk_log_timestamp_is_utc() {
    let local = Local
        .with_ymd_and_hms(2026, 9, 17, 0, 20, 31)
        .earliest()
        .expect("测试时间必须存在");
    assert_eq!(
        line_timestamp(
            &business_line("9/17/2026, 12:20:31 AM.232", "[Info] x"),
            LogFormat::WorkBuddy,
        ),
        Some(local.timestamp_millis() + 232)
    );
    assert_eq!(
        line_timestamp(
            "2026-09-16T16:20:31.523Z runtime.applyStopReason {}",
            LogFormat::WorkBuddy,
        ),
        Some(SDK_OCCURRED_AT)
    );
    assert_eq!(
        line_timestamp("no timestamp here", LogFormat::WorkBuddy),
        None
    );
}

#[test]
fn parses_the_trailing_request_id_pair() {
    assert_eq!(
        request_pair(&cn_quota()),
        Some((CN_REQUEST.to_string(), CN_SESSION.to_string()))
    );
    assert_eq!(
        request_pair(&format!(
            "x ({CN_REQUEST}/{CN_SESSION}), lastPendingTool=(none)"
        )),
        Some((CN_REQUEST.to_string(), CN_SESSION.to_string())),
        "取行尾括号，忽略 `(none)` 这种非时间戳括号"
    );
    assert_eq!(request_pair("no pair here"), None);
    assert_eq!(
        request_pair(&format!("({CN_REQUEST}/{CN_REQUEST})")),
        None,
        "会话 id 不是 36 位 uuid 时不认"
    );
}

#[test]
fn model_attribution_falls_back_request_id_then_session_then_unknown() {
    let with_request = [
        business_line(
            "9/17/2026, 12:20:03 AM.349",
            &config_line(CN_SESSION, "hy3"),
        ),
        business_line(
            "9/17/2026, 12:20:30 AM.838",
            &provider_line(CN_REQUEST, "deepseek-v4.1-flash"),
        ),
        business_line("9/17/2026, 12:20:31 AM.232", &cn_quota()),
    ]
    .join("\n");
    let events = dedupe(workbuddy_hits(&with_request));
    assert_eq!(events.len(), 1);
    assert_eq!(events[0].model.as_deref(), Some("deepseek-v4.1-flash"));

    let with_session = [
        business_line(
            "9/17/2026, 12:20:03 AM.349",
            &config_line(CN_SESSION, "hy3"),
        ),
        business_line("9/17/2026, 12:20:31 AM.232", &cn_quota()),
    ]
    .join("\n");
    let events = dedupe(workbuddy_hits(&with_session));
    assert_eq!(events[0].model.as_deref(), Some("hy3"));

    let without_model = business_line("9/17/2026, 12:20:31 AM.232", &cn_quota());
    let events = dedupe(workbuddy_hits(&without_model));
    assert_eq!(events[0].model, None);
}

#[test]
fn attributes_the_limited_model_not_the_one_switched_to_afterwards() {
    let text = [
        business_line(
            "9/17/2026, 12:20:03 AM.349",
            &config_line(CN_SESSION, "hy3"),
        ),
        business_line(
            "9/17/2026, 12:20:30 AM.838",
            &provider_line(CN_REQUEST, "deepseek-v4.1-flash"),
        ),
        business_line("9/17/2026, 12:20:31 AM.232", &cn_quota()),
        business_line(
            "9/17/2026, 12:21:54 AM.388",
            &config_line(CN_SESSION, "hy3"),
        ),
    ]
    .join("\n");
    let events = dedupe(workbuddy_hits(&text));
    assert_eq!(events.len(), 1);
    assert_eq!(events[0].model.as_deref(), Some("deepseek-v4.1-flash"));
}

#[test]
fn request_options_model_is_not_mistaken_for_the_request_model() {
    let text = [
        business_line(
            "9/17/2026, 12:20:03 AM.349",
            &config_line("other", "kimi-k3-1"),
        ),
        business_line(
            "9/17/2026, 12:20:30 AM.838",
            &format!("[ModelProvider] requestId={CN_REQUEST}, requestOptions.model=glm-5.2"),
        ),
        business_line("9/17/2026, 12:20:31 AM.232", &cn_quota()),
    ]
    .join("\n");
    let events = dedupe(workbuddy_hits(&text));
    assert_eq!(
        events[0].model, None,
        "带点号的 `requestOptions.model=` 不是请求模型字段"
    );
}

#[test]
fn classifier_line_supplies_the_session_when_the_pair_is_missing() {
    let text = [
        business_line(
            "9/17/2026, 12:20:31 AM.467",
            &format!(
                "[ACP Agent] refusal classified: sessionId={CN_SESSION}, rpcCode=-32003, httpStatus=429, bizCode=6004, category=quota"
            ),
        ),
        business_line(
            "9/17/2026, 12:20:31 AM.468",
            "429 您的使用量已超出频率限制，将在 2026-09-17 17:59:27 UTC+8 重置，您也可以切换其他模型继续使用。",
        ),
    ]
    .join("\n");
    let events = dedupe(workbuddy_hits(&text));
    assert_eq!(events.len(), 1);
    assert_eq!(events[0].session_id.as_deref(), Some(CN_SESSION));
}

const BARE_QUOTA: &str = "429 您的使用量已超出频率限制，将在 2026-09-17 17:59:27 UTC+8 重置，您也可以切换其他模型继续使用。";

#[test]
fn classifier_fallback_does_not_outlive_its_time_window() {
    let classifier = business_line(
        "9/17/2026, 12:20:31 AM.467",
        &format!(
            "[ACP Agent] refusal classified: sessionId={CN_SESSION}, rpcCode=-32003, httpStatus=429, bizCode=6004, category=quota"
        ),
    );

    let near = [
        classifier.clone(),
        business_line("9/17/2026, 12:20:31 AM.468", BARE_QUOTA),
    ]
    .join("\n");
    let events = dedupe(workbuddy_hits(&near));
    assert_eq!(events.len(), 1);
    assert_eq!(events[0].session_id.as_deref(), Some(CN_SESSION));

    let far = [
        classifier,
        business_line("9/17/2026, 12:20:36.500", BARE_QUOTA),
    ]
    .join("\n");
    assert!(
        dedupe(workbuddy_hits(&far)).is_empty(),
        "超过时间窗的裸文案行不得沿用旧会话"
    );
}

#[test]
fn recognizes_english_quota_text() {
    let text = [
        business_line(
            "9/14/2026, 10:59:00 AM.000",
            &config_line(EN_SESSION, "kimi-k3-1"),
        ),
        business_line("9/14/2026, 10:59:21 AM.523", &en_quota()),
    ]
    .join("\n");
    let events = dedupe(workbuddy_hits(&text));
    assert_eq!(events.len(), 1);
    assert_eq!(events[0].reset_at, EN_RESET_AT);
    assert_eq!(events[0].model.as_deref(), Some("kimi-k3-1"));
    assert_eq!(events[0].session_id.as_deref(), Some(EN_SESSION));
}

#[test]
fn dedupe_keeps_sessions_apart_and_merges_only_within_fifteen_seconds() {
    let hit = |session: &str, occurred_at: i64, model: Option<&str>| Hit {
        session_id: Some(session.to_string()),
        model: model.map(str::to_string),
        reset_at: CN_RESET_AT,
        occurred_at,
        uid: None,
    };
    let events = dedupe(vec![
        hit("session-a", 1_000_000, None),
        hit("session-a", 1_014_000, None),
        hit("session-b", 1_003_000, Some("hy3")),
        hit("session-c", 1_020_000, None),
    ]);
    assert_eq!(events.len(), 2, "相差 20s 的第二次限流不得被合并");
    assert_eq!(events[0].hit_count, 3);
    assert_eq!(events[0].session_id.as_deref(), Some("session-a"));
    assert_eq!(
        events[0].model.as_deref(),
        Some("hy3"),
        "合并时保留有归因的那条"
    );
    assert_eq!(events[1].hit_count, 1);
    assert_eq!(events[1].session_id.as_deref(), Some("session-c"));
}

#[test]
fn cli_uid_comes_from_the_last_auth_line_before_the_event() {
    let text = [
        cli_auth_line("9/15/2026, 2:07:59 PM.057", UID_A),
        business_line(
            "9/15/2026, 2:08:10 PM.000",
            &cn_quota_with(CN_SESSION, CN_REQUEST, "2026-09-15 15:55:40"),
        ),
        cli_auth_line("9/15/2026, 2:09:00 PM.000", UID_B),
        business_line(
            "9/15/2026, 2:09:10 PM.000",
            &cn_quota_with(EN_SESSION, EN_REQUEST, "2026-09-15 16:55:40"),
        ),
    ]
    .join("\n");
    let hits = scan_text(&text, LogFormat::WorkBuddy, AuthMarker::AuthDoInitProbe);
    assert_eq!(hits.len(), 2);
    assert_eq!(hits[0].uid.as_deref(), Some(UID_A));
    assert_eq!(hits[1].uid.as_deref(), Some(UID_B));

    let later = [
        business_line("9/15/2026, 2:08:10 PM.000", &cn_quota()),
        cli_auth_line("9/15/2026, 2:08:20 PM.000", UID_A),
    ]
    .join("\n");
    let hits = scan_text(&later, LogFormat::WorkBuddy, AuthMarker::AuthDoInitProbe);
    assert_eq!(hits[0].uid, None, "事件后的 uid 行不得回溯归因");

    let hits = workbuddy_hits(&later);
    assert_eq!(hits[0].uid, None);
}

#[test]
fn auth_lines_with_uid_none_are_ignored() {
    let cli = [
        cli_auth_line("9/15/2026, 2:07:59 PM.057", "none"),
        business_line("9/15/2026, 2:08:10 PM.000", &cn_quota()),
    ]
    .join("\n");
    let hits = scan_text(&cli, LogFormat::WorkBuddy, AuthMarker::AuthDoInitProbe);
    assert_eq!(hits[0].uid, None);

    let ide = [
        ide_auth_line("none"),
        ide_quota_line("2026-09-17 10:28:26.751", IDE_CONV),
    ]
    .join("\n");
    let hits = scan_text(&ide, LogFormat::Ide, AuthMarker::AuthSessionChanged);
    assert_eq!(hits[0].uid, None);
}

#[test]
fn ide_timestamp_is_a_23_byte_local_prefix() {
    let at = Local
        .with_ymd_and_hms(2026, 9, 17, 10, 28, 26)
        .earliest()
        .expect("测试时间必须存在");
    let line = ide_quota_line("2026-09-17 10:28:26.730", IDE_CONV);
    assert_eq!(
        line_timestamp(&line, LogFormat::Ide),
        Some(at.timestamp_millis() + 730)
    );
    assert_eq!(
        line_timestamp("2026-09-17 10:28:26", LogFormat::Ide),
        None,
        "不足 23 字节的行首不得猜时间"
    );
}

#[test]
fn ide_event_lines_collapse_into_one_event_with_conversation_and_model() {
    let text = [
        ide_auth_line(UID_A),
        ide_model_selection_line(IDE_CONV, IDE_MODEL),
        ide_event_lines(IDE_CONV, UID_A),
    ]
    .join("\n");
    let events = dedupe(scan_text(
        &text,
        LogFormat::Ide,
        AuthMarker::AuthSessionChanged,
    ));
    assert_eq!(events.len(), 1, "8 行带限额文案只是一次事件");
    assert_eq!(events[0].hit_count, 8);
    assert_eq!(events[0].session_id.as_deref(), Some(IDE_CONV));
    assert_eq!(events[0].model.as_deref(), Some(IDE_MODEL));
    assert_eq!(events[0].reset_at, CN_RESET_AT);
    assert_eq!(events[0].uid.as_deref(), Some(UID_A));
    let at = Local
        .with_ymd_and_hms(2026, 9, 17, 10, 28, 26)
        .earliest()
        .expect("测试时间必须存在");
    assert_eq!(events[0].first_seen_at, at.timestamp_millis() + 730);
}

#[test]
fn ide_model_is_attributed_per_conversation_and_before_the_event() {
    let other = [
        ide_auth_line(UID_A),
        ide_model_selection_line(IDE_OTHER_CONV, "glm-5.2"),
        ide_quota_line("2026-09-17 10:28:26.751", IDE_CONV),
    ]
    .join("\n");
    let events = dedupe(scan_text(
        &other,
        LogFormat::Ide,
        AuthMarker::AuthSessionChanged,
    ));
    assert_eq!(events[0].session_id.as_deref(), Some(IDE_CONV));
    assert_eq!(events[0].model, None, "不得把别的会话的模型归给本会话");

    let switched = [
        ide_model_selection_line(IDE_CONV, IDE_MODEL),
        ide_quota_line("2026-09-17 10:28:26.751", IDE_CONV),
        ide_line(
            "2026-09-17 10:30:00.000",
            &format!(
                "[AcpAgent:{IDE_CONV}] Model cache synced: mode=craft, modelId=glm-5.2, source=user-selected"
            ),
        ),
    ]
    .join("\n");
    let events = dedupe(scan_text(
        &switched,
        LogFormat::Ide,
        AuthMarker::AuthSessionChanged,
    ));
    assert_eq!(events[0].model.as_deref(), Some(IDE_MODEL));
}

#[test]
fn ide_unknown_model_sentinels_are_treated_as_unknown() {
    for sentinel in ["auto", "undefined", "null"] {
        let text = [
            ide_model_selection_line(IDE_CONV, sentinel),
            ide_quota_line("2026-09-17 10:28:26.751", IDE_CONV),
        ]
        .join("\n");
        let events = dedupe(scan_text(
            &text,
            LogFormat::Ide,
            AuthMarker::AuthSessionChanged,
        ));
        assert_eq!(events[0].model, None, "`{sentinel}` 不得作为模型名展示");
    }
    let text = [
        ide_line(
            "2026-09-17 10:28:26.748",
            "[handleAuthError] modelId=undefined, baseUrl=undefined, officialEndpoint=https://copilot.tencent.com",
        ),
        ide_quota_line("2026-09-17 10:28:26.751", IDE_CONV),
    ]
    .join("\n");
    let events = dedupe(scan_text(
        &text,
        LogFormat::Ide,
        AuthMarker::AuthSessionChanged,
    ));
    assert_eq!(events[0].model, None);
}

#[test]
fn x_user_id_fills_the_uid_when_no_auth_line_exists() {
    let text = ide_event_lines(IDE_CONV, UID_A);
    let events = dedupe(scan_text(
        &text,
        LogFormat::Ide,
        AuthMarker::AuthSessionChanged,
    ));
    assert_eq!(events.len(), 1);
    assert_eq!(events[0].uid.as_deref(), Some(UID_A));
}

#[test]
fn ide_long_error_line_is_sniffed_within_bounded_windows() {
    let filler = "x".repeat(350 * 1024);
    let line = format!(
        "2026-09-17 10:28:26.741 [error] [AgentReporter] [{IDE_TRACE}]  Agent execution failed: {{\"name\":\"AI_APICallError\",\"requestBodyValues\":{{\"model\":\"{IDE_MODEL}\",\"messages\":[{{\"content\":\"{filler}\"}}]}},\"statusCode\":429,\"responseHeaders\":{{\"x-user-id\":\"{UID_A}\"}},\"responseBody\":\"{{\\\"msg\\\":\\\"{IDE_QUOTA}\\\"}}\",\"code\":6004}}"
    );
    assert!(line.len() > 350 * 1024);

    let hits = scan_text(&line, LogFormat::Ide, AuthMarker::AuthSessionChanged);
    assert_eq!(hits.len(), 1);
    assert_eq!(
        hits[0].uid.as_deref(),
        Some(UID_A),
        "行尾窗口内的 x-user-id"
    );
    assert_eq!(
        hits[0].model.as_deref(),
        Some(IDE_MODEL),
        "行首窗口内的 model"
    );
    assert_eq!(hits[0].reset_at, CN_RESET_AT);
}

#[test]
fn ide_conversation_id_covers_quoted_json_in_both_escapes() {
    let plain = ide_line(
        "2026-09-17 10:28:26.749",
        &format!(
            "[ResultHandler.handleError]  errorMessage {{\"isEnd\":true,\"conversationId\":\"{IDE_CONV}\"}}"
        ),
    );
    assert_eq!(ide_conversation_id(&plain).as_deref(), Some(IDE_CONV));

    let escaped = ide_line(
        "2026-09-17 10:28:26.749",
        &format!(
            "[BaseAgent:craft] responseBody: \"{{\\\"code\\\":6004,\\\"conversationId\\\":\\\"{IDE_CONV}\\\"}}\""
        ),
    );
    assert_eq!(ide_conversation_id(&escaped).as_deref(), Some(IDE_CONV));
}

#[test]
fn json_sniffing_rejects_values_without_a_closing_quote() {
    assert_eq!(json_field("{\"model\":\"deepseek-v4.1-fl", "model"), None);
    assert_eq!(json_field("{\"modelId\":\"auto\"}", "model"), None);

    let mut line = String::from("2026-09-17 10:28:26.741 [error] [AgentReporter]  ");
    line.push_str(IDE_QUOTA);
    line.push_str(&"y".repeat(LONG_LINE_SNIFF_BYTES));
    line.push_str("\"model\":\"deepseek-v4.1-fl");
    assert!(line.len() > LONG_LINE_SNIFF_BYTES);
    assert_eq!(json_field(&line, "model"), None);
    assert_eq!(ide_json_model(&line), None);

    let hits = scan_text(&line, LogFormat::Ide, AuthMarker::AuthSessionChanged);
    assert_eq!(hits.len(), 1, "截断的行仍是一次限额命中");
    assert_eq!(hits[0].model, None, "截断的半个模型名不得作为模型展示");
}

fn event_without_uid(first_seen_at: i64) -> Event {
    Event {
        session_id: None,
        model: None,
        reset_at: CN_RESET_AT,
        first_seen_at,
        hit_count: 1,
        uid: None,
    }
}

#[test]
fn scan_scope_and_cache_require_a_superset() {
    let mut cli = ScanScope::none();
    cli.insert(ScanSource::Cli);
    let mut ides = ScanScope::none();
    ides.insert(ScanSource::Ide(CodeBuddyIdeFlavor::Intl));
    ides.insert(ScanSource::Ide(CodeBuddyIdeFlavor::Cn));

    assert!(ScanScope::none().covers(ScanScope::none()));
    assert!(!ScanScope::none().covers(cli));
    assert!(ScanScope::all().covers(ides));
    assert!(!ides.covers(ScanScope::all()));
    assert!(!ides.covers(cli));
    assert!(ides.contains(ScanSource::Ide(CodeBuddyIdeFlavor::Cn)));
    assert!(!ides.contains(ScanSource::WorkBuddy(WbVariant::Ai)));

    let now = 1_000_000;
    let cache = ScanCache {
        at: now,
        scope: ScanScope::all(),
        entries: Vec::new(),
    };
    assert!(
        cache.covers(ides, now + SCAN_MIN_INTERVAL_MS - 1),
        "未过期且范围是超集 → 命中（装 hook 后只扫 IDE 的请求由全量缓存满足）"
    );
    assert!(
        !cache.covers(ides, now + SCAN_MIN_INTERVAL_MS),
        "过期缓存不命中"
    );
    let narrow = ScanCache {
        at: now,
        scope: ides,
        entries: Vec::new(),
    };
    assert!(
        !narrow.covers(ScanScope::all(), now),
        "范围不足（子集）不命中，必须重扫"
    );
    assert!(narrow.covers(ides, now), "同一范围命中");
}

#[test]
fn sdk_file_session_identity_requires_the_conversations_path() {
    let uuid = "b3df1149-8a3f-4d73-b7a4-c71c46e15762";
    let conversations = "/u/.codebuddy/logs/2026-09-18/sdk/conversations";
    assert_eq!(session_from_file_name(&format!("{conversations}/{uuid}.log")).as_deref(), Some(uuid));
    assert_eq!(session_from_file_name(&format!("{conversations}//./{uuid}.log/")).as_deref(), Some(uuid));
    for path in [
        format!("/u/.codebuddy/logs/2026-09-18/{uuid}.log"),
        format!("/u/.codebuddy/logs/2026-09-18/sdk/{uuid}.log"),
        format!("{conversations}/workspace__abc123.log"),
        format!("{conversations}/not-a-uuid.log"),
        format!("{uuid}.log"),
    ] {
        assert_eq!(session_from_file_name(&path), None, "{path}");
    }
}

fn event_lines(
    session: &str,
    request: &str,
    reset: &str,
    provider_at: &str,
    quota_at: &str,
    switched_at: &str,
) -> Vec<String> {
    let mut lines = vec![
        business_line(provider_at, &config_line(session, "deepseek-v4.1-flash")),
        business_line(provider_at, &provider_line(request, "deepseek-v4.1-flash")),
    ];
    for ms in ["232", "233", "233", "462", "467", "468"] {
        lines.push(business_line(&format!("{quota_at}.{ms}"), &cn_quota_with(session, request, reset)));
    }
    lines.push(business_line(switched_at, &config_line(session, "hy3")));
    lines
}

// The business log is written in local time, the SDK's in UTC: its copy is put
// where the local zone has it, so that the two agree on every machine.
fn sdk_time(ms: u32, minute: u32, second: u32) -> String {
    let at = Local.with_ymd_and_hms(2026, 9, 17, 0, minute, second).earliest().expect("a time");
    format!("{}.{ms:03}Z", at.to_utc().format("%Y-%m-%dT%H:%M:%S"))
}

#[test]
fn fourteen_duplicate_lines_collapse_into_two_events() {
    let first = event_lines(
        CN_SESSION,
        CN_REQUEST,
        "2026-09-17 17:59:27",
        "9/17/2026, 12:20:03 AM.349",
        "9/17/2026, 12:20:31 AM",
        "9/17/2026, 12:21:54 AM.388",
    );
    let second = event_lines(
        EN_SESSION,
        EN_REQUEST,
        "2026-09-17 17:59:27",
        "9/17/2026, 12:33:56 AM.520",
        "9/17/2026, 12:33:56 AM",
        "9/17/2026, 1:25:24 AM.523",
    );
    let mut files = vec![
        file("2026-09-16/event-one.log", &first.join("\n")),
        file("2026-09-16/event-two.log", &second.join("\n")),
    ];
    for (session, quota, sdk_at) in [
        (CN_SESSION, &first[2], sdk_time(523, 20, 31)),
        (EN_SESSION, &second[2], sdk_time(520, 33, 56)),
    ] {
        files.push(file(
            &format!("2026-09-17/sdk/conversations/{session}.log"),
            &format!("{sdk_at} runtime.applyStopReason {{\"errorMessageMetaPreview\":\"{quota}\"}}"),
        ));
    }
    let events = collect_events(&files, LogFormat::WorkBuddy, AuthMarker::Absent).unwrap();
    assert_eq!(events.len(), 2);
    assert_eq!(events[0].hit_count, 7);
    assert_eq!(events[1].hit_count, 7);
    assert_eq!(events[0].model.as_deref(), Some("deepseek-v4.1-flash"));
    assert_eq!(events[1].model.as_deref(), Some("deepseek-v4.1-flash"));
    assert_eq!(events[0].reset_at, CN_RESET_AT);
    assert_eq!(events[1].reset_at, CN_RESET_AT);
    assert_eq!(events[0].session_id.as_deref(), Some(CN_SESSION));
    assert_eq!(events[1].session_id.as_deref(), Some(EN_SESSION));
}

#[test]
fn window_selects_files_by_mtime_not_directory_name_and_tolerates_missing_roots() {
    let now = 1_800_000_000_000;
    let entries = [
        entry("2020-01-01/cross-day.log", now),
        entry("2099-12-31/old.log", now - 30 * DAY_MS),
        entry("memwatch/mem.log", now),
    ];
    let cutoff = now - WINDOW_DAYS * DAY_MS;
    assert_eq!(cutoff, window_start(now));
    assert_eq!(windowed_log_files(&entries, LogFormat::WorkBuddy, cutoff), vec![0]);
    assert!(windowed_log_files(&entries, LogFormat::WorkBuddy, now + DAY_MS).is_empty());
    assert_eq!(windowed_log_files(&entries, LogFormat::WorkBuddy, 0).len(), 2);
    assert!(windowed_log_files(&[], LogFormat::WorkBuddy, 0).is_empty());
    assert!(collect_events(&[], LogFormat::WorkBuddy, AuthMarker::Absent).unwrap().is_empty());
}

fn row(account: &str, model: Option<&str>, reset_at: i64, first_seen_at: i64, hit_count: u32) -> Resolved {
    Resolved {
        account_id: account.to_string(),
        model: model.map(str::to_string),
        reset_at,
        first_seen_at,
        hit_count,
    }
}

#[test]
fn payload_drops_expired_entries_and_sorts_by_reset_time() {
    let now = 1_000_000;
    let resolved = vec![
        row("a", Some("late"), now + 7_200_000, 0, 1),
        row("a", Some("soon"), now + 600_000, 0, 3),
        row("a", Some("expired"), now - 1, 0, 1),
        row("b", None, now + 60_000, 0, 2),
    ];
    let payload = build_payload(resolved, now);
    assert_eq!(payload.get_i64("windowDays"), Some(2));
    assert_eq!(payload.get_i64("scannedAt"), Some(now));
    let accounts = payload.get_arr("accounts").expect("accounts");
    assert_eq!(accounts.len(), 2);
    assert_eq!(accounts[0].get_str("accountId"), Some("a"));
    let limited = accounts[0].get_arr("limited").expect("limited");
    assert_eq!(limited.len(), 2);
    assert_eq!(limited[0].get_str("model"), Some("soon"));
    assert_eq!(limited[1].get_str("model"), Some("late"));
    assert!(accounts[1].get_arr("limited").unwrap()[0].get("model").unwrap().same_value(&Json::Null));
}

#[test]
fn payload_keeps_the_latest_reset_time_per_account_and_model() {
    let now = 1_000_000;
    let resolved = vec![
        row("a", Some("hy3"), now + 600_000, 10, 1),
        row("a", Some("hy3"), now + 3_600_000, 20, 2),
    ];
    let payload = build_payload(resolved, now);
    let limited = payload.get_arr("accounts").unwrap()[0].get_arr("limited").expect("limited");
    assert_eq!(limited.len(), 1);
    assert_eq!(limited[0].get_i64("resetAt"), Some(now + 3_600_000));
    assert_eq!(limited[0].get_i64("hitCount"), Some(2));
}

#[test]
fn cli_source_reuses_the_date_directory_enumeration() {
    let now = 1_800_000_000_000;
    let paths = ["2026-09-15/session.log", "2026-09-15/sdk/conversations/session.log"];
    let entries = [entry(paths[0], now), entry(paths[1], now)];
    let chosen = windowed_log_files(&entries, LogFormat::WorkBuddy, window_start(now));
    assert_eq!(chosen, vec![0, 1]);
    let contents = [
        [
            cli_auth_line("9/15/2026, 2:07:59 PM.057", UID_A),
            business_line("9/15/2026, 2:08:10 AM.000", &cn_quota()),
        ]
        .join("\n"),
        business_line("9/15/2026, 2:08:10 AM.500", &cn_quota()),
    ];
    let files: Vec<(String, Vec<u8>)> = chosen.iter().map(|i| file(paths[*i], &contents[*i])).collect();
    let events = collect_events(&files, LogFormat::WorkBuddy, AuthMarker::AuthDoInitProbe).unwrap();
    assert_eq!(events.len(), 1);
    assert_eq!(events[0].hit_count, 2);
    assert_eq!(events[0].reset_at, CN_RESET_AT);
    assert_eq!(events[0].uid.as_deref(), Some(UID_A));
}

#[test]
fn cli_source_paths_live_under_the_home_directory() {
    assert!(cli_logs_root("/home/u").ends_with(&format!("/{CLI_DATA_DIR}/{LOG_DIR_NAME}")));
    assert!(cli_state_path("/home/u").ends_with(&format!("/{CLI_ROTATE_DIR}/{CLI_STATE_FILE}")));
    assert_eq!(cli_logs_root("/home/u"), "/home/u/.codebuddy/logs");
}

#[test]
fn ide_enumeration_filters_by_plugin_dir_and_file_mtime() {
    let now = 1_800_000_000_000;
    let window = "20260916T193500/window9";
    let names = ["腾讯云代码助手.log", "腾讯云代码助手.1.log", "Tencent Cloud CodeBuddy.log"];
    let mut entries: Vec<LogEntry> =
        names.iter().map(|n| entry(&format!("{window}/exthost/{IDE_LOG_DIR_NAME}/{n}"), now)).collect();
    entries.push(entry(&format!("{window}/renderer.log"), now));
    entries.push(entry(&format!("{window}/exthost/exthost.log"), now));
    let found: BTreeSet<String> = windowed_log_files(&entries, LogFormat::Ide, window_start(now))
        .iter()
        .map(|i| entries[*i].parts.last().unwrap().clone())
        .collect();
    assert_eq!(found, names.iter().map(|n| n.to_string()).collect());
    assert!(windowed_log_files(&entries, LogFormat::Ide, now + DAY_MS).is_empty());
    assert!(windowed_log_files(&[], LogFormat::Ide, 0).is_empty());
}

#[test]
fn ide_source_collects_events_and_tolerates_empty_roots() {
    let content = [
        ide_auth_line(UID_A),
        ide_model_selection_line(IDE_CONV, IDE_MODEL),
        ide_event_lines(IDE_CONV, UID_A),
    ]
    .join("\n");
    let path = format!("20260917T102952/window3/exthost/{IDE_LOG_DIR_NAME}/腾讯云代码助手.log");
    let entries = [entry(&path, 5)];
    assert_eq!(windowed_log_files(&entries, LogFormat::Ide, 0), vec![0]);
    let events =
        collect_events(&[file(&path, &content)], LogFormat::Ide, AuthMarker::AuthSessionChanged).unwrap();
    assert_eq!(events.len(), 1);
    assert_eq!(events[0].hit_count, 8);
    assert_eq!(events[0].session_id.as_deref(), Some(IDE_CONV));
    assert!(collect_events(&[], LogFormat::Ide, AuthMarker::AuthSessionChanged).unwrap().is_empty());
    let dull = [file("a/exthost/b.log", "")];
    assert!(collect_events(&dull, LogFormat::Ide, AuthMarker::AuthSessionChanged).unwrap().is_empty());
}

#[test]
fn the_two_ide_sources_use_distinct_data_roots() {
    let config = "/home/u/.config";
    let intl = codebuddy_ide_data_dir(CodeBuddyIdeFlavor::Intl, Some(config)).unwrap();
    let cn = codebuddy_ide_data_dir(CodeBuddyIdeFlavor::Cn, Some(config)).unwrap();
    assert_ne!(intl, cn);
    assert_eq!(intl.rsplit('/').next(), Some("CodeBuddy"));
    assert_eq!(cn.rsplit('/').next(), Some("CodeBuddy CN"));
    assert!(codebuddy_ide_data_dir(CodeBuddyIdeFlavor::Cn, None).is_none());
}

#[test]
fn fallback_state_file_only_counts_when_updated_before_the_event() {
    let no_uid = TextMap::new();
    let by_state = |state: &str| {
        let state = from_text(state).unwrap_or(Json::Null);
        resolve_by_uid(&[event_without_uid(1_500)], &no_uid, &ActiveAccount::load(&state))
    };
    assert!(by_state("").is_empty());
    assert!(by_state(r#"{ "activeAccountId": "acc-1", "updatedAt": 2000 }"#).is_empty());
    let resolved = by_state(r#"{ "activeAccountId": "acc-1", "updatedAt": 1000 }"#);
    assert_eq!(resolved.len(), 1);
    assert_eq!(resolved[0].account_id, "acc-1");
    assert!(by_state(r#"{ "activeAccountId": "acc-1" }"#).is_empty());
    assert!(by_state("{ not json").is_empty());
}

#[test]
fn uid_match_wins_over_the_state_file_fallback() {
    let mut uid_to_account = TextMap::new();
    uid_to_account.insert(UID_A.to_string(), "acc-uid".to_string());
    let mut event = event_without_uid(1_500);
    event.uid = Some(UID_A.to_string());
    let stale = ActiveAccount::load(&j(r#"{ "activeAccountId": "acc-stale", "updatedAt": 1 }"#));
    let resolved = resolve_by_uid(&[event], &uid_to_account, &stale);
    assert_eq!(resolved[0].account_id, "acc-uid");
}

#[test]
fn unknown_uid_is_dropped_without_a_fallback() {
    let mut event = event_without_uid(1_500);
    event.uid = Some(UID_A.to_string());
    let mut others = TextMap::new();
    others.insert(UID_B.to_string(), "acc-b".to_string());
    let nobody = ActiveAccount { account_id: None, updated_at: None };
    assert!(resolve_by_uid(&[event], &others, &nobody).is_empty());
}

const WB_CN: ScanSource = ScanSource::WorkBuddy(WbVariant::Cn);
const WB_AI: ScanSource = ScanSource::WorkBuddy(WbVariant::Ai);
const IDE_INTL: ScanSource = ScanSource::Ide(CodeBuddyIdeFlavor::Intl);
const IDE_CN: ScanSource = ScanSource::Ide(CodeBuddyIdeFlavor::Cn);

#[test]
fn scan_scope_is_decided_per_source() {
    let ides = [(IDE_INTL, true), (IDE_CN, true)];
    let scope = scan_scope(&[(WB_CN, true), (WB_AI, false), (ScanSource::Cli, false)], &ides, true);
    assert!(!scope.contains(ScanSource::Cli));
    assert!(scope.contains(WB_CN));
    assert!(!scope.contains(WB_AI));
    assert!(scope.contains(IDE_INTL));
    assert!(scope.contains(IDE_CN));

    let scope = scan_scope(&[(WB_CN, true), (WB_AI, false), (ScanSource::Cli, true)], &ides, true);
    assert!(scope.contains(ScanSource::Cli));
    assert!(scope.contains(WB_CN));

    let scope = scan_scope(&[(WB_CN, false), (WB_AI, false), (ScanSource::Cli, false)], &ides, true);
    assert!(!scope.contains(ScanSource::Cli));
    assert!(!scope.contains(WB_CN));
    assert!(scope.contains(IDE_INTL));
    assert!(scope.contains(IDE_CN));

    let places = hook_sources("/home/u");
    assert_eq!(places.len(), 3);
    assert_eq!(places[2].1, "/home/u/.codebuddy");
    assert_eq!(places[0].2, "/home/u/.workbuddy/settings.json");
}

#[test]
fn ide_scan_switch_excludes_only_the_two_ide_sources() {
    let hooks = [(WB_CN, true), (WB_AI, false), (ScanSource::Cli, false)];
    let ides = [(IDE_INTL, true), (IDE_CN, true)];
    let off = scan_scope(&hooks, &ides, false);
    assert!(!off.contains(IDE_INTL));
    assert!(!off.contains(IDE_CN));
    assert!(!off.contains(ScanSource::Cli));
    assert!(off.contains(WB_CN));
    let on = scan_scope(&hooks, &ides, true);
    assert!(on.contains(IDE_INTL));
    assert!(on.contains(IDE_CN));
    assert!(on.covers(off));
    assert!(!off.covers(on));
    assert!(scan_ide_logs_of(&j("{}")));
    assert!(scan_ide_logs_of(&j(r#"{"scanIdeLogs":"no"}"#)));
    assert!(!scan_ide_logs_of(&j(r#"{"scanIdeLogs":false}"#)));
}

#[test]
fn cache_invalidation_keeps_the_next_scan_on_the_requested_scope() {
    let mut cache = Some(ScanCache { at: 1, scope: ScanScope::all(), entries: Vec::new() });
    invalidate_scan_cache(&mut cache);
    assert!(cache.is_none());

    assert!(matches!(cached_scan(&cache, ScanScope::none(), 1_000_000, true), ScanDecision::Scan));
    assert!(matches!(cached_scan(&cache, ScanScope::none(), 1_000_000, false), ScanDecision::Nothing));
    let nothing = || SourceLog { events: vec![], sessions: vec![], state: None };
    let logs = SourceLogs {
        workbuddy_cn: nothing(),
        workbuddy_ai: nothing(),
        cli: SourceLog {
            events: vec![event_without_uid(1_500)],
            sessions: vec![],
            state: Some(r#"{ "activeAccountId": "acc-1", "updatedAt": 1000 }"#.to_string()),
        },
        ide: nothing(),
        cn_ide: nothing(),
    };
    let entries = scan_sources(ScanScope::none(), &logs, &[]);
    assert!(entries.is_empty());
    let entries = scan_sources(ScanScope::all(), &logs, &[]);
    assert_eq!(entries.len(), 1);
    assert_eq!(entries[0].account_id, "acc-1");

    let mut cache = Some(ScanCache { at: 1, scope: ScanScope::none(), entries: Vec::new() });
    let before = j(r#"{ "scanIdeLogs": true }"#);
    config_saved(&mut cache, &before, &j(r#"{ "scanIdeLogs": true, "enabled": false }"#));
    assert!(cache.is_some());
    config_saved(&mut cache, &before, &j(r#"{ "scanIdeLogs": false }"#));
    assert!(cache.is_none());

    let kept = Some(ScanCache { at: 7, scope: ScanScope::none(), entries });
    match cached_scan(&kept, ScanScope::all(), 8, false) {
        ScanDecision::Cached(at, rows) => {
            assert_eq!(at, 7);
            assert_eq!(rows.len(), 1);
        }
        _ => panic!("no scan is allowed"),
    }
    assert_eq!(report_time(7, 9), 7);
    assert_eq!(report_time(0, 9), 9);
}

#[test]
fn sessions_lead_to_accounts_of_their_edition() {
    let accounts = [
        j(r#"{"id":"a","uid":"u-a","variant":"cn"}"#),
        j(r#"{"id":"b","uid":"u-b","variant":"ai"}"#),
        j(r#"{"id":"c"}"#),
    ];
    let cn = account_id_by_uid(&accounts, Some(WbVariant::Cn));
    assert_eq!(cn.get("u-a"), Some("a"));
    assert_eq!(cn.get("u-b"), None);
    let both = account_id_by_uid(&accounts, None);
    assert_eq!(both.get("u-b"), Some("b"));
    let some = |s: &str| Some(s.to_string());
    let rows = [(some("s-1"), some("u-a")), (some("s-2"), some("nobody")), (some("s-3"), None)];
    let by_session = account_by_session(&rows, &both);
    assert_eq!(by_session.get("s-1"), Some("a"));
    assert_eq!(by_session.get("s-2"), None);
    assert_eq!(by_session.get("s-3"), None);
    let mut event = event_without_uid(5);
    event.session_id = some("s-1");
    event.model = some("hy3");
    let rows = resolve(&[event, event_without_uid(6)], &by_session);
    assert_eq!(rows.len(), 1);
    assert_eq!(rows[0].account_id, "a");
    assert_eq!(rows[0].model.as_deref(), Some("hy3"));
}

#[test]
fn lines_behind_a_log_change_no_hit() {
    let first = business_line("9/15/2026, 2:08:10 PM.000", &cn_quota_with(CN_SESSION, CN_REQUEST, "2026-09-15 15:55:40"));
    let second = business_line("9/15/2026, 2:09:10 PM.000", &cn_quota_with(EN_SESSION, EN_REQUEST, "2026-09-15 16:55:40"));
    let grown = [first.as_str(), &cli_auth_line("9/15/2026, 2:08:20 PM.000", UID_A), second.as_str()].join("\n");
    let before = scan_text(&first, LogFormat::WorkBuddy, AuthMarker::AuthDoInitProbe);
    let after = scan_text(&grown, LogFormat::WorkBuddy, AuthMarker::AuthDoInitProbe);
    assert_eq!(before.len(), 1);
    assert_eq!(after.len(), 2);
    assert_eq!(after[0].session_id, before[0].session_id);
    assert_eq!(after[0].uid, before[0].uid);
    assert_eq!(after[0].reset_at, before[0].reset_at);
    assert_eq!(after[1].uid.as_deref(), Some(UID_A));
}
