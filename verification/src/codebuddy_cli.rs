//! The account of CodeBuddy CLI: which one it uses, and how it is handed over.
//!
//! On Windows the token stands in the settings file; elsewhere a helper script
//! reads it from the account store by what the state file names. A command-line
//! process keeps the token it started with, so before another account is written
//! down every running one is closed.
use vstd::prelude::*;
use vstd::slice::slice_subrange;
use crate::account;
use crate::json;
use crate::json::{parse_json, Json, JsonV};
use crate::log_scan;
use crate::log_scan::lossy_text;
use crate::paths;
use crate::text;
use crate::text::same;
use crate::variant;
use crate::variant::WbVariant;

verus! {

/// The directory of the helper and its state, in the home directory.
pub const ROTATE_DIR: &'static str = ".codebuddy-rotate";

/// The state file.
pub const STATE_FILE: &'static str = "state.json";

/// The helper script.
pub const HELPER_FILE: &'static str = "helper.cjs";

/// The helper script of early releases.
pub const LEGACY_HELPER_FILE: &'static str = "helper.sh";

/// The helper script of early releases on Windows.
pub const LEGACY_WINDOWS_HELPER_FILE: &'static str = "helper.cmd";

/// The directory of CodeBuddy CLI, in the home directory.
pub const SETTINGS_DIR: &'static str = ".codebuddy";

/// The settings of CodeBuddy CLI.
pub const SETTINGS_FILE: &'static str = "settings.json";

/// The directory of running sessions, beside the settings.
pub const SESSIONS_DIR_NAME: &'static str = "sessions";

/// How old a heartbeat may be, in milliseconds, for its session to count as alive.
pub const LIVE_SESSION_STALE_MS: i64 = 120_000;

/// The variable that holds the token.
pub const CODEBUDDY_AUTH_TOKEN: &'static str = "CODEBUDDY_AUTH_TOKEN";

/// The variable that holds the site.
pub const CODEBUDDY_INTERNET_ENVIRONMENT: &'static str = "CODEBUDDY_INTERNET_ENVIRONMENT";

/// The variable that holds the address of the models.
pub const CODEBUDDY_BASE_URL: &'static str = "CODEBUDDY_BASE_URL";

/// The domestic site.
pub const CN_INTERNET_ENVIRONMENT: &'static str = "internal";

/// The international site.
pub const AI_INTERNET_ENVIRONMENT: &'static str = "public";

/// The address of the domestic site.
pub const CN_CLI_ENDPOINT: &'static str = "https://copilot.tencent.com";

/// The address of the international site.
pub const AI_CLI_ENDPOINT: &'static str = "https://www.codebuddy.ai";

/// The address of the models of the international site.
pub const AI_CLI_OPENAI_BASE_URL: &'static str = "https://www.codebuddy.ai/v2";

/// The key of the cached site.
pub const CLI_ENV_CACHE_KEY: &'static str = "CodeBuddy-Environment-Cache";

/// The key of the cached address.
pub const CLI_ENDPOINT_CACHE_KEY: &'static str = "CodeBuddy-Endpoint-Cache";

/// The key of the cached product.
pub const CLI_PRODUCT_CACHE_KEY: &'static str = "CodeBuddy-Product-Cache";

/// The directory of the helper and its state.
pub fn rotate_dir(home: &str) -> (r: String)
    ensures
        r@ == paths::joined(home@, ROTATE_DIR@),
{
    paths::join(home, ROTATE_DIR)
}

/// The state file.
pub fn state_path(home: &str) -> (r: String)
    ensures
        r@ == paths::joined(paths::joined(home@, ROTATE_DIR@), STATE_FILE@),
{
    paths::join(rotate_dir(home).as_str(), STATE_FILE)
}

/// The settings of CodeBuddy CLI.
pub fn settings_path(home: &str) -> (r: String)
    ensures
        r@ == paths::joined(paths::joined(home@, SETTINGS_DIR@), SETTINGS_FILE@),
{
    paths::join(paths::join(home, SETTINGS_DIR).as_str(), SETTINGS_FILE)
}

/// The directory of running sessions.
pub fn sessions_dir(home: &str) -> (r: String)
    ensures
        r@ == paths::joined(paths::joined(home@, SETTINGS_DIR@), SESSIONS_DIR_NAME@),
{
    paths::join(paths::join(home, SETTINGS_DIR).as_str(), SESSIONS_DIR_NAME)
}

/// What stands before an ending, where a text has it.
pub open spec fn before(s: Seq<char>, end: Seq<char>) -> Option<Seq<char>> {
    if text::ends_with(s, end) {
        Some(s.subrange(0, s.len() - end.len()))
    } else {
        None
    }
}

/// What follows a beginning, where a text has it.
pub open spec fn after(s: Seq<char>, start: Seq<char>) -> Option<Seq<char>> {
    if text::starts_with(s, start) {
        Some(s.subrange(start.len() as int, s.len() as int))
    } else {
        None
    }
}

fn strip_start<'a>(s: &'a [char], start: &str) -> (r: Option<&'a [char]>)
    ensures
        text::opt_slice(r) == after(s@, start@),
{
    if text::slice_starts_with(s, start) {
        let n: usize = text::chars_of(start).len();
        Some(slice_subrange(s, n, s.len()))
    } else {
        None
    }
}

/// The name of a session's file: digits, or `manual-` and more, before `.json`.
pub open spec fn session_name(name: Seq<char>) -> bool {
    match before(name, ".json"@) {
        Some(stem) => {
            ||| stem.len() > 0 && text::all_digits(stem)
            ||| match after(stem, "manual-"@) {
                Some(rest) => rest.len() > 0,
                None => false,
            }
        },
        None => false,
    }
}

fn only_digits(s: &[char]) -> (b: bool)
    ensures
        b == text::all_digits(s@),
{
    let mut i: usize = 0;
    while i < s.len()
        invariant
            i <= s@.len(),
            forall|j: int| 0 <= j < i ==> text::digit(#[trigger] s@[j]),
        decreases s@.len() - i,
    {
        if !text::is_digit(s[i]) {
            assert(!text::digit(s@[i as int]));
            return false;
        }
        i += 1;
    }
    true
}

/// Whether a file of the directory of sessions is a session's.
pub fn is_session_registry_file(name: &str) -> (b: bool)
    ensures
        b == session_name(name@),
{
    let chars: Vec<char> = text::chars_of(name);
    let all: &[char] = chars.as_slice();
    if !text::slice_ends_with(all, ".json") {
        return false;
    }
    let n: usize = text::chars_of(".json").len();
    let stem: &[char] = slice_subrange(all, 0, all.len() - n);
    if stem.len() > 0 && only_digits(stem) {
        return true;
    }
    match strip_start(stem, "manual-") {
        Some(rest) => rest.len() > 0,
        None => false,
    }
}

/// A session is alive: its last heartbeat is recent, or lies ahead.
pub open spec fn live(value: JsonV, now: i64) -> bool {
    match value.get_i64("lastHeartbeat"@) {
        Some(beat) => now.wrapping_sub(beat as i64) <= LIVE_SESSION_STALE_MS,
        None => false,
    }
}

/// Whether a session's record shows it alive at a time.
pub fn heartbeat_is_live(value: &Json, now: i64) -> (b: bool)
    ensures
        b == live(value@, now),
{
    match value.get_i64("lastHeartbeat") {
        Some(beat) => now.wrapping_sub(beat) <= LIVE_SESSION_STALE_MS,
        None => false,
    }
}

/// A file of the directory of sessions holds a live session.
pub open spec fn live_file(name: Seq<char>, content: Seq<char>, now: i64) -> bool {
    session_name(name) && match json::json_of_text(content) {
        Ok(value) => live(value, now),
        Err(_) => false,
    }
}

/// Whether a session is alive, by the names and contents of the files in the
/// directory of sessions. A file that is no session's, or no JSON, does not count.
pub fn has_live_session(files: &[(String, String)], now: i64) -> (b: bool)
    ensures
        b == exists|i: int|
            0 <= i < files@.len() && live_file((#[trigger] files@[i]).0@, files@[i].1@, now),
{
    let mut i: usize = 0;
    while i < files.len()
        invariant
            i <= files@.len(),
            forall|j: int| 0 <= j < i ==> !live_file((#[trigger] files@[j]).0@, files@[j].1@, now),
        decreases files@.len() - i,
    {
        if is_session_registry_file(files[i].0.as_str()) {
            match parse_json(files[i].1.as_str()) {
                Ok(value) => {
                    if heartbeat_is_live(&value, now) {
                        assert(live_file(files@[i as int].0@, files@[i as int].1@, now));
                        return true;
                    }
                },
                Err(_) => {},
            }
        }
        i += 1;
    }
    false
}

/// A token without the word that says how it is used.
pub open spec fn bare(token: Seq<char>) -> Seq<char> {
    let t = text::trim(token);
    if t == "Bearer"@ {
        Seq::empty()
    } else {
        match after(t, "Bearer "@) {
            Some(rest) => text::trim(rest),
            None => text::trim(t),
        }
    }
}

/// A token without the word that says how it is used.
pub fn clean_bearer_token(token: &str) -> (r: String)
    ensures
        r@ == bare(token@),
{
    let chars: Vec<char> = text::chars_of(token);
    let t: &[char] = text::trim_slice(chars.as_slice());
    if text::slice_is(t, "Bearer") {
        let none: String = String::new();
        assert(none@ =~= Seq::empty());
        return none;
    }
    match strip_start(t, "Bearer ") {
        Some(rest) => text::text_of(text::trim_slice(rest)),
        None => text::text_of(text::trim_slice(t)),
    }
}

/// A text without the white space around it, where anything is left.
pub open spec fn filled(o: Option<Seq<char>>) -> Option<Seq<char>> {
    match o {
        Some(s) => if text::trim(s).len() > 0 {
            Some(text::trim(s))
        } else {
            None
        },
        None => None,
    }
}

pub fn filled_text(o: Option<&str>) -> (r: Option<String>)
    ensures
        json::opt_string(r) == filled(json::opt_text(o)),
{
    match o {
        Some(s) => {
            let chars: Vec<char> = text::chars_of(s);
            let t: &[char] = text::trim_slice(chars.as_slice());
            if t.len() > 0 {
                Some(text::text_of(t))
            } else {
                None
            }
        },
        None => None,
    }
}

/// The token in the settings.
pub open spec fn env_token(settings: JsonV) -> Option<Seq<char>> {
    match settings.get("env"@) {
        Some(env) => filled(env.get_str(CODEBUDDY_AUTH_TOKEN@)),
        None => None,
    }
}

/// The token in the settings.
pub fn settings_env_token(settings: &Json) -> (r: Option<String>)
    ensures
        json::opt_string(r) == env_token(settings@),
{
    match settings.get("env") {
        Some(env) => filled_text(env.get_str(CODEBUDDY_AUTH_TOKEN)),
        None => None,
    }
}

/// The message for a failure to set up the account.
pub open spec fn config_error(stage: Seq<char>, cause: Seq<char>) -> Seq<char> {
    "CodeBuddy CLI 认证配置失败（"@ + stage + "）："@ + cause
}

/// The message for a failure to set up the account.
pub fn auth_config_error(stage: &str, cause: &str) -> (r: String)
    ensures
        r@ == config_error(stage@, cause@),
{
    text::concat(text::concat3("CodeBuddy CLI 认证配置失败（", stage, "）：").as_str(), cause)
}

/// What to look at when the helper fails.
pub open spec fn hint(windows: bool) -> Seq<char> {
    if windows {
        "请确认 Git Bash 和 Node.js 可用，然后重试；如仍失败，请查看 CodeBuddy CLI 日志"@
    } else {
        "请确认 Node.js 可用，然后重试；如仍失败，请查看 CodeBuddy CLI 日志"@
    }
}

/// The message for a failure of the helper.
pub open spec fn helper_error(stage: Seq<char>, cause: Seq<char>, windows: bool) -> Seq<char> {
    "CodeBuddy CLI helper 验证失败（"@ + stage + "）："@ + cause + "。"@ + hint(windows)
}

/// The message for a failure of the helper.
pub fn helper_validation_error(stage: &str, cause: &str, windows: bool) -> (r: String)
    ensures
        r@ == helper_error(stage@, cause@, windows),
{
    let hint: &str = if windows {
        "请确认 Git Bash 和 Node.js 可用，然后重试；如仍失败，请查看 CodeBuddy CLI 日志"
    } else {
        "请确认 Node.js 可用，然后重试；如仍失败，请查看 CodeBuddy CLI 日志"
    };
    text::concat3(
        text::concat(text::concat3("CodeBuddy CLI helper 验证失败（", stage, "）：").as_str(), cause).as_str(),
        "。",
        hint,
    )
}

/// A variable of the process overrides the token in the settings.
pub open spec fn overrides(value: Option<Seq<char>>) -> bool {
    filled(value).is_some()
}

/// Whether a variable of the process overrides the token in the settings.
pub fn process_env_token_present(value: Option<&str>) -> (b: bool)
    ensures
        b == overrides(json::opt_text(value)),
{
    filled_text(value).is_some()
}

/// The message that the process overrides the token.
pub open spec fn override_error() -> Seq<char> {
    config_error(
        "环境阶段"@,
        "检测到进程环境变量 CODEBUDDY_AUTH_TOKEN；它会覆盖 settings.json，请先删除该用户或系统环境变量并重启应用与 CodeBuddy CLI"@,
    )
}

/// The unit result with its message as a text.
pub open spec fn outcome(r: Result<(), String>) -> Result<(), Seq<char>> {
    match r {
        Ok(_) => Ok(()),
        Err(e) => Err(e@),
    }
}

/// Refuses where a variable of the process overrides the token in the settings.
pub fn ensure_no_process_env_override(value: Option<&str>) -> (r: Result<(), String>)
    ensures
        outcome(r) == no_override(json::opt_text(value)),
{
    if process_env_token_present(value) {
        return Err(
            auth_config_error(
                "环境阶段",
                "检测到进程环境变量 CODEBUDDY_AUTH_TOKEN；它会覆盖 settings.json，请先删除该用户或系统环境变量并重启应用与 CodeBuddy CLI",
            ),
        );
    }
    Ok(())
}

/// No variable of the process overrides the token, or else the message.
pub open spec fn no_override(value: Option<Seq<char>>) -> Result<(), Seq<char>> {
    if overrides(value) {
        Err(override_error())
    } else {
        Ok(())
    }
}

/// A name is one of the domestic site's, whatever the case of its letters.
pub open spec fn domestic_site(name: Seq<char>) -> bool {
    text::lower(name) == text::lower(CN_INTERNET_ENVIRONMENT@) || text::lower(name) == text::lower("ioa"@)
}

/// A name is one of the international site's, whatever the case of its letters.
pub open spec fn international_site(name: Seq<char>) -> bool {
    text::lower(name) == text::lower(AI_INTERNET_ENVIRONMENT@) || text::lower(name) == text::lower("external"@)
}

/// The site that a variable of the process names is another edition's.
pub open spec fn site_conflicts(value: Option<Seq<char>>, v: WbVariant) -> bool {
    match filled(value) {
        Some(name) => match v {
            WbVariant::Cn => !domestic_site(name),
            WbVariant::Ai => domestic_site(name) || !international_site(name),
        },
        None => false,
    }
}

/// The message that the process names another site.
pub open spec fn site_error() -> Seq<char> {
    config_error(
        "环境阶段"@,
        "检测到进程环境变量 CODEBUDDY_INTERNET_ENVIRONMENT 与所选账号档位冲突；它会覆盖 settings.json，请先删除该用户或系统环境变量并重启应用与 CodeBuddy CLI"@,
    )
}

/// No variable of the process names another site, or else the message.
pub open spec fn site_allowed(value: Option<Seq<char>>, v: WbVariant) -> Result<(), Seq<char>> {
    if site_conflicts(value, v) {
        Err(site_error())
    } else {
        Ok(())
    }
}

fn alike(a: &str, b: &str) -> (r: bool)
    ensures
        r == (text::lower(a@) == text::lower(b@)),
{
    same(text::to_lower(a).as_str(), text::to_lower(b).as_str())
}

/// Refuses where a variable of the process names a site that is not the edition's.
pub fn ensure_region_env_compatible(value: Option<&str>, v: WbVariant) -> (r: Result<(), String>)
    ensures
        outcome(r) == site_allowed(json::opt_text(value), v),
{
    let name: String = match filled_text(value) {
        Some(name) => name,
        None => {
            return Ok(());
        },
    };
    let domestic: bool = alike(name.as_str(), CN_INTERNET_ENVIRONMENT) || alike(name.as_str(), "ioa");
    let international: bool = alike(name.as_str(), AI_INTERNET_ENVIRONMENT) || alike(name.as_str(), "external");
    let conflict: bool = match v {
        WbVariant::Cn => !domestic,
        WbVariant::Ai => domestic || !international,
    };
    if conflict {
        return Err(
            auth_config_error(
                "环境阶段",
                "检测到进程环境变量 CODEBUDDY_INTERNET_ENVIRONMENT 与所选账号档位冲突；它会覆盖 settings.json，请先删除该用户或系统环境变量并重启应用与 CodeBuddy CLI",
            ),
        );
    }
    Ok(())
}

/// The variables in the settings, or why they cannot be changed.
pub open spec fn env_of(settings: JsonV) -> Result<JsonV, Seq<char>> {
    if !(settings is Obj) {
        Err("CodeBuddy settings.json 顶层不是对象"@)
    } else {
        match settings.get("env"@) {
            Some(env) => if env is Obj {
                Ok(env)
            } else {
                Err("CodeBuddy settings.json 的 env 字段不是对象"@)
            },
            None => Ok(JsonV::empty()),
        }
    }
}

fn env_object(settings: &Json) -> (r: Result<Json, String>)
    ensures
        json::parse_view(r) == env_of(settings@),
{
    if !settings.is_obj() {
        return Err("CodeBuddy settings.json 顶层不是对象".to_owned());
    }
    match settings.get("env") {
        Some(env) => {
            if env.is_obj() {
                Ok(env.clone())
            } else {
                Err("CodeBuddy settings.json 的 env 字段不是对象".to_owned())
            }
        },
        None => Ok(Json::object()),
    }
}

/// The variables with those of an edition's site.
pub open spec fn site_env(env: JsonV, v: WbVariant) -> JsonV {
    match v {
        WbVariant::Cn => env.put(
            CODEBUDDY_INTERNET_ENVIRONMENT@,
            JsonV::Str(CN_INTERNET_ENVIRONMENT@),
        ).without(CODEBUDDY_BASE_URL@),
        WbVariant::Ai => env.put(
            CODEBUDDY_INTERNET_ENVIRONMENT@,
            JsonV::Str(AI_INTERNET_ENVIRONMENT@),
        ).put(CODEBUDDY_BASE_URL@, JsonV::Str(AI_CLI_OPENAI_BASE_URL@)),
    }
}

/// The settings with the variables of an edition's site.
pub open spec fn with_site(settings: JsonV, v: WbVariant) -> JsonV {
    match env_of(settings) {
        Ok(env) => settings.put("env"@, site_env(env, v)),
        Err(_) => settings,
    }
}

/// The settings with a token.
pub open spec fn with_token(settings: JsonV, token: Seq<char>) -> JsonV {
    match env_of(settings) {
        Ok(env) => settings.put("env"@, env.put(CODEBUDDY_AUTH_TOKEN@, JsonV::Str(token))),
        Err(_) => settings,
    }
}

/// What changing the variables says.
pub open spec fn env_change(settings: JsonV) -> Result<(), Seq<char>> {
    match env_of(settings) {
        Ok(_) => Ok(()),
        Err(e) => Err(e),
    }
}

/// Sets the variables of an edition's site in the settings; where those cannot
/// hold them, the settings stay as they are.
pub fn apply_cli_region_env(settings: &mut Json, v: WbVariant) -> (r: Result<(), String>)
    ensures
        outcome(r) == env_change(old(settings)@),
        final(settings)@ == with_site(old(settings)@, v),
{
    let env: Json = match env_object(settings) {
        Ok(env) => env,
        Err(e) => {
            return Err(e);
        },
    };
    let changed: Json = match v {
        WbVariant::Cn => env.put(CODEBUDDY_INTERNET_ENVIRONMENT, Json::text(CN_INTERNET_ENVIRONMENT)).without(
            CODEBUDDY_BASE_URL,
        ),
        WbVariant::Ai => env.put(CODEBUDDY_INTERNET_ENVIRONMENT, Json::text(AI_INTERNET_ENVIRONMENT)).put(
            CODEBUDDY_BASE_URL,
            Json::text(AI_CLI_OPENAI_BASE_URL),
        ),
    };
    settings.set("env", changed);
    Ok(())
}

/// Sets the token in the settings; where those cannot hold it, they stay as they are.
pub fn write_settings_env_token(settings: &mut Json, token: &str) -> (r: Result<(), String>)
    ensures
        outcome(r) == env_change(old(settings)@),
        final(settings)@ == with_token(old(settings)@, token@),
{
    let env: Json = match env_object(settings) {
        Ok(env) => env,
        Err(e) => {
            return Err(e);
        },
    };
    settings.set("env", env.put(CODEBUDDY_AUTH_TOKEN, Json::text(token)));
    Ok(())
}

/// The directory of the caches of CodeBuddy CLI.
pub fn cli_local_storage_dir(home: &str) -> (r: String)
    ensures
        r@ == paths::joined(paths::joined(home@, SETTINGS_DIR@), "local_storage"@),
{
    paths::join(paths::join(home, SETTINGS_DIR).as_str(), "local_storage")
}

/// The file that caches the value of a key.
pub open spec fn cache_file(key: Seq<char>) -> Seq<char> {
    if key == CLI_ENV_CACHE_KEY@ {
        "entry_3bab4ce61838088127d444e4cc042d6d.info"@
    } else if key == CLI_ENDPOINT_CACHE_KEY@ {
        "entry_933d5543e80177622c17a73869c0fad7.info"@
    } else if key == CLI_PRODUCT_CACHE_KEY@ {
        "entry_604f48c944053e01d9546675443286c1.info"@
    } else {
        "entry_unknown.info"@
    }
}

/// The file that caches the value of a key.
pub fn cli_cache_filename(key: &str) -> (r: &'static str)
    ensures
        r@ == cache_file(key@),
{
    if same(key, CLI_ENV_CACHE_KEY) {
        "entry_3bab4ce61838088127d444e4cc042d6d.info"
    } else if same(key, CLI_ENDPOINT_CACHE_KEY) {
        "entry_933d5543e80177622c17a73869c0fad7.info"
    } else if same(key, CLI_PRODUCT_CACHE_KEY) {
        "entry_604f48c944053e01d9546675443286c1.info"
    } else {
        "entry_unknown.info"
    }
}

/// The site of an edition.
pub open spec fn site_of(v: WbVariant) -> Seq<char> {
    match v {
        WbVariant::Cn => CN_INTERNET_ENVIRONMENT@,
        WbVariant::Ai => AI_INTERNET_ENVIRONMENT@,
    }
}

/// The address of an edition's site.
pub open spec fn endpoint_of(v: WbVariant) -> Seq<char> {
    match v {
        WbVariant::Cn => CN_CLI_ENDPOINT@,
        WbVariant::Ai => AI_CLI_ENDPOINT@,
    }
}

/// What becomes of the caches when an edition is set.
pub struct RuntimeCache {
    /// The file that goes.
    pub dropped: String,
    /// The file of the site, and the site.
    pub site: (String, String),
    /// The file of the address, and the address.
    pub endpoint: (String, String),
}

/// What becomes of the caches when an edition is set: the product's goes, the
/// site and its address are written as JSON strings.
pub fn sync_cli_runtime_cache(v: WbVariant) -> (r: RuntimeCache)
    ensures
        r.dropped@ == cache_file(CLI_PRODUCT_CACHE_KEY@),
        r.site.0@ == cache_file(CLI_ENV_CACHE_KEY@),
        r.site.1@ == site_of(v),
        r.endpoint.0@ == cache_file(CLI_ENDPOINT_CACHE_KEY@),
        r.endpoint.1@ == endpoint_of(v),
{
    let (site, endpoint): (&str, &str) = match v {
        WbVariant::Cn => (CN_INTERNET_ENVIRONMENT, CN_CLI_ENDPOINT),
        WbVariant::Ai => (AI_INTERNET_ENVIRONMENT, AI_CLI_ENDPOINT),
    };
    RuntimeCache {
        dropped: cli_cache_filename(CLI_PRODUCT_CACHE_KEY).to_owned(),
        site: (cli_cache_filename(CLI_ENV_CACHE_KEY).to_owned(), site.to_owned()),
        endpoint: (cli_cache_filename(CLI_ENDPOINT_CACHE_KEY).to_owned(), endpoint.to_owned()),
    }
}

/// The command line of this tool or of an editor.
pub open spec fn foreign_command(line: Seq<char>) -> bool {
    ||| text::has(line, "wb-switch"@)
    ||| text::has(line, "workbuddy-switch"@)
    ||| text::has(line, ".app/contents/"@)
    ||| text::has(line, "codebuddy cn"@)
    ||| text::has(line, "codebuddycn"@)
    ||| text::has(line, "\\programs\\codebuddy\\"@)
    ||| text::has(line, "/programs/codebuddy/"@)
}

/// A command line of CodeBuddy CLI.
pub open spec fn cli_command(line: Seq<char>) -> bool {
    ||| text::has(line, "@tencent-ai/codebuddy-code"@)
    ||| text::has(line, "codebuddy-code/dist-server"@)
    ||| text::has(line, "codebuddy-code\\dist-server"@)
    ||| text::has(line, "codebuddy-code/bin/"@)
    ||| text::has(line, "codebuddy-code\\bin\\"@)
    ||| text::has(line, "/bin/codebuddy"@)
    ||| text::has(line, "\\bin\\codebuddy"@)
    ||| text::has(line, "codebuddy.cmd"@)
    ||| text::has(line, "cbc-prewarm"@)
}

/// Whether a process is CodeBuddy CLI, by its command line.
pub fn is_codebuddy_cli_process_args(args: &str) -> (b: bool)
    ensures
        b == (!foreign_command(text::lower(args@)) && cli_command(text::lower(args@))),
{
    let lower: String = text::to_lower(args);
    let chars: Vec<char> = text::chars_of(lower.as_str());
    let line: &[char] = chars.as_slice();
    if text::has_slice(line, "wb-switch") || text::has_slice(line, "workbuddy-switch") {
        return false;
    }
    if text::has_slice(line, ".app/contents/") {
        return false;
    }
    if text::has_slice(line, "codebuddy cn") || text::has_slice(line, "codebuddycn") {
        return false;
    }
    if text::has_slice(line, "\\programs\\codebuddy\\") || text::has_slice(line, "/programs/codebuddy/") {
        return false;
    }
    text::has_slice(line, "@tencent-ai/codebuddy-code") || text::has_slice(line, "codebuddy-code/dist-server")
        || text::has_slice(line, "codebuddy-code\\dist-server") || text::has_slice(line, "codebuddy-code/bin/")
        || text::has_slice(line, "codebuddy-code\\bin\\") || text::has_slice(line, "/bin/codebuddy")
        || text::has_slice(line, "\\bin\\codebuddy") || text::has_slice(line, "codebuddy.cmd")
        || text::has_slice(line, "cbc-prewarm")
}

/// An operating system.
#[derive(Clone, Copy, Debug, PartialEq, Eq, Structural)]
pub enum System {
    Mac,
    Windows,
    Linux,
}

/// A text holds another, and a third after it.
pub open spec fn has_in_turn(line: Seq<char>, first: Seq<char>, second: Seq<char>) -> bool {
    match text::find(line, first) {
        Some(i) => text::find_from(line, second, i + first.len()).is_some(),
        None => false,
    }
}

/// A running process is CodeBuddy CLI, by its command line: on macOS it has to have
/// one of three names as they are written, on Windows one of five in any case.
pub open spec fn runs_cli(system: System, args: Seq<char>) -> bool {
    let line = text::lower(args);
    let ours = !foreign_command(line) && cli_command(line);
    match system {
        System::Linux => ours,
        System::Mac => ours && (text::has(args, "@tencent-ai/codebuddy-code"@) || text::has(args, "cbc-prewarm"@)
            || text::has(args, "/bin/codebuddy"@)),
        System::Windows => {
            ||| text::has(line, "@tencent-ai/codebuddy-code"@)
            ||| has_in_turn(line, "codebuddy-code"@, "dist-server"@)
            ||| text::has(line, "\\bin\\codebuddy"@)
            ||| text::has(line, "cbc-prewarm"@)
            ||| text::has(line, "codebuddy.cmd"@)
        },
    }
}

fn holds_in_turn(line: &[char], first: &str, second: &str) -> (b: bool)
    ensures
        b == has_in_turn(line@, first@, second@),
{
    let a: Vec<char> = text::chars_of(first);
    let b: Vec<char> = text::chars_of(second);
    match text::find_slice(line, a.as_slice()) {
        Some(i) => text::find_slice_from(line, b.as_slice(), i + a.len()).is_some(),
        None => false,
    }
}

fn is_running_cli(system: System, args: &str) -> (b: bool)
    ensures
        b == runs_cli(system, args@),
{
    match system {
        System::Linux => is_codebuddy_cli_process_args(args),
        System::Mac => is_codebuddy_cli_process_args(args) && (text::contains_text(args, "@tencent-ai/codebuddy-code")
            || text::contains_text(args, "cbc-prewarm") || text::contains_text(args, "/bin/codebuddy")),
        System::Windows => {
            let lower: String = text::to_lower(args);
            let chars: Vec<char> = text::chars_of(lower.as_str());
            let line: &[char] = chars.as_slice();
            text::has_slice(line, "@tencent-ai/codebuddy-code") || holds_in_turn(line, "codebuddy-code", "dist-server")
                || text::has_slice(line, "\\bin\\codebuddy") || text::has_slice(line, "cbc-prewarm")
                || text::has_slice(line, "codebuddy.cmd")
        },
    }
}

/// The processes of CodeBuddy CLI among those that run, this one left out.
pub open spec fn cli_pids(system: System, rows: Seq<(u32, Seq<char>)>, own: u32) -> Seq<u32>
    decreases rows.len(),
{
    if rows.len() == 0 {
        Seq::empty()
    } else {
        let n = rows.len() - 1;
        let earlier = cli_pids(system, rows.subrange(0, n), own);
        if rows[n].0 != own && runs_cli(system, rows[n].1) {
            earlier.push(rows[n].0)
        } else {
            earlier
        }
    }
}

/// Rows of process numbers and command lines.
pub open spec fn rows_view(rows: Seq<(u32, String)>) -> Seq<(u32, Seq<char>)> {
    rows.map_values(|r: (u32, String)| (r.0, r.1@))
}

/// The processes of CodeBuddy CLI among those that run, this one left out.
pub fn list_codebuddy_cli_pids(system: System, rows: &[(u32, String)], own: u32) -> (r: Vec<u32>)
    ensures
        r@ == cli_pids(system, rows_view(rows@), own),
{
    let ghost all = rows_view(rows@);
    let mut r: Vec<u32> = Vec::new();
    let mut i: usize = 0;
    while i < rows.len()
        invariant
            i <= rows@.len(),
            all == rows_view(rows@),
            r@ == cli_pids(system, all.subrange(0, i as int), own),
        decreases rows@.len() - i,
    {
        assert(all.subrange(0, i + 1).subrange(0, i as int) =~= all.subrange(0, i as int));
        assert(all[i as int] == (rows@[i as int].0, rows@[i as int].1@));
        if rows[i].0 != own && is_running_cli(system, rows[i].1.as_str()) {
            r.push(rows[i].0);
        }
        i += 1;
    }
    assert(all.subrange(0, all.len() as int) =~= all);
    r
}

/// What is said after a change of account.
pub open spec fn switch_message(v: WbVariant, region_changed: bool, closed: nat) -> Seq<char> {
    let region = if v == WbVariant::Ai {
        "国际版"@
    } else {
        "国内版"@
    };
    if region_changed {
        if closed == 0 {
            "已切换到"@ + region + "。未发现正在运行的 CodeBuddy CLI，新开会话即可"@
        } else {
            "已切换到"@ + region + "并关闭正在运行的 CodeBuddy CLI（"@ + text::int_text(closed as int)
                + " 个进程）。请重新打开 CLI 后再发会话"@
        }
    } else if closed == 0 {
        "CodeBuddy CLI 默认账号已更新。未发现正在运行的 CodeBuddy CLI，新开会话即可"@
    } else {
        "CodeBuddy CLI 默认账号已更新，并关闭正在运行的 CodeBuddy CLI（"@ + text::int_text(closed as int)
            + " 个进程）。请重新打开 CLI 后再发会话"@
    }
}

/// What is said after a change of account: always also whether a running
/// CodeBuddy CLI was closed.
pub fn region_switch_message(v: WbVariant, region_changed: bool, closed_count: usize) -> (r: String)
    ensures
        r@ == switch_message(v, region_changed, closed_count as nat),
{
    let region: &str = if v == WbVariant::Ai {
        "国际版"
    } else {
        "国内版"
    };
    if region_changed {
        if closed_count == 0 {
            text::concat3("已切换到", region, "。未发现正在运行的 CodeBuddy CLI，新开会话即可")
        } else {
            text::concat3(
                text::concat3("已切换到", region, "并关闭正在运行的 CodeBuddy CLI（").as_str(),
                text::text_of_usize(closed_count).as_str(),
                " 个进程）。请重新打开 CLI 后再发会话",
            )
        }
    } else if closed_count == 0 {
        "CodeBuddy CLI 默认账号已更新。未发现正在运行的 CodeBuddy CLI，新开会话即可".to_owned()
    } else {
        text::concat3(
            "CodeBuddy CLI 默认账号已更新，并关闭正在运行的 CodeBuddy CLI（",
            text::text_of_usize(closed_count).as_str(),
            " 个进程）。请重新打开 CLI 后再发会话",
        )
    }
}

/// A failure after running processes were closed.
pub open spec fn after_close(error: Seq<char>, closed: nat) -> Seq<char> {
    if closed == 0 {
        error
    } else {
        error + "；已关闭 "@ + text::int_text(closed as int)
            + " 个正在运行的 CodeBuddy CLI，但账号未切换成功，请重试"@
    }
}

/// The message for a failure after running processes were closed.
pub fn after_close_error(error: String, closed_count: usize) -> (r: String)
    ensures
        r@ == after_close(error@, closed_count as nat),
{
    if closed_count == 0 {
        return error;
    }
    text::concat(
        text::concat3(error.as_str(), "；已关闭 ", text::text_of_usize(closed_count).as_str()).as_str(),
        " 个正在运行的 CodeBuddy CLI，但账号未切换成功，请重试",
    )
}

/// The settings that the text of the file spells; none at all are the empty ones.
pub open spec fn settings_in(content: Option<Seq<char>>) -> Result<JsonV, Seq<char>> {
    match content {
        Some(t) => match json::json_of_text(t) {
            Ok(value) => Ok(value),
            Err(_) => Err("CodeBuddy settings.json 不是有效 JSON"@),
        },
        None => Ok(JsonV::empty()),
    }
}

/// The settings that the text of the file spells; none at all are the empty ones.
pub fn read_settings(content: Option<&str>) -> (r: Result<Json, String>)
    ensures
        json::parse_view(r) == settings_in(json::opt_text(content)),
{
    match content {
        Some(t) => match parse_json(t) {
            Ok(value) => Ok(value),
            Err(_) => Err("CodeBuddy settings.json 不是有效 JSON".to_owned()),
        },
        None => Ok(Json::object()),
    }
}

/// Settings with an account's token and site, or why they cannot hold them.
pub open spec fn account_settings(settings: JsonV, token: Seq<char>, v: WbVariant) -> Result<JsonV, Seq<char>> {
    match env_of(settings) {
        Ok(_) => Ok(with_site(with_token(settings, bare(token)), v)),
        Err(e) => Err(e),
    }
}

/// Settings with an account's token and site, or why they cannot hold them.
pub fn settings_env_update(settings: Json, token: &str, v: WbVariant) -> (r: Result<Json, String>)
    ensures
        json::parse_view(r) == account_settings(settings@, token@, v),
{
    let mut value: Json = settings;
    match write_settings_env_token(&mut value, clean_bearer_token(token).as_str()) {
        Ok(_) => {},
        Err(e) => {
            return Err(e);
        },
    }
    match apply_cli_region_env(&mut value, v) {
        Ok(_) => Ok(value),
        Err(e) => Err(e),
    }
}

/// The settings file's text read and given an account's token and site.
pub open spec fn prepared(content: Option<Seq<char>>, token: Seq<char>, v: WbVariant) -> Result<JsonV, Seq<char>> {
    match settings_in(content) {
        Ok(settings) => account_settings(settings, token, v),
        Err(e) => Err(e),
    }
}

/// The settings to write for an account, from the text of the file as it is.
pub fn prepare_settings_env_update(previous: Option<&str>, token: &str, v: WbVariant) -> (r: Result<Json, String>)
    ensures
        json::parse_view(r) == prepared(json::opt_text(previous), token@, v),
{
    match read_settings(previous) {
        Ok(settings) => settings_env_update(settings, token, v),
        Err(e) => Err(e),
    }
}

/// Settings with an edition's site, or why they cannot hold it.
pub open spec fn site_settings(settings: JsonV, v: WbVariant) -> Result<JsonV, Seq<char>> {
    match env_of(settings) {
        Ok(_) => Ok(with_site(settings, v)),
        Err(e) => Err(e),
    }
}

/// Settings with an edition's site, or why they cannot hold it.
pub fn settings_region_update(settings: Json, v: WbVariant) -> (r: Result<Json, String>)
    ensures
        json::parse_view(r) == site_settings(settings@, v),
{
    let mut value: Json = settings;
    match apply_cli_region_env(&mut value, v) {
        Ok(_) => Ok(value),
        Err(e) => Err(e),
    }
}

/// The settings to write for an edition's site, from the text of the file as it is.
pub fn persist_cli_region_env(previous: Option<&str>, v: WbVariant) -> (r: Result<Json, String>)
    ensures
        json::parse_view(r) == (match settings_in(json::opt_text(previous)) {
            Ok(settings) => site_settings(settings, v),
            Err(e) => Err(e),
        }),
{
    match read_settings(previous) {
        Ok(settings) => settings_region_update(settings, v),
        Err(e) => Err(e),
    }
}

/// What the settings read back must show.
pub open spec fn written_token(persisted: Option<JsonV>, expected: Seq<char>) -> Result<(), Seq<char>> {
    match persisted {
        Some(settings) => match env_token(settings) {
            Some(token) => if bare(token) == bare(expected) {
                Ok(())
            } else {
                Err(config_error("配置阶段"@, "写入后的认证信息与所选账号不一致"@))
            },
            None => Err(config_error("配置阶段"@, "写入后的认证信息与所选账号不一致"@)),
        },
        None => Err(config_error("配置阶段"@, "写入后无法重新读取 CodeBuddy settings.json"@)),
    }
}

/// Whether the settings read back hold the token that was written.
pub fn validate_persisted_env_token(persisted: Option<&Json>, expected: &str) -> (r: Result<(), String>)
    ensures
        outcome(r) == written_token(json::opt_view(persisted), expected@),
{
    match persisted {
        Some(settings) => {
            let fits: bool = match settings_env_token(settings) {
                Some(token) => same(
                    clean_bearer_token(token.as_str()).as_str(),
                    clean_bearer_token(expected).as_str(),
                ),
                None => false,
            };
            if fits {
                Ok(())
            } else {
                Err(auth_config_error("配置阶段", "写入后的认证信息与所选账号不一致"))
            }
        },
        None => Err(auth_config_error("配置阶段", "写入后无法重新读取 CodeBuddy settings.json")),
    }
}

/// A step of saving settings.
pub enum SaveStep {
    /// Write the file.
    Write,
    /// Read it back.
    Check,
    /// Write the caches of the edition.
    Cache,
    /// All is written.
    Done,
    /// Put the file back as it was and say why.
    Undo(String),
}

/// How a step of saving settings went.
pub enum SaveReport {
    /// It was done.
    Fine,
    /// The directory could not be made.
    NoDir,
    /// The file could not be written.
    NoWrite,
    /// The file read back, and what it holds where that is JSON.
    Read(Option<Json>),
}

/// A step of saving settings.
#[verifier::ext_equal]
pub enum SaveStepV {
    Write,
    Check,
    Cache,
    Done,
    Undo(Seq<char>),
}

impl SaveStep {
    pub open spec fn view(&self) -> SaveStepV {
        match self {
            SaveStep::Write => SaveStepV::Write,
            SaveStep::Check => SaveStepV::Check,
            SaveStep::Cache => SaveStepV::Cache,
            SaveStep::Done => SaveStepV::Done,
            SaveStep::Undo(e) => SaveStepV::Undo(e@),
        }
    }
}

/// What comes after a step of saving settings; with a token to look for, the file
/// is read back before the caches are written.
pub open spec fn save_next(step: SaveStepV, report: SaveReport, expected: Option<Seq<char>>) -> SaveStepV {
    match step {
        SaveStepV::Write => match report {
            SaveReport::NoDir => SaveStepV::Undo(
                config_error("配置阶段"@, "无法创建 CodeBuddy 配置目录，请检查用户目录权限"@),
            ),
            SaveReport::NoWrite => SaveStepV::Undo(
                config_error("配置阶段"@, "无法写入 CodeBuddy settings.json，请检查文件权限"@),
            ),
            _ => if expected.is_some() {
                SaveStepV::Check
            } else {
                SaveStepV::Cache
            },
        },
        SaveStepV::Check => {
            let found = match report {
                SaveReport::Read(o) => account::opt_json(o),
                _ => None,
            };
            match written_token(found, expected.unwrap_or(Seq::empty())) {
                Ok(_) => SaveStepV::Cache,
                Err(e) => SaveStepV::Undo(e),
            }
        },
        SaveStepV::Cache => match report {
            SaveReport::NoDir => SaveStepV::Undo(
                config_error("配置阶段"@, "无法创建 CodeBuddy CLI 缓存目录，请检查用户目录权限"@),
            ),
            SaveReport::NoWrite => SaveStepV::Undo(
                config_error("配置阶段"@, "无法写入 CodeBuddy CLI 缓存，请检查文件权限"@),
            ),
            _ => SaveStepV::Done,
        },
        SaveStepV::Done => SaveStepV::Done,
        SaveStepV::Undo(e) => SaveStepV::Undo(e),
    }
}

/// What comes after a step of saving settings; with a token to look for, the file
/// is read back before the caches are written.
pub fn commit_settings_env_update(step: SaveStep, report: SaveReport, expected: Option<&str>) -> (r: SaveStep)
    ensures
        r@ == save_next(step@, report, json::opt_text(expected)),
{
    match step {
        SaveStep::Write => match report {
            SaveReport::NoDir => SaveStep::Undo(
                auth_config_error("配置阶段", "无法创建 CodeBuddy 配置目录，请检查用户目录权限"),
            ),
            SaveReport::NoWrite => SaveStep::Undo(
                auth_config_error("配置阶段", "无法写入 CodeBuddy settings.json，请检查文件权限"),
            ),
            _ => if expected.is_some() {
                SaveStep::Check
            } else {
                SaveStep::Cache
            },
        },
        SaveStep::Check => {
            let token: &str = match expected {
                Some(token) => token,
                None => {
                    let none: &str = "";
                    proof {
                        reveal_strlit("");
                    }
                    assert(none@ =~= Seq::empty());
                    none
                },
            };
            let checked: Result<(), String> = match &report {
                SaveReport::Read(Some(settings)) => validate_persisted_env_token(Some(settings), token),
                _ => validate_persisted_env_token(None, token),
            };
            match checked {
                Ok(_) => SaveStep::Cache,
                Err(e) => SaveStep::Undo(e),
            }
        },
        SaveStep::Cache => match report {
            SaveReport::NoDir => SaveStep::Undo(
                auth_config_error("配置阶段", "无法创建 CodeBuddy CLI 缓存目录，请检查用户目录权限"),
            ),
            SaveReport::NoWrite => SaveStep::Undo(
                auth_config_error("配置阶段", "无法写入 CodeBuddy CLI 缓存，请检查文件权限"),
            ),
            _ => SaveStep::Done,
        },
        SaveStep::Done => SaveStep::Done,
        SaveStep::Undo(e) => SaveStep::Undo(e),
    }
}

/// The helper command in the settings.
pub open spec fn helper_in(settings: Option<JsonV>) -> Option<Seq<char>> {
    match settings {
        Some(s) => filled(s.get_str("apiKeyHelper"@)),
        None => None,
    }
}

/// The helper command in the settings.
pub fn helper_command(settings: Option<&Json>) -> (r: Option<String>)
    ensures
        json::opt_string(r) == helper_in(json::opt_view(settings)),
{
    match settings {
        Some(s) => filled_text(s.get_str("apiKeyHelper")),
        None => None,
    }
}

/// An absolute path of Windows: a drive letter, a colon, a separator.
pub open spec fn drive_path(s: Seq<char>) -> bool {
    &&& s.len() >= 3
    &&& ('a' <= s[0] <= 'z' || 'A' <= s[0] <= 'Z')
    &&& s[1] == ':'
    &&& s[2] == '\\' || s[2] == '/'
}

/// White space stands somewhere in a text.
pub open spec fn any_white(s: Seq<char>) -> bool {
    exists|i: int| 0 <= i < s.len() && text::white(#[trigger] s[i])
}

/// The single path that a helper command is, where it is one: not in quotes, and
/// without white space unless it begins with a drive.
pub open spec fn single_path(command: Seq<char>) -> Option<Seq<char>> {
    let t = text::trim(command);
    if t.len() == 0 || t[0] == '\'' || t[0] == '"' || (!drive_path(t) && any_white(t)) {
        None
    } else {
        Some(t)
    }
}

fn has_white(s: &[char]) -> (b: bool)
    ensures
        b == any_white(s@),
{
    let mut i: usize = 0;
    while i < s.len()
        invariant
            i <= s@.len(),
            forall|j: int| 0 <= j < i ==> !text::white(#[trigger] s@[j]),
        decreases s@.len() - i,
    {
        if text::is_white(s[i]) {
            assert(text::white(s@[i as int]));
            return true;
        }
        i += 1;
    }
    false
}

fn is_letter(c: char) -> (b: bool)
    ensures
        b == ('a' <= c <= 'z' || 'A' <= c <= 'Z'),
{
    ('a' <= c && c <= 'z') || ('A' <= c && c <= 'Z')
}

/// The single path that a helper command is, where it is one.
pub fn command_path(command: &str) -> (r: Option<String>)
    ensures
        json::opt_string(r) == single_path(command@),
{
    let chars: Vec<char> = text::chars_of(command);
    let t: &[char] = text::trim_slice(chars.as_slice());
    if t.len() == 0 {
        return None;
    }
    let drive: bool = t.len() >= 3 && is_letter(t[0]) && t[1] == ':' && (t[2] == '\\' || t[2] == '/');
    if t[0] == '\'' || t[0] == '"' || (!drive && has_white(t)) {
        return None;
    }
    Some(text::text_of(t))
}

/// Whether a helper's text, or the script's beside it, knows accounts by their ids.
pub fn helper_supports_account_ids(configured: Option<&str>, logic: Option<&str>) -> (b: bool)
    ensures
        b == ((configured.is_some() && text::has(configured.unwrap()@, "activeAccountId"@)) || (logic.is_some()
            && text::has(logic.unwrap()@, "activeAccountId"@))),
{
    let first: bool = match configured {
        Some(source) => text::contains_text(source, "activeAccountId"),
        None => false,
    };
    let second: bool = match logic {
        Some(source) => text::contains_text(source, "activeAccountId"),
        None => false,
    };
    first || second
}

/// A path in the form in which two are compared.
pub open spec fn path_form(path: Seq<char>, windows: bool) -> Seq<char> {
    let slashed = path.map_values(|c: char| if c == '\\' { '/' } else { c });
    if windows {
        text::lower(slashed)
    } else {
        slashed
    }
}

/// A path in the form in which two are compared: one kind of separator, and on
/// Windows small letters.
pub fn comparable_path(path: &str, windows: bool) -> (r: String)
    ensures
        r@ == path_form(path@, windows),
{
    let chars: Vec<char> = text::chars_of(path);
    let ghost slashed = path@.map_values(|c: char| if c == '\\' { '/' } else { c });
    let mut out: Vec<char> = Vec::new();
    let mut i: usize = 0;
    while i < chars.len()
        invariant
            i <= chars@.len(),
            chars@ == path@,
            slashed == path@.map_values(|c: char| if c == '\\' { '/' } else { c }),
            out@ == slashed.subrange(0, i as int),
        decreases chars@.len() - i,
    {
        let c: char = if chars[i] == '\\' {
            '/'
        } else {
            chars[i]
        };
        out.push(c);
        i += 1;
        assert(out@ =~= slashed.subrange(0, i as int));
    }
    assert(out@ =~= slashed);
    let r: String = text::text_of(out.as_slice());
    if windows {
        text::to_lower(r.as_str())
    } else {
        r
    }
}

/// Two paths are one. Where the file system resolves both, that decides.
pub open spec fn one_path(
    left: Seq<char>,
    right: Seq<char>,
    real_left: Option<Seq<char>>,
    real_right: Option<Seq<char>>,
    windows: bool,
) -> bool {
    if real_left.is_some() && real_right.is_some() {
        path_form(real_left.unwrap(), windows) == path_form(real_right.unwrap(), windows)
    } else {
        path_form(left, windows) == path_form(right, windows)
    }
}

/// Whether two paths are one; `real_left` and `real_right` are what the file
/// system resolves them to.
pub fn same_path(
    left: &str,
    right: &str,
    real_left: Option<&str>,
    real_right: Option<&str>,
    windows: bool,
) -> (b: bool)
    ensures
        b == one_path(left@, right@, json::opt_text(real_left), json::opt_text(real_right), windows),
{
    match (real_left, real_right) {
        (Some(l), Some(r)) => same(comparable_path(l, windows).as_str(), comparable_path(r, windows).as_str()),
        _ => same(comparable_path(left, windows).as_str(), comparable_path(right, windows).as_str()),
    }
}

/// What the file system resolves the paths of helpers to, where it does: the one
/// configured, and the three of this project in their directory.
pub struct RealPaths {
    pub configured: Option<String>,
    pub current: Option<String>,
    pub legacy: Option<String>,
    pub legacy_windows: Option<String>,
}

/// A path is that of the helper of early releases.
pub open spec fn legacy_helper(path: Seq<char>, dir: Seq<char>, found: RealPaths, windows: bool) -> bool {
    ||| one_path(
        path,
        paths::joined(dir, LEGACY_WINDOWS_HELPER_FILE@),
        json::opt_string(found.configured),
        json::opt_string(found.legacy_windows),
        windows,
    )
    ||| one_path(
        path,
        paths::joined(dir, LEGACY_HELPER_FILE@),
        json::opt_string(found.configured),
        json::opt_string(found.legacy),
        windows,
    )
}

/// A path is that of the helper.
pub open spec fn current_helper(path: Seq<char>, dir: Seq<char>, found: RealPaths, windows: bool) -> bool {
    one_path(
        path,
        paths::joined(dir, HELPER_FILE@),
        json::opt_string(found.configured),
        json::opt_string(found.current),
        windows,
    )
}

pub fn borrowed(o: &Option<String>) -> (r: Option<&str>)
    ensures
        json::opt_text(r) == json::opt_string(*o),
{
    match o {
        Some(s) => Some(s.as_str()),
        None => None,
    }
}

/// Whether a path is that of the helper of early releases.
pub fn is_legacy_helper_path(path: &str, directory: &str, found: &RealPaths, windows: bool) -> (b: bool)
    ensures
        b == legacy_helper(path@, directory@, *found, windows),
{
    same_path(
        path,
        paths::join(directory, LEGACY_WINDOWS_HELPER_FILE).as_str(),
        borrowed(&found.configured),
        borrowed(&found.legacy_windows),
        windows,
    ) || same_path(
        path,
        paths::join(directory, LEGACY_HELPER_FILE).as_str(),
        borrowed(&found.configured),
        borrowed(&found.legacy),
        windows,
    )
}

/// Whether a path is that of the helper.
pub fn is_current_helper_path(path: &str, directory: &str, found: &RealPaths, windows: bool) -> (b: bool)
    ensures
        b == current_helper(path@, directory@, *found, windows),
{
    same_path(
        path,
        paths::join(directory, HELPER_FILE).as_str(),
        borrowed(&found.configured),
        borrowed(&found.current),
        windows,
    )
}

/// A character with a meaning to a shell.
pub open spec fn shell_char(c: char) -> bool {
    text::white(c) || c == '&' || c == '|' || c == ';' || c == '\'' || c == '"' || c == '`' || c == '$' || c == '('
        || c == ')' || c == '<' || c == '>' || c == '!' || c == '*' || c == '?' || c == '[' || c == ']' || c == '{'
        || c == '}'
}

/// No character of a path has a meaning to a shell.
pub open spec fn eval_safe(path: Seq<char>) -> bool {
    forall|i: int| 0 <= i < path.len() ==> !shell_char(#[trigger] path[i])
}

/// Whether no character of a path has a meaning to a shell.
pub fn path_is_posix_eval_safe(path: &str) -> (b: bool)
    ensures
        b == eval_safe(path@),
{
    let chars: Vec<char> = text::chars_of(path);
    let mut i: usize = 0;
    while i < chars.len()
        invariant
            i <= chars@.len(),
            chars@ == path@,
            forall|j: int| 0 <= j < i ==> !shell_char(#[trigger] path@[j]),
        decreases chars@.len() - i,
    {
        let c: char = chars[i];
        if text::is_white(c) || c == '&' || c == '|' || c == ';' || c == '\'' || c == '"' || c == '`' || c == '$'
            || c == '(' || c == ')' || c == '<' || c == '>' || c == '!' || c == '*' || c == '?' || c == '[' || c == ']'
            || c == '{' || c == '}' {
            assert(shell_char(path@[i as int]));
            return false;
        }
        i += 1;
    }
    true
}

/// The path to configure on Windows: the path, or else its short form.
pub open spec fn configured_path(path: Seq<char>, short: Option<Seq<char>>, windows: bool) -> Result<
    Seq<char>,
    Seq<char>,
> {
    if eval_safe(path) {
        Ok(path)
    } else if short.is_some() && eval_safe(short.unwrap()) {
        Ok(short.unwrap())
    } else {
        Err(
            helper_error(
                "配置阶段"@,
                "helper 路径含有 shell 不安全字符，且 Windows 无法生成可供 CodeBuddy 2.138.0 执行的短路径"@,
                windows,
            ),
        )
    }
}

/// A text result.
pub open spec fn text_outcome(r: Result<String, String>) -> Result<Seq<char>, Seq<char>> {
    match r {
        Ok(s) => Ok(s@),
        Err(e) => Err(e@),
    }
}

/// The path to configure on Windows: the path where a shell takes it as it is,
/// else its short form where a shell takes that.
pub fn select_windows_configured_path(path: &str, short_path: Option<&str>, windows: bool) -> (r: Result<
    String,
    String,
>)
    ensures
        text_outcome(r) == configured_path(path@, json::opt_text(short_path), windows),
{
    if path_is_posix_eval_safe(path) {
        return Ok(path.to_owned());
    }
    match short_path {
        Some(short) => {
            if path_is_posix_eval_safe(short) {
                return Ok(short.to_owned());
            }
        },
        None => {},
    }
    Err(
        helper_validation_error(
            "配置阶段",
            "helper 路径含有 shell 不安全字符，且 Windows 无法生成可供 CodeBuddy 2.138.0 执行的短路径",
            windows,
        ),
    )
}

/// What came of running the helper.
pub struct HelperRun {
    pub success: bool,
    pub code: Option<i32>,
    pub stdout: Vec<u8>,
}

/// An exit code in words.
pub open spec fn code_text(code: Option<i32>) -> Seq<char> {
    match code {
        Some(n) => text::int_text(n as int),
        None => "未知"@,
    }
}

/// What the helper's result says, `out` being what it printed, for the token that
/// it should have printed.
pub open spec fn helper_verdict(
    success: bool,
    code: Option<i32>,
    out: Seq<char>,
    expected: Seq<char>,
    windows: bool,
) -> Result<(), Seq<char>> {
    if !success {
        Err(helper_error("执行阶段"@, "helper 退出码为 "@ + code_text(code), windows))
    } else if text::trim(out).len() == 0 {
        Err(helper_error("输出阶段"@, "helper 未返回认证结果"@, windows))
    } else if text::trim(out) != "Bearer "@ + expected {
        Err(helper_error("输出阶段"@, "helper 返回的认证结果与所选账号不一致"@, windows))
    } else {
        Ok(())
    }
}

/// Whether the helper, which ended as given and printed `out`, gave the token.
pub fn judge_helper(success: bool, code: Option<i32>, out: &str, expected: &str, windows: bool) -> (r: Result<
    (),
    String,
>)
    ensures
        outcome(r) == helper_verdict(success, code, out@, expected@, windows),
{
    if !success {
        let written: String = match code {
            Some(n) => text::text_of_i64(n as i64),
            None => "未知".to_owned(),
        };
        let cause: String = text::concat("helper 退出码为 ", written.as_str());
        return Err(helper_validation_error("执行阶段", cause.as_str(), windows));
    }
    let chars: Vec<char> = text::chars_of(out);
    let t: &[char] = text::trim_slice(chars.as_slice());
    if t.len() == 0 {
        return Err(helper_validation_error("输出阶段", "helper 未返回认证结果", windows));
    }
    let wanted: String = text::concat("Bearer ", expected);
    if !text::slice_is(t, wanted.as_str()) {
        return Err(helper_validation_error("输出阶段", "helper 返回的认证结果与所选账号不一致", windows));
    }
    Ok(())
}

/// Whether the helper gave the token, by its exit and the bytes it printed.
pub fn validate_helper_result(
    success: bool,
    exit_code: Option<i32>,
    stdout: &[u8],
    expected_token: &str,
    windows: bool,
) -> (r: Result<(), String>)
    ensures
        outcome(r) == helper_verdict(
            success,
            exit_code,
            log_scan::lossy_text_of(stdout@),
            expected_token@,
            windows,
        ),
{
    let out: String = lossy_text(stdout);
    judge_helper(success, exit_code, out.as_str(), expected_token, windows)
}

/// An absolute path of a program named `node`.
pub open spec fn node_path(path: Seq<char>) -> bool {
    path.len() > 0 && path[0] == '/' && paths::last_part(paths::bare(path, false)) == "node"@
}

fn is_node_path(path: &[char]) -> (b: bool)
    ensures
        b == node_path(path@),
{
    path.len() > 0 && path[0] == '/' && text::slice_is(paths::last_part_of(paths::bare_of(path, false)), "node")
}

/// The last of the first `n` lines that is an absolute path of `node`.
pub open spec fn last_node(lines: Seq<Seq<char>>, n: int) -> Option<Seq<char>>
    decreases n,
{
    if n <= 0 {
        None
    } else if node_path(text::trim(lines[n - 1])) {
        Some(text::trim(lines[n - 1]))
    } else {
        last_node(lines, n - 1)
    }
}

/// The path of `node` in what a shell printed: the last line that is one.
pub fn last_node_line(out: &str) -> (r: Option<String>)
    ensures
        json::opt_string(r) == last_node(text::lines(out@), text::lines(out@).len() as int),
{
    let chars: Vec<char> = text::chars_of(out);
    let ranges: Vec<(usize, usize)> = text::line_ranges(chars.as_slice());
    let ghost all = text::lines(out@);
    let mut n: usize = ranges.len();
    while n > 0
        invariant
            n <= ranges@.len(),
            chars@ == out@,
            all == text::lines(out@),
            ranges@.len() == all.len(),
            text::ranges_of_lines(chars@, ranges@),
            last_node(all, all.len() as int) == last_node(all, n as int),
        decreases n,
    {
        let range: (usize, usize) = ranges[n - 1];
        let line: &[char] = text::trim_slice(slice_subrange(chars.as_slice(), range.0, range.1));
        if is_node_path(line) {
            return Some(text::text_of(line));
        }
        n -= 1;
    }
    None
}

/// The path of `node` in the bytes that a shell printed.
pub fn node_path_from_shell_output(stdout: &[u8]) -> (r: Option<String>)
    ensures
        json::opt_string(r) == last_node(
            text::lines(log_scan::lossy_text_of(stdout@)),
            text::lines(log_scan::lossy_text_of(stdout@)).len() as int,
        ),
{
    let out: String = lossy_text(stdout);
    last_node_line(out.as_str())
}

/// The message that an account has no token.
pub open spec fn no_token_error() -> Seq<char> {
    config_error("账号阶段"@, "所选账号没有可用的认证信息，请先重新登录或刷新 Token"@)
}

/// The token of an account, as it stands in it.
pub open spec fn stored_token(acc: JsonV) -> Result<Seq<char>, Seq<char>> {
    match filled(acc.get_str("access_token"@)) {
        Some(token) => Ok(token),
        None => Err(no_token_error()),
    }
}

/// The token of an account, as it stands in it.
pub fn account_token(acc: &Json) -> (r: Result<String, String>)
    ensures
        text_outcome(r) == stored_token(acc@),
{
    match filled_text(acc.get_str("access_token")) {
        Some(token) => Ok(token),
        None => Err(
            auth_config_error("账号阶段", "所选账号没有可用的认证信息，请先重新登录或刷新 Token"),
        ),
    }
}

/// The token of an account, as the settings hold it.
pub open spec fn settings_token(acc: JsonV) -> Result<Seq<char>, Seq<char>> {
    match stored_token(acc) {
        Ok(token) => if bare(token).len() == 0 {
            Err(no_token_error())
        } else {
            Ok(bare(token))
        },
        Err(e) => Err(e),
    }
}

/// The token of an account, as the settings hold it.
pub fn settings_account_token(acc: &Json) -> (r: Result<String, String>)
    ensures
        text_outcome(r) == settings_token(acc@),
{
    let stored: String = match account_token(acc) {
        Ok(token) => token,
        Err(e) => {
            return Err(e);
        },
    };
    let token: String = clean_bearer_token(stored.as_str());
    if text::chars_of(token.as_str()).len() == 0 {
        return Err(auth_config_error("账号阶段", "所选账号没有可用的认证信息，请先重新登录或刷新 Token"));
    }
    Ok(token)
}

/// What running the helper says of an account.
pub open spec fn helper_check(acc: JsonV, run: Result<HelperRun, String>, windows: bool) -> Result<(), Seq<char>> {
    match stored_token(acc) {
        Ok(token) => match run {
            Ok(run) => helper_verdict(
                run.success,
                run.code,
                log_scan::lossy_text_of(run.stdout@),
                token,
                windows,
            ),
            Err(e) => Err(e@),
        },
        Err(e) => Err(e),
    }
}

/// Whether the helper gives the token of an account, by what running it came to.
pub fn validate_helper_for_account(acc: &Json, run: &Result<HelperRun, String>, windows: bool) -> (r: Result<
    (),
    String,
>)
    ensures
        outcome(r) == helper_check(acc@, *run, windows),
{
    let token: String = match account_token(acc) {
        Ok(token) => token,
        Err(e) => {
            return Err(e);
        },
    };
    match run {
        Ok(run) => validate_helper_result(run.success, run.code, run.stdout.as_slice(), token.as_str(), windows),
        Err(e) => Err(e.clone()),
    }
}

/// The state that the text of the file spells; what is no object is the empty one.
pub open spec fn state_in(content: Option<Seq<char>>) -> JsonV {
    match content {
        Some(t) => match json::json_of_text(t) {
            Ok(value) => if value is Obj {
                value
            } else {
                JsonV::empty()
            },
            Err(_) => JsonV::empty(),
        },
        None => JsonV::empty(),
    }
}

/// The state that the text of the file spells; what is no object is the empty one.
pub fn load_state(content: Option<&str>) -> (r: Json)
    ensures
        r@ == state_in(json::opt_text(content)),
        r@ is Obj,
{
    match content {
        Some(t) => match parse_json(t) {
            Ok(value) => if value.is_obj() {
                value
            } else {
                Json::object()
            },
            Err(_) => Json::object(),
        },
        None => Json::object(),
    }
}

/// A place in the list of accounts and the id that is written down for it.
pub open spec fn place_view(o: Option<(usize, String)>) -> Option<(int, Seq<char>)> {
    match o {
        Some(p) => Some((p.0 as int, p.1@)),
        None => None,
    }
}

/// An account bears the given id or uid.
pub open spec fn bears(acc: JsonV, id: Seq<char>) -> bool {
    acc.get_str("id"@) == Some(id) || acc.get_str("uid"@) == Some(id)
}

/// The id of an account, or else the one it was asked for by.
pub open spec fn canonical(acc: JsonV, asked: Seq<char>) -> Seq<char> {
    match acc.get_str("id"@) {
        Some(id) => id,
        None => asked,
    }
}

/// The first account, from the `i`th on, that bears the given id or uid.
pub open spec fn place_from(accounts: Seq<JsonV>, id: Seq<char>, i: int) -> Option<(int, Seq<char>)>
    decreases accounts.len() - i,
{
    if i < 0 || i >= accounts.len() {
        None
    } else if bears(accounts[i], id) {
        Some((i, canonical(accounts[i], id)))
    } else {
        place_from(accounts, id, i + 1)
    }
}

pub fn text_is(o: Option<&str>, s: &str) -> (b: bool)
    ensures
        b == (json::opt_text(o) == Some(s@)),
{
    match o {
        Some(t) => same(t, s),
        None => false,
    }
}

/// The first account that bears the given id or uid: its place and its id.
pub fn account_index(accounts: &[Json], account_id: &str) -> (r: Option<(usize, String)>)
    ensures
        place_view(r) == place_from(json::list_view(accounts@), account_id@, 0),
{
    let ghost all = json::list_view(accounts@);
    let mut i: usize = 0;
    while i < accounts.len()
        invariant
            i <= accounts@.len(),
            all == json::list_view(accounts@),
            place_from(all, account_id@, 0) == place_from(all, account_id@, i as int),
        decreases accounts@.len() - i,
    {
        assert(all[i as int] == accounts@[i as int]@);
        if text_is(accounts[i].get_str("id"), account_id) || text_is(accounts[i].get_str("uid"), account_id) {
            let id: String = match accounts[i].get_str("id") {
                Some(id) => id.to_owned(),
                None => account_id.to_owned(),
            };
            return Some((i, id));
        }
        i += 1;
    }
    None
}

/// The place that a number points to, counted round the list.
pub open spec fn place_by_number(accounts: Seq<JsonV>, number: int) -> Option<(int, Seq<char>)> {
    let i = number % (accounts.len() as int);
    match accounts[i].get_str("id"@) {
        Some(id) => Some((i, id)),
        None => None,
    }
}

/// The account that the state names: by its id where an account bears it, else by
/// its number, counted round the list.
pub open spec fn state_place(state: JsonV, accounts: Seq<JsonV>) -> Option<(int, Seq<char>)> {
    if accounts.len() == 0 {
        None
    } else {
        let number = match state.get_i64("active"@) {
            Some(n) => n,
            None => 0,
        };
        match state.get_str("activeAccountId"@) {
            Some(id) => match place_from(accounts, id, 0) {
                Some(p) => Some(p),
                None => place_by_number(accounts, number),
            },
            None => place_by_number(accounts, number),
        }
    }
}

fn remainder(a: i64, n: usize) -> (r: usize)
    requires
        n > 0,
    ensures
        r == (a as int) % (n as int),
        r < n,
{
    if a >= 0 {
        let r: u64 = (a as u64) % (n as u64);
        r as usize
    } else {
        let k: u64 = (-(a + 1)) as u64;
        let m: u64 = k % (n as u64);
        proof {
            let q = (k as int) / (n as int);
            vstd::arithmetic::div_mod::lemma_fundamental_div_mod(k as int, n as int);
            assert(a as int == (-(q + 1)) * (n as int) + (n - 1 - m)) by (nonlinear_arith)
                requires
                    k as int == (n as int) * q + m,
                    k as int == -(a + 1),
            ;
            vstd::arithmetic::div_mod::lemma_fundamental_div_mod_converse(
                a as int,
                n as int,
                -(q + 1),
                n - 1 - m,
            );
        }
        n - 1 - (m as usize)
    }
}

/// The account that the state names: its place and its id.
pub fn state_account_index(state: &Json, accounts: &[Json]) -> (r: Option<(usize, String)>)
    ensures
        place_view(r) == state_place(state@, json::list_view(accounts@)),
{
    assert(json::list_view(accounts@).len() == accounts@.len());
    if accounts.len() == 0 {
        return None;
    }
    match state.get_str("activeAccountId") {
        Some(id) => {
            let found: Option<(usize, String)> = account_index(accounts, id);
            if found.is_some() {
                return found;
            }
        },
        None => {},
    }
    let number: i64 = match state.get_i64("active") {
        Some(n) => n,
        None => 0,
    };
    let i: usize = remainder(number, accounts.len());
    assert(json::list_view(accounts@)[i as int] == accounts@[i as int]@);
    match accounts[i].get_str("id") {
        Some(id) => Some((i, id.to_owned())),
        None => None,
    }
}

/// An account has an id and holds a token.
pub open spec fn holds(acc: JsonV, token: Seq<char>) -> bool {
    match acc.get_str("access_token"@) {
        Some(t) => bare(t) == token && acc.get_str("id"@).is_some(),
        None => false,
    }
}

/// The first account, from the `i`th on, that has an id and holds a token.
pub open spec fn holder_from(accounts: Seq<JsonV>, token: Seq<char>, i: int) -> Option<(int, Seq<char>)>
    decreases accounts.len() - i,
{
    if i < 0 || i >= accounts.len() {
        None
    } else if holds(accounts[i], token) {
        Some((i, accounts[i].get_str("id"@).unwrap()))
    } else {
        holder_from(accounts, token, i + 1)
    }
}

/// The account that holds a token.
pub open spec fn token_place(accounts: Seq<JsonV>, token: Seq<char>) -> Option<(int, Seq<char>)> {
    if bare(token).len() == 0 {
        None
    } else {
        holder_from(accounts, bare(token), 0)
    }
}

/// The first account that has an id and holds a token: its place and its id.
pub fn account_index_by_token(accounts: &[Json], token: &str) -> (r: Option<(usize, String)>)
    ensures
        place_view(r) == token_place(json::list_view(accounts@), token@),
{
    let expected: String = clean_bearer_token(token);
    if text::chars_of(expected.as_str()).len() == 0 {
        return None;
    }
    let ghost all = json::list_view(accounts@);
    let mut i: usize = 0;
    while i < accounts.len()
        invariant
            i <= accounts@.len(),
            all == json::list_view(accounts@),
            expected@ == bare(token@),
            expected@.len() > 0,
            holder_from(all, expected@, 0) == holder_from(all, expected@, i as int),
        decreases accounts@.len() - i,
    {
        assert(all[i as int] == accounts@[i as int]@);
        let fits: bool = match accounts[i].get_str("access_token") {
            Some(t) => same(clean_bearer_token(t).as_str(), expected.as_str()),
            None => false,
        };
        if fits {
            match accounts[i].get_str("id") {
                Some(id) => {
                    return Some((i, id.to_owned()));
                },
                None => {},
            }
        }
        i += 1;
    }
    None
}

/// The account in use: on Windows the one whose token the settings hold, elsewhere
/// the one that the state names.
pub open spec fn active_place(
    accounts: Seq<JsonV>,
    state: JsonV,
    settings: Option<JsonV>,
    windows: bool,
) -> Option<(int, Seq<char>)> {
    if windows {
        match settings {
            Some(s) => match env_token(s) {
                Some(token) => token_place(accounts, token),
                None => None,
            },
            None => None,
        }
    } else {
        state_place(state, accounts)
    }
}

/// The account in use: its place and its id.
pub fn active_account(accounts: &[Json], state: &Json, settings: Option<&Json>, windows: bool) -> (r: Option<
    (usize, String),
>)
    ensures
        place_view(r) == active_place(
            json::list_view(accounts@),
            state@,
            json::opt_view(settings),
            windows,
        ),
{
    if windows {
        match settings {
            Some(s) => match settings_env_token(s) {
                Some(token) => account_index_by_token(accounts, token.as_str()),
                None => None,
            },
            None => None,
        }
    } else {
        state_account_index(state, accounts)
    }
}

/// A place that was found lies in the list.
proof fn place_within(accounts: Seq<JsonV>, id: Seq<char>, i: int)
    ensures
        match place_from(accounts, id, i) {
            Some(p) => i <= p.0 < accounts.len() && bears(accounts[p.0], id) && p.1 == canonical(
                accounts[p.0],
                id,
            ) && (forall|j: int| i <= j < p.0 ==> !bears(#[trigger] accounts[j], id)),
            None => true,
        },
    decreases accounts.len() - i,
{
    if 0 <= i < accounts.len() && !bears(accounts[i], id) {
        place_within(accounts, id, i + 1);
    }
}

proof fn holder_within(accounts: Seq<JsonV>, token: Seq<char>, i: int)
    ensures
        match holder_from(accounts, token, i) {
            Some(p) => i <= p.0 < accounts.len(),
            None => true,
        },
    decreases accounts.len() - i,
{
    if 0 <= i < accounts.len() && !holds(accounts[i], token) {
        holder_within(accounts, token, i + 1);
    }
}

proof fn active_within(accounts: Seq<JsonV>, state: JsonV, settings: Option<JsonV>, windows: bool)
    ensures
        match active_place(accounts, state, settings, windows) {
            Some(p) => 0 <= p.0 < accounts.len(),
            None => true,
        },
{
    if windows {
        match settings {
            Some(s) => match env_token(s) {
                Some(token) => holder_within(accounts, bare(token), 0),
                None => {},
            },
            None => {},
        }
    } else {
        match state.get_str("activeAccountId"@) {
            Some(id) => place_within(accounts, id, 0),
            None => {},
        }
    }
}

/// The edition of the account in use.
pub open spec fn active_variant(
    accounts: Seq<JsonV>,
    state: JsonV,
    settings: Option<JsonV>,
    windows: bool,
) -> Option<WbVariant> {
    match active_place(accounts, state, settings, windows) {
        Some(p) => Some(variant::variant_in(accounts[p.0])),
        None => None,
    }
}

/// The edition of the account in use.
pub fn current_cli_variant(accounts: &[Json], state: &Json, settings: Option<&Json>, windows: bool) -> (r: Option<
    WbVariant,
>)
    ensures
        r == active_variant(json::list_view(accounts@), state@, json::opt_view(settings), windows),
{
    let ghost all = json::list_view(accounts@);
    proof {
        active_within(all, state@, json::opt_view(settings), windows);
    }
    match active_account(accounts, state, settings, windows) {
        Some(p) => {
            assert(all[p.0 as int] == accounts@[p.0 as int]@);
            Some(WbVariant::from_account(&accounts[p.0]))
        },
        None => None,
    }
}

/// What a renewed token means for the settings.
pub enum TokenSync {
    /// They are left alone.
    Leave,
    /// They hold it already.
    Synced,
    /// They are to be written with it.
    Write { settings: Json, token: String, edition: WbVariant },
}

/// What a renewed token means for the settings.
#[verifier::ext_equal]
pub enum TokenSyncV {
    Leave,
    Synced,
    Write { settings: JsonV, token: Seq<char>, edition: WbVariant },
}

impl TokenSync {
    pub open spec fn view(&self) -> TokenSyncV {
        match self {
            TokenSync::Leave => TokenSyncV::Leave,
            TokenSync::Synced => TokenSyncV::Synced,
            TokenSync::Write { settings, token, edition } => TokenSyncV::Write {
                settings: settings@,
                token: token@,
                edition: *edition,
            },
        }
    }
}

/// The result of looking at a renewed token.
pub open spec fn sync_view(r: Result<TokenSync, String>) -> Result<TokenSyncV, Seq<char>> {
    match r {
        Ok(s) => Ok(s@),
        Err(e) => Err(e@),
    }
}

/// The settings still hold the token from before, or already the new one, of the
/// account that the state names.
pub open spec fn sync_step(
    settings: JsonV,
    state: JsonV,
    accounts: Seq<JsonV>,
    acc: JsonV,
    previous: Option<Seq<char>>,
) -> TokenSyncV {
    let held = env_token(settings);
    let named = state_place(state, accounts);
    let token = acc.get_str("access_token"@);
    if held.is_none() || named.is_none() || token.is_none() || acc.get_str("id"@) != Some(named.unwrap().1) {
        TokenSyncV::Leave
    } else if bare(token.unwrap()) == bare(held.unwrap()) {
        TokenSyncV::Synced
    } else if previous.is_some() && bare(previous.unwrap()) == bare(held.unwrap()) {
        match account_settings(settings, token.unwrap(), variant::variant_in(acc)) {
            Ok(changed) => TokenSyncV::Write {
                settings: changed,
                token: token.unwrap(),
                edition: variant::variant_in(acc),
            },
            Err(_) => TokenSyncV::Leave,
        }
    } else {
        TokenSyncV::Leave
    }
}

/// What a renewed token of an account means for the settings on Windows. They are
/// written only where the state names the account and they still hold the token
/// it had before; `settings` is what the file holds, where that is JSON.
pub fn sync_windows_env_for_account(
    acc: &Json,
    previous_access_token: Option<&str>,
    windows: bool,
    process_token: Option<&str>,
    settings: Option<&Json>,
    state: &Json,
    accounts: &[Json],
) -> (r: Result<TokenSync, String>)
    ensures
        sync_view(r) == (if !windows {
            Ok(TokenSyncV::Leave)
        } else if overrides(json::opt_text(process_token)) {
            Err(override_error())
        } else {
            match json::opt_view(settings) {
                Some(s) => Ok(
                    sync_step(s, state@, json::list_view(accounts@), acc@, json::opt_text(previous_access_token)),
                ),
                None => Ok(TokenSyncV::Leave),
            }
        }),
{
    if !windows {
        return Ok(TokenSync::Leave);
    }
    match ensure_no_process_env_override(process_token) {
        Ok(_) => {},
        Err(e) => {
            return Err(e);
        },
    }
    let settings: &Json = match settings {
        Some(s) => s,
        None => {
            return Ok(TokenSync::Leave);
        },
    };
    let held: String = match settings_env_token(settings) {
        Some(token) => token,
        None => {
            return Ok(TokenSync::Leave);
        },
    };
    let named: (usize, String) = match state_account_index(state, accounts) {
        Some(p) => p,
        None => {
            return Ok(TokenSync::Leave);
        },
    };
    if !text_is(acc.get_str("id"), named.1.as_str()) {
        return Ok(TokenSync::Leave);
    }
    let token: &str = match acc.get_str("access_token") {
        Some(token) => token,
        None => {
            return Ok(TokenSync::Leave);
        },
    };
    let current: String = clean_bearer_token(held.as_str());
    if same(clean_bearer_token(token).as_str(), current.as_str()) {
        return Ok(TokenSync::Synced);
    }
    let unchanged: bool = match previous_access_token {
        Some(previous) => same(clean_bearer_token(previous).as_str(), current.as_str()),
        None => false,
    };
    if !unchanged {
        return Ok(TokenSync::Leave);
    }
    let edition: WbVariant = WbVariant::from_account(acc);
    match settings_env_update(settings.clone(), token, edition) {
        Ok(changed) => Ok(TokenSync::Write { settings: changed, token: token.to_owned(), edition }),
        Err(_) => {
            assert(false) by {
                assert(env_of(settings@) is Ok);
            }
            Ok(TokenSync::Leave)
        },
    }
}

/// What the machine shows of the setup.
pub struct StatusFacts {
    /// The machine runs Windows.
    pub windows: bool,
    /// The variable of the process that would override the token.
    pub process_token: Option<String>,
    /// The settings file is there.
    pub settings_present: bool,
    /// The configured helper is a file.
    pub helper_present: bool,
    /// The configured helper is this project's.
    pub helper_is_ours: bool,
    /// The configured helper is that of early releases.
    pub helper_is_legacy: bool,
    /// The helper knows accounts by their ids.
    pub supports_ids: bool,
    /// The state file.
    pub state_path: String,
}

/// The name of the account with an id.
pub open spec fn name_of(accounts: Seq<JsonV>, id: Seq<char>) -> JsonV {
    match account::found_from(accounts, id, 0) {
        Some(acc) => JsonV::Str(account::display_name(acc)),
        None => JsonV::Null,
    }
}

/// A way to authenticate.
pub open spec fn auth_mode(windows: bool) -> Seq<char> {
    if windows {
        "settings-env"@
    } else {
        "api-key-helper"@
    }
}

/// The setup as it is shown.
pub open spec fn status_of(facts: StatusFacts, accounts: Seq<JsonV>, state: JsonV, settings: JsonV) -> JsonV {
    let windows = facts.windows;
    let env_configured = env_token(settings).is_some();
    let overridden = windows && overrides(json::opt_string(facts.process_token));
    let active = active_place(accounts, state, Some(settings), windows);
    let configured = if windows {
        env_configured && !overridden
    } else {
        facts.helper_present
    };
    let migration = if windows {
        overridden || (!env_configured && facts.helper_present)
    } else {
        facts.helper_is_legacy
    };
    let current = if windows {
        env_configured
    } else {
        facts.helper_present && facts.helper_is_ours && facts.supports_ids
    };
    let pending = windows && env_configured && active.is_none() && state_place(state, accounts).is_some();
    JsonV::empty().put("configured"@, JsonV::Bool(configured)).put("authMode"@, JsonV::Str(auth_mode(windows))).put(
        "environmentOverride"@,
        JsonV::Bool(overridden),
    ).put("helperCurrent"@, JsonV::Bool(current)).put("migrationRequired"@, JsonV::Bool(migration)).put(
        "syncPending"@,
        JsonV::Bool(pending),
    ).put("settingsPresent"@, JsonV::Bool(facts.settings_present)).put(
        "helperPresent"@,
        JsonV::Bool(facts.helper_present),
    ).put("helperSupportsAccountIds"@, JsonV::Bool(facts.supports_ids)).put(
        "activeIndex"@,
        match active {
            Some(p) => JsonV::Int(p.0),
            None => JsonV::Null,
        },
    ).put(
        "activeAccountId"@,
        match active {
            Some(p) => JsonV::Str(p.1),
            None => JsonV::Null,
        },
    ).put(
        "activeAccountName"@,
        match active {
            Some(p) => name_of(accounts, p.1),
            None => JsonV::Null,
        },
    ).put(
        "activeAccountVariant"@,
        match active {
            Some(p) => JsonV::Str(variant::variant_in(accounts[p.0]).name()),
            None => JsonV::Null,
        },
    ).put("accountCount"@, JsonV::Int(accounts.len() as int)).put("statePath"@, JsonV::Str(facts.state_path@))
}

/// The setup as it is shown: no token and nothing of the helper's text.
pub fn status(facts: &StatusFacts, accounts: &[Json], state: &Json, settings: &Json) -> (r: Json)
    ensures
        r@ == status_of(*facts, json::list_view(accounts@), state@, settings@),
{
    let ghost all = json::list_view(accounts@);
    let windows: bool = facts.windows;
    let env_configured: bool = settings_env_token(settings).is_some();
    let overridden: bool = windows && process_env_token_present(borrowed(&facts.process_token));
    let active: Option<(usize, String)> = active_account(accounts, state, Some(settings), windows);
    proof {
        active_within(all, state@, Some(settings@), windows);
    }
    let expected: bool = state_account_index(state, accounts).is_some();
    let configured: bool = if windows {
        env_configured && !overridden
    } else {
        facts.helper_present
    };
    let migration: bool = if windows {
        overridden || (!env_configured && facts.helper_present)
    } else {
        facts.helper_is_legacy
    };
    let current: bool = if windows {
        env_configured
    } else {
        facts.helper_present && facts.helper_is_ours && facts.supports_ids
    };
    let pending: bool = windows && env_configured && active.is_none() && expected;
    let mode: &str = if windows {
        "settings-env"
    } else {
        "api-key-helper"
    };
    let (index, id, name, edition): (Json, Json, Json, Json) = match &active {
        Some(p) => {
            assert(all[p.0 as int] == accounts@[p.0 as int]@);
            let name: Json = match account::find_account_in(accounts, p.1.as_str()) {
                Some(acc) => Json::Str(account::account_display_name(&acc)),
                None => Json::Null,
            };
            (
                Json::count(p.0),
                Json::text(p.1.as_str()),
                name,
                Json::text(WbVariant::from_account(&accounts[p.0]).as_str()),
            )
        },
        None => (Json::Null, Json::Null, Json::Null, Json::Null),
    };
    Json::object().put("configured", Json::Bool(configured)).put("authMode", Json::text(mode)).put(
        "environmentOverride",
        Json::Bool(overridden),
    ).put("helperCurrent", Json::Bool(current)).put("migrationRequired", Json::Bool(migration)).put(
        "syncPending",
        Json::Bool(pending),
    ).put("settingsPresent", Json::Bool(facts.settings_present)).put(
        "helperPresent",
        Json::Bool(facts.helper_present),
    ).put("helperSupportsAccountIds", Json::Bool(facts.supports_ids)).put("activeIndex", index).put(
        "activeAccountId",
        id,
    ).put("activeAccountName", name).put("activeAccountVariant", edition).put(
        "accountCount",
        Json::count(accounts.len()),
    ).put("statePath", Json::text(facts.state_path.as_str()))
}

/// What setting up an account writes.
pub struct EnvAuth {
    /// The settings to write.
    pub settings: Json,
    /// The token in them.
    pub token: String,
    /// The edition whose caches are to be written.
    pub edition: WbVariant,
}

/// What setting up an account writes: the settings, the token, the edition.
pub open spec fn auth_view(r: Result<EnvAuth, String>) -> Result<(JsonV, Seq<char>, WbVariant), Seq<char>> {
    match r {
        Ok(a) => Ok((a.settings@, a.token@, a.edition)),
        Err(e) => Err(e@),
    }
}

/// The account to set up on Windows: the one that the state names, else the first.
pub open spec fn setup_account(accounts: Seq<JsonV>, state: JsonV) -> Option<JsonV> {
    match state_place(state, accounts) {
        Some(p) => Some(accounts[p.0]),
        None => if accounts.len() > 0 {
            Some(accounts[0])
        } else {
            None
        },
    }
}

/// What setting up an account writes, or why it cannot.
pub open spec fn account_auth(
    acc: JsonV,
    site: Option<Seq<char>>,
    previous: Option<Seq<char>>,
) -> Result<(JsonV, Seq<char>, WbVariant), Seq<char>> {
    let v = variant::variant_in(acc);
    match site_allowed(site, v) {
        Ok(_) => match settings_token(acc) {
            Ok(token) => match prepared(previous, token, v) {
                Ok(settings) => Ok((settings, token, v)),
                Err(e) => Err(e),
            },
            Err(e) => Err(e),
        },
        Err(e) => Err(e),
    }
}

fn auth_for(acc: &Json, site: Option<&str>, previous: Option<&str>) -> (r: Result<EnvAuth, String>)
    ensures
        auth_view(r) == account_auth(acc@, json::opt_text(site), json::opt_text(previous)),
{
    let edition: WbVariant = WbVariant::from_account(acc);
    match ensure_region_env_compatible(site, edition) {
        Ok(_) => {},
        Err(e) => {
            return Err(e);
        },
    }
    let token: String = match settings_account_token(acc) {
        Ok(token) => token,
        Err(e) => {
            return Err(e);
        },
    };
    match prepare_settings_env_update(previous, token.as_str(), edition) {
        Ok(settings) => Ok(EnvAuth { settings, token, edition }),
        Err(e) => Err(e),
    }
}

/// What setting up on Windows writes. `process_token` and `site` are variables of
/// the process, `previous` is the text of the settings file.
pub fn install_env_auth(
    accounts: &[Json],
    state: &Json,
    process_token: Option<&str>,
    site: Option<&str>,
    previous: Option<&str>,
) -> (r: Result<EnvAuth, String>)
    ensures
        auth_view(r) == (if overrides(json::opt_text(process_token)) {
            Err(override_error())
        } else {
            match setup_account(json::list_view(accounts@), state@) {
                Some(acc) => account_auth(acc, json::opt_text(site), json::opt_text(previous)),
                None => Err(config_error("账号阶段"@, "当前没有可供 CodeBuddy CLI 使用的账号"@)),
            }
        }),
{
    let ghost all = json::list_view(accounts@);
    match ensure_no_process_env_override(process_token) {
        Ok(_) => {},
        Err(e) => {
            return Err(e);
        },
    }
    proof {
        active_within(all, state@, None, false);
    }
    let i: usize = match state_account_index(state, accounts) {
        Some(p) => p.0,
        None => {
            if accounts.len() == 0 {
                return Err(auth_config_error("账号阶段", "当前没有可供 CodeBuddy CLI 使用的账号"));
            }
            0
        },
    };
    assert(all[i as int] == accounts@[i as int]@);
    auth_for(&accounts[i], site, previous)
}

/// What is said after setting up.
pub open spec fn setup_message() -> Seq<char> {
    "CodeBuddy CLI 认证配置已更新；当前运行会话不会切换，请由 ACP 重新加载会话或重启 CLI 后生效"@
}

/// The answer after setting up.
pub open spec fn setup_answer(windows: bool, helper_present: bool, supports_ids: bool) -> JsonV {
    JsonV::empty().put("ok"@, JsonV::Bool(true)).put("configured"@, JsonV::Bool(true)).put(
        "authMode"@,
        JsonV::Str(auth_mode(windows)),
    ).put("helperPresent"@, JsonV::Bool(helper_present)).put(
        "helperSupportsAccountIds"@,
        JsonV::Bool(supports_ids),
    ).put("verified"@, JsonV::Bool(true)).put("message"@, JsonV::Str(setup_message()))
}

/// The answer after setting up; elsewhere than on Windows the helper has just been
/// written, so it is there and knows accounts by their ids.
pub fn install_answer(windows: bool, helper_present: bool, supports_ids: bool) -> (r: Json)
    ensures
        r@ == setup_answer(windows, !windows || helper_present, !windows || supports_ids),
{
    let mode: &str = if windows {
        "settings-env"
    } else {
        "api-key-helper"
    };
    Json::object().put("ok", Json::Bool(true)).put("configured", Json::Bool(true)).put("authMode", Json::text(mode)).put(
        "helperPresent",
        Json::Bool(!windows || helper_present),
    ).put("helperSupportsAccountIds", Json::Bool(!windows || supports_ids)).put("verified", Json::Bool(true)).put(
        "message",
        Json::text(
            "CodeBuddy CLI 认证配置已更新；当前运行会话不会切换，请由 ACP 重新加载会话或重启 CLI 后生效",
        ),
    )
}

/// The settings that the installation of the helper writes, or why it is refused.
pub open spec fn helper_settings(
    settings: Option<JsonV>,
    content: Option<Seq<char>>,
    dir: Seq<char>,
    found: RealPaths,
) -> Result<JsonV, Seq<char>> {
    let command = helper_in(settings);
    if command.is_some() && single_path(command.unwrap()).is_none() {
        Err("已有其他 CodeBuddy CLI apiKeyHelper 命令；请先确认后再替换"@)
    } else if command.is_some() && !current_helper(single_path(command.unwrap()).unwrap(), dir, found, false)
        && !legacy_helper(single_path(command.unwrap()).unwrap(), dir, found, false) {
        Err("已有其他 CodeBuddy CLI helper；请先确认后再替换"@)
    } else {
        match settings_in(content) {
            Ok(value) => if value is Obj {
                Ok(value.put("apiKeyHelper"@, JsonV::Str(paths::joined(dir, HELPER_FILE@))))
            } else {
                Err("CodeBuddy settings.json 顶层不是对象"@)
            },
            Err(e) => Err(e),
        }
    }
}

/// The settings of a file as far as it is JSON.
pub open spec fn read_back(content: Option<Seq<char>>) -> Option<JsonV> {
    match content {
        Some(t) => match json::json_of_text(t) {
            Ok(value) => Some(value),
            Err(_) => None,
        },
        None => None,
    }
}

/// Begins the installation of the helper in its directory: the settings to write.
/// A helper that is not this project's is not replaced; neither are settings that
/// cannot be read. `content` is the text of the settings file.
pub fn install_helper(content: Option<&str>, dir: &str, found: &RealPaths) -> (r: Result<Json, String>)
    ensures
        json::parse_view(r) == helper_settings(
            read_back(json::opt_text(content)),
            json::opt_text(content),
            dir@,
            *found,
        ),
{
    let read: Result<Json, String> = read_settings(content);
    let command: Option<String> = match (&read, content) {
        (Ok(settings), Some(_)) => helper_command(Some(settings)),
        _ => None,
    };
    assert(json::opt_string(command) == helper_in(read_back(json::opt_text(content))));
    match command {
        Some(command) => match command_path(command.as_str()) {
            Some(path) => {
                if !is_current_helper_path(path.as_str(), dir, found, false) && !is_legacy_helper_path(
                    path.as_str(),
                    dir,
                    found,
                    false,
                ) {
                    return Err("已有其他 CodeBuddy CLI helper；请先确认后再替换".to_owned());
                }
            },
            None => {
                return Err("已有其他 CodeBuddy CLI apiKeyHelper 命令；请先确认后再替换".to_owned());
            },
        },
        None => {},
    }
    match read {
        Ok(value) => {
            if value.is_obj() {
                Ok(value.put("apiKeyHelper", Json::Str(paths::join(dir, HELPER_FILE))))
            } else {
                Err("CodeBuddy settings.json 顶层不是对象".to_owned())
            }
        },
        Err(e) => Err(e),
    }
}

/// A step of installing the helper.
pub enum InstallStep {
    /// Make the helper's directory.
    MakeDir,
    /// Write the helper.
    WriteHelper,
    /// Make it a program.
    Permit,
    /// Make the directory of the settings.
    MakeSettingsDir,
    /// Write the settings.
    WriteSettings,
    /// Run the helper and look at what it prints.
    Check,
    /// Write the edition's site into the settings.
    Site,
    /// The helpers of early releases go; all is done.
    Done,
    /// Put back, as they were, the settings and the helper where said so, and say why.
    Undo { settings: bool, helper: bool, error: String },
}

/// A step of installing the helper.
#[verifier::ext_equal]
pub enum InstallStepV {
    MakeDir,
    WriteHelper,
    Permit,
    MakeSettingsDir,
    WriteSettings,
    Check,
    Site,
    Done,
    Undo { settings: bool, helper: bool, error: Seq<char> },
}

impl InstallStep {
    pub open spec fn view(&self) -> InstallStepV {
        match self {
            InstallStep::MakeDir => InstallStepV::MakeDir,
            InstallStep::WriteHelper => InstallStepV::WriteHelper,
            InstallStep::Permit => InstallStepV::Permit,
            InstallStep::MakeSettingsDir => InstallStepV::MakeSettingsDir,
            InstallStep::WriteSettings => InstallStepV::WriteSettings,
            InstallStep::Check => InstallStepV::Check,
            InstallStep::Site => InstallStepV::Site,
            InstallStep::Done => InstallStepV::Done,
            InstallStep::Undo { settings, helper, error } => InstallStepV::Undo {
                settings: *settings,
                helper: *helper,
                error: error@,
            },
        }
    }
}

/// The step has changed the settings once it went well, or one before it has.
pub open spec fn settings_written(step: InstallStepV) -> bool {
    step is Check || step is Site
}

/// The helper was written before this step.
pub open spec fn helper_written(step: InstallStepV) -> bool {
    step is Permit || step is MakeSettingsDir || step is WriteSettings || step is Check || step is Site
}

/// The message for a step of the installation that failed; the last two say
/// themselves what went wrong.
pub open spec fn step_error(step: InstallStepV, said: Seq<char>) -> Seq<char> {
    match step {
        InstallStepV::MakeDir => helper_error(
            "安装阶段"@,
            "无法创建 helper 目录，请检查用户目录权限"@,
            false,
        ),
        InstallStepV::WriteHelper => helper_error(
            "安装阶段"@,
            "无法写入 helper.cjs，请检查文件权限"@,
            false,
        ),
        InstallStepV::Permit => helper_error("安装阶段"@, "无法设置 helper 执行权限"@, false),
        InstallStepV::MakeSettingsDir => helper_error(
            "配置阶段"@,
            "无法创建 CodeBuddy 配置目录，请检查用户目录权限"@,
            false,
        ),
        InstallStepV::WriteSettings => helper_error(
            "配置阶段"@,
            "无法写入 CodeBuddy settings.json，请检查文件权限"@,
            false,
        ),
        _ => said,
    }
}

/// The step after one that went well.
pub open spec fn step_after(step: InstallStepV) -> InstallStepV {
    match step {
        InstallStepV::MakeDir => InstallStepV::WriteHelper,
        InstallStepV::WriteHelper => InstallStepV::Permit,
        InstallStepV::Permit => InstallStepV::MakeSettingsDir,
        InstallStepV::MakeSettingsDir => InstallStepV::WriteSettings,
        InstallStepV::WriteSettings => InstallStepV::Check,
        InstallStepV::Check => InstallStepV::Site,
        InstallStepV::Site => InstallStepV::Done,
        _ => step,
    }
}

/// What comes after a step of the installation.
pub open spec fn install_next(step: InstallStepV, report: Result<(), Seq<char>>) -> InstallStepV {
    if step is Done || step is Undo {
        step
    } else {
        match report {
            Ok(_) => step_after(step),
            Err(said) => InstallStepV::Undo {
                settings: settings_written(step),
                helper: helper_written(step),
                error: step_error(step, said),
            },
        }
    }
}

fn undo_of(settings: bool, helper: bool, error: String) -> (r: InstallStep)
    ensures
        r@ == (InstallStepV::Undo { settings, helper, error: error@ }),
{
    InstallStep::Undo { settings, helper, error }
}

/// What comes after a step of the installation: the next, or where it failed the
/// way back to how things were.
pub fn install_helper_next(step: InstallStep, report: Result<(), String>) -> (r: InstallStep)
    ensures
        r@ == install_next(step@, outcome(report)),
{
    match report {
        Ok(_) => match step {
            InstallStep::MakeDir => InstallStep::WriteHelper,
            InstallStep::WriteHelper => InstallStep::Permit,
            InstallStep::Permit => InstallStep::MakeSettingsDir,
            InstallStep::MakeSettingsDir => InstallStep::WriteSettings,
            InstallStep::WriteSettings => InstallStep::Check,
            InstallStep::Check => InstallStep::Site,
            InstallStep::Site => InstallStep::Done,
            InstallStep::Done => InstallStep::Done,
            InstallStep::Undo { settings, helper, error } => undo_of(settings, helper, error),
        },
        Err(said) => match step {
            InstallStep::MakeDir => undo_of(
                false,
                false,
                helper_validation_error("安装阶段", "无法创建 helper 目录，请检查用户目录权限", false),
            ),
            InstallStep::WriteHelper => undo_of(
                false,
                false,
                helper_validation_error("安装阶段", "无法写入 helper.cjs，请检查文件权限", false),
            ),
            InstallStep::Permit => undo_of(
                false,
                true,
                helper_validation_error("安装阶段", "无法设置 helper 执行权限", false),
            ),
            InstallStep::MakeSettingsDir => undo_of(
                false,
                true,
                helper_validation_error("配置阶段", "无法创建 CodeBuddy 配置目录，请检查用户目录权限", false),
            ),
            InstallStep::WriteSettings => undo_of(
                false,
                true,
                helper_validation_error("配置阶段", "无法写入 CodeBuddy settings.json，请检查文件权限", false),
            ),
            InstallStep::Check => undo_of(true, true, said),
            InstallStep::Site => undo_of(true, true, said),
            InstallStep::Done => InstallStep::Done,
            InstallStep::Undo { settings, helper, error } => undo_of(settings, helper, error),
        },
    }
}

/// The account by which a new helper is checked, or why there is none.
pub fn install_account(accounts: &[Json], state: &Json) -> (r: Result<usize, String>)
    ensures
        match r {
            Ok(i) => i < accounts@.len() && (match state_place(state@, json::list_view(accounts@)) {
                Some(p) => p.0 == i,
                None => false,
            }),
            Err(e) => state_place(state@, json::list_view(accounts@)).is_none() && e@ == helper_error(
                "账号阶段"@,
                "当前没有可供 helper 验证的账号，请先添加账号"@,
                false,
            ),
        },
{
    proof {
        active_within(json::list_view(accounts@), state@, None, false);
    }
    match state_account_index(state, accounts) {
        Some(p) => Ok(p.0),
        None => Err(
            helper_validation_error("账号阶段", "当前没有可供 helper 验证的账号，请先添加账号", false),
        ),
    }
}

/// What the machine shows before a change of account.
pub struct SwitchFacts {
    /// The machine runs Windows.
    pub windows: bool,
    /// The variable of the process that would override the token.
    pub process_token: Option<String>,
    /// The variable of the process that would override the site.
    pub site: Option<String>,
    /// The configured helper is that of early releases.
    pub helper_is_legacy: bool,
    /// The configured helper is a file.
    pub helper_present: bool,
    /// The text of the settings file.
    pub settings: Option<String>,
}

/// A change of account that may go on.
pub struct Switch {
    /// The place of the account.
    pub index: usize,
    /// Its id.
    pub id: String,
    /// Its edition.
    pub edition: WbVariant,
    /// The settings to write on Windows, and the token in them.
    pub settings: Option<(Json, String)>,
}

/// A change of account that may go on.
#[verifier::ext_equal]
pub struct SwitchV {
    pub index: int,
    pub id: Seq<char>,
    pub edition: WbVariant,
    pub settings: Option<(JsonV, Seq<char>)>,
}

/// A change of account, or why it is refused.
pub open spec fn switch_view(r: Result<Switch, String>) -> Result<SwitchV, Seq<char>> {
    match r {
        Ok(s) => Ok(
            SwitchV {
                index: s.index as int,
                id: s.id@,
                edition: s.edition,
                settings: match s.settings {
                    Some(p) => Some((p.0@, p.1@)),
                    None => None,
                },
            },
        ),
        Err(e) => Err(e@),
    }
}

/// The setup stands against any change of account.
pub open spec fn setup_refusal(facts: SwitchFacts) -> Option<Seq<char>> {
    if facts.windows {
        if overrides(json::opt_string(facts.process_token)) {
            Some(override_error())
        } else {
            None
        }
    } else if facts.helper_is_legacy {
        Some("检测到旧版 CodeBuddy CLI helper；请先在账号页升级 CLI helper"@)
    } else if !facts.helper_present {
        Some(
            "未检测到 CodeBuddy CLI apiKeyHelper；请先在 ~/.codebuddy/settings.json 配置轮换 helper"@,
        )
    } else {
        None
    }
}

/// A change to an account, or why it is refused before anything is closed or written.
pub open spec fn switch_plan(facts: SwitchFacts, accounts: Seq<JsonV>, id: Seq<char>) -> Result<SwitchV, Seq<char>> {
    if setup_refusal(facts).is_some() {
        Err(setup_refusal(facts).unwrap())
    } else {
        match place_from(accounts, id, 0) {
            Some(p) => {
                let v = variant::variant_in(accounts[p.0]);
                if facts.windows {
                    match account_auth(
                        accounts[p.0],
                        json::opt_string(facts.site),
                        json::opt_string(facts.settings),
                    ) {
                        Ok(a) => Ok(
                            SwitchV { index: p.0, id: p.1, edition: v, settings: Some((a.0, a.1)) },
                        ),
                        Err(e) => Err(e),
                    }
                } else {
                    match site_allowed(json::opt_string(facts.site), v) {
                        Ok(_) => Ok(SwitchV { index: p.0, id: p.1, edition: v, settings: None }),
                        Err(e) => Err(e),
                    }
                }
            },
            None => Err("账号不存在"@),
        }
    }
}

/// Begins a change to the account with the given id or uid: all that can be refused
/// is refused here, before a process is closed or a file is written.
pub fn switch_active_account(facts: &SwitchFacts, accounts: &[Json], account_id: &str) -> (r: Result<Switch, String>)
    ensures
        switch_view(r) == switch_plan(*facts, json::list_view(accounts@), account_id@),
{
    let ghost all = json::list_view(accounts@);
    if facts.windows {
        match ensure_no_process_env_override(borrowed(&facts.process_token)) {
            Ok(_) => {},
            Err(e) => {
                return Err(e);
            },
        }
    } else if facts.helper_is_legacy {
        return Err("检测到旧版 CodeBuddy CLI helper；请先在账号页升级 CLI helper".to_owned());
    } else if !facts.helper_present {
        return Err(
            "未检测到 CodeBuddy CLI apiKeyHelper；请先在 ~/.codebuddy/settings.json 配置轮换 helper".to_owned(),
        );
    }
    proof {
        place_within(all, account_id@, 0);
    }
    let (index, id): (usize, String) = match account_index(accounts, account_id) {
        Some(p) => p,
        None => {
            return Err("账号不存在".to_owned());
        },
    };
    assert(all[index as int] == accounts@[index as int]@);
    let edition: WbVariant = WbVariant::from_account(&accounts[index]);
    if facts.windows {
        match auth_for(&accounts[index], borrowed(&facts.site), borrowed(&facts.settings)) {
            Ok(auth) => Ok(
                Switch { index, id, edition, settings: Some((auth.settings, auth.token)) },
            ),
            Err(e) => Err(e),
        }
    } else {
        match ensure_region_env_compatible(borrowed(&facts.site), edition) {
            Ok(_) => Ok(Switch { index, id, edition, settings: None }),
            Err(e) => Err(e),
        }
    }
}

/// The state that names an account.
pub open spec fn naming(state: JsonV, index: int, id: Seq<char>, at: int) -> JsonV {
    state.put("active"@, JsonV::Int(index)).put("activeAccountId"@, JsonV::Str(id)).put(
        "updatedAt"@,
        JsonV::Int(at),
    )
}

/// The state that names an account from a time on.
pub fn switched_state(state: Json, index: usize, id: &str, at: i64) -> (r: Json)
    requires
        state@ is Obj,
    ensures
        r@ == naming(state@, index as int, id@, at as int),
{
    state.put("active", Json::count(index)).put("activeAccountId", Json::text(id)).put("updatedAt", Json::num(at))
}

/// A step of a change of account.
pub enum SwitchStep {
    /// Make the directory of the state.
    MakeDir,
    /// Close every running CodeBuddy CLI.
    Close,
    /// Write the state; so many processes were closed.
    WriteState(usize),
    /// Write the settings, or check the helper and write the site.
    Apply(usize),
    /// The account is changed.
    Done(usize),
    /// Nothing was written: say why.
    Refuse(String),
    /// Put the state back as it was and say why.
    Undo(String),
}

/// How a step of a change of account went.
pub enum SwitchReport {
    /// It was done.
    Fine,
    /// So many processes were closed.
    Closed(usize),
    /// It failed, with a message.
    Failed(String),
}

/// A step of a change of account.
#[verifier::ext_equal]
pub enum SwitchStepV {
    MakeDir,
    Close,
    WriteState(nat),
    Apply(nat),
    Done(nat),
    Refuse(Seq<char>),
    Undo(Seq<char>),
}

/// How a step of a change of account went.
#[verifier::ext_equal]
pub enum SwitchReportV {
    Fine,
    Closed(nat),
    Failed(Seq<char>),
}

impl SwitchStep {
    pub open spec fn view(&self) -> SwitchStepV {
        match self {
            SwitchStep::MakeDir => SwitchStepV::MakeDir,
            SwitchStep::Close => SwitchStepV::Close,
            SwitchStep::WriteState(n) => SwitchStepV::WriteState(*n as nat),
            SwitchStep::Apply(n) => SwitchStepV::Apply(*n as nat),
            SwitchStep::Done(n) => SwitchStepV::Done(*n as nat),
            SwitchStep::Refuse(e) => SwitchStepV::Refuse(e@),
            SwitchStep::Undo(e) => SwitchStepV::Undo(e@),
        }
    }
}

impl SwitchReport {
    pub open spec fn view(&self) -> SwitchReportV {
        match self {
            SwitchReport::Fine => SwitchReportV::Fine,
            SwitchReport::Closed(n) => SwitchReportV::Closed(*n as nat),
            SwitchReport::Failed(e) => SwitchReportV::Failed(e@),
        }
    }
}

/// The message that the directory of the state could not be made.
pub open spec fn state_dir_error(windows: bool) -> Seq<char> {
    if windows {
        config_error("状态阶段"@, "无法创建 CLI 账号状态目录，请检查用户目录权限"@)
    } else {
        helper_error("状态阶段"@, "无法创建 helper 状态目录，请检查用户目录权限"@, windows)
    }
}

/// The message that the state could not be written.
pub open spec fn state_write_error(windows: bool) -> Seq<char> {
    if windows {
        config_error("状态阶段"@, "无法写入所选 CLI 账号状态，请检查文件权限"@)
    } else {
        helper_error("状态阶段"@, "无法写入所选账号状态，请检查文件权限"@, windows)
    }
}

/// What comes after a step of a change of account.
pub open spec fn switch_next(step: SwitchStepV, report: SwitchReportV, windows: bool) -> SwitchStepV {
    match step {
        SwitchStepV::MakeDir => if report is Failed {
            SwitchStepV::Refuse(state_dir_error(windows))
        } else {
            SwitchStepV::Close
        },
        SwitchStepV::Close => match report {
            SwitchReportV::Closed(n) => SwitchStepV::WriteState(n),
            _ => SwitchStepV::WriteState(0),
        },
        SwitchStepV::WriteState(n) => if report is Failed {
            SwitchStepV::Refuse(after_close(state_write_error(windows), n))
        } else {
            SwitchStepV::Apply(n)
        },
        SwitchStepV::Apply(n) => match report {
            SwitchReportV::Failed(e) => SwitchStepV::Undo(after_close(e, n)),
            _ => SwitchStepV::Done(n),
        },
        _ => step,
    }
}

/// What comes after a step of a change of account. Running processes are closed
/// before the state is written, whether or not any could be; a failure after that
/// says that they were.
pub fn close_then_write_state(step: SwitchStep, report: SwitchReport, windows: bool) -> (r: SwitchStep)
    ensures
        r@ == switch_next(step@, report@, windows),
{
    match step {
        SwitchStep::MakeDir => match report {
            SwitchReport::Failed(_) => {
                let e: String = if windows {
                    auth_config_error("状态阶段", "无法创建 CLI 账号状态目录，请检查用户目录权限")
                } else {
                    helper_validation_error("状态阶段", "无法创建 helper 状态目录，请检查用户目录权限", windows)
                };
                SwitchStep::Refuse(e)
            },
            _ => SwitchStep::Close,
        },
        SwitchStep::Close => match report {
            SwitchReport::Closed(n) => SwitchStep::WriteState(n),
            _ => SwitchStep::WriteState(0),
        },
        SwitchStep::WriteState(n) => match report {
            SwitchReport::Failed(_) => {
                let e: String = if windows {
                    auth_config_error("状态阶段", "无法写入所选 CLI 账号状态，请检查文件权限")
                } else {
                    helper_validation_error("状态阶段", "无法写入所选账号状态，请检查文件权限", windows)
                };
                SwitchStep::Refuse(after_close_error(e, n))
            },
            _ => SwitchStep::Apply(n),
        },
        SwitchStep::Apply(n) => match report {
            SwitchReport::Failed(e) => SwitchStep::Undo(after_close_error(e, n)),
            _ => SwitchStep::Done(n),
        },
        SwitchStep::Done(n) => SwitchStep::Done(n),
        SwitchStep::Refuse(e) => SwitchStep::Refuse(e),
        SwitchStep::Undo(e) => SwitchStep::Undo(e),
    }
}

/// The message that no helper is configured when it is to be checked.
pub fn empty_helper_error() -> (r: String)
    ensures
        r@ == helper_error("配置阶段"@, "apiKeyHelper 配置为空"@, false),
{
    helper_validation_error("配置阶段", "apiKeyHelper 配置为空", false)
}

/// The answer after a change of account.
pub open spec fn switch_answer_of(
    windows: bool,
    index: int,
    id: Seq<char>,
    v: WbVariant,
    before: Option<WbVariant>,
    closed: nat,
) -> JsonV {
    JsonV::empty().put("ok"@, JsonV::Bool(true)).put("configured"@, JsonV::Bool(true)).put(
        "synced"@,
        JsonV::Bool(true),
    ).put("verified"@, JsonV::Bool(true)).put("authMode"@, JsonV::Str(auth_mode(windows))).put(
        "activeIndex"@,
        JsonV::Int(index),
    ).put("activeAccountId"@, JsonV::Str(id)).put("regionChanged"@, JsonV::Bool(before != Some(v))).put(
        "cliClosed"@,
        JsonV::Bool(closed > 0),
    ).put("closedProcessCount"@, JsonV::Int(closed as int)).put(
        "message"@,
        JsonV::Str(switch_message(v, before != Some(v), closed)),
    )
}

/// The answer after a change of account; `before` is the edition that was in use.
pub fn switch_answer(
    windows: bool,
    index: usize,
    id: &str,
    edition: WbVariant,
    before: Option<WbVariant>,
    closed_count: usize,
) -> (r: Json)
    ensures
        r@ == switch_answer_of(windows, index as int, id@, edition, before, closed_count as nat),
{
    let mode: &str = if windows {
        "settings-env"
    } else {
        "api-key-helper"
    };
    let changed: bool = match before {
        Some(v) => v != edition,
        None => true,
    };
    Json::object().put("ok", Json::Bool(true)).put("configured", Json::Bool(true)).put("synced", Json::Bool(true)).put(
        "verified",
        Json::Bool(true),
    ).put("authMode", Json::text(mode)).put("activeIndex", Json::count(index)).put("activeAccountId", Json::text(id)).put(
        "regionChanged",
        Json::Bool(changed),
    ).put("cliClosed", Json::Bool(closed_count > 0)).put("closedProcessCount", Json::count(closed_count)).put(
        "message",
        Json::Str(region_switch_message(edition, changed, closed_count)),
    )
}

/// After a change the state names the account: reading it back finds the same
/// place and id, where no earlier account bears that id.
pub proof fn switch_is_read_back(accounts: Seq<JsonV>, asked: Seq<char>, state: JsonV, at: int)
    requires
        place_from(accounts, asked, 0).is_some(),
        forall|j: int|
            0 <= j < place_from(accounts, asked, 0).unwrap().0 ==> !bears(
                #[trigger] accounts[j],
                place_from(accounts, asked, 0).unwrap().1,
            ),
    ensures
        ({
            let p = place_from(accounts, asked, 0).unwrap();
            state_place(naming(state, p.0, p.1, at), accounts) == Some(p)
        }),
{
    let p = place_from(accounts, asked, 0).unwrap();
    place_within(accounts, asked, 0);
    let named = naming(state, p.0, p.1, at);
    reveal_strlit("active");
    reveal_strlit("activeAccountId");
    reveal_strlit("updatedAt");
    assert("active"@.len() != "activeAccountId"@.len());
    assert("updatedAt"@.len() != "activeAccountId"@.len());
    assert(named.get_str("activeAccountId"@) == Some(p.1));
    assert(bears(accounts[p.0], p.1));
    place_is(accounts, p.1, p.0, 0);
}

proof fn place_is(accounts: Seq<JsonV>, id: Seq<char>, k: int, i: int)
    requires
        0 <= i <= k < accounts.len(),
        bears(accounts[k], id),
        forall|j: int| i <= j < k ==> !bears(#[trigger] accounts[j], id),
    ensures
        place_from(accounts, id, i) == Some((k, canonical(accounts[k], id))),
    decreases k - i,
{
    if i < k {
        assert(!bears(accounts[i], id));
        place_is(accounts, id, k, i + 1);
    }
}

/// Any failed installation puts back whatever the steps before the failure wrote,
/// and nothing else.
pub proof fn failed_install_is_undone(step: InstallStepV, said: Seq<char>)
    requires
        !(step is Done),
        !(step is Undo),
    ensures
        install_next(step, Err(said)) == (InstallStepV::Undo {
            settings: step is Check || step is Site,
            helper: !(step is MakeDir || step is WriteHelper),
            error: step_error(step, said),
        }),
{
}

/// The state is written only after running processes were closed, and a change that
/// fails once any was closed says so.
pub proof fn closing_comes_first(step: SwitchStepV, report: SwitchReportV, windows: bool)
    ensures
        switch_next(step, report, windows) is WriteState && !(step is WriteState) ==> step is Close,
        switch_next(step, report, windows) is Apply && !(step is Apply) ==> step is WriteState,
        forall|n: nat|
            n > 0 && (step == SwitchStepV::WriteState(n) || step == SwitchStepV::Apply(n)) && report is Failed
                ==> exists|e: Seq<char>| {
                let said = #[trigger] after_close(e, n);
                switch_next(step, report, windows) == SwitchStepV::Refuse(said) || switch_next(step, report, windows)
                    == SwitchStepV::Undo(said)
            },
{
    match step {
        SwitchStepV::WriteState(n) => {
            assert(after_close(state_write_error(windows), n) == after_close(state_write_error(windows), n));
        },
        SwitchStepV::Apply(n) => {
            match report {
                SwitchReportV::Failed(e) => {
                    assert(after_close(e, n) == after_close(e, n));
                },
                _ => {},
            }
        },
        _ => {},
    }
}

/// What is said of a helper's result does not depend on the token: two tokens that
/// it does not fit are answered alike.
pub proof fn verdicts_tell_no_token(
    success: bool,
    code: Option<i32>,
    out: Seq<char>,
    one: Seq<char>,
    other: Seq<char>,
    windows: bool,
)
    ensures
        helper_verdict(success, code, out, one, windows) is Err && helper_verdict(
            success,
            code,
            out,
            other,
            windows,
        ) is Err ==> helper_verdict(success, code, out, one, windows) == helper_verdict(
            success,
            code,
            out,
            other,
            windows,
        ),
{
}

/// Settings give back the token written into them, and passing through the other
/// edition's site leaves no trace in them.
pub proof fn settings_give_back(settings: JsonV, token: Seq<char>, v: WbVariant, w: WbVariant)
    requires
        env_of(settings) is Ok,
    ensures
        env_token(with_token(settings, token)) == filled(Some(token)),
        env_token(with_site(settings, v)) == env_token(settings),
        with_site(settings, v).get("env"@).unwrap().get_str(CODEBUDDY_INTERNET_ENVIRONMENT@) == Some(site_of(v)),
        with_site(with_site(settings, w), v) == with_site(settings, v),
{
    let env = env_of(settings)->Ok_0;
    reveal_strlit("CODEBUDDY_AUTH_TOKEN");
    reveal_strlit("CODEBUDDY_INTERNET_ENVIRONMENT");
    reveal_strlit("CODEBUDDY_BASE_URL");
    assert(CODEBUDDY_AUTH_TOKEN@.len() == 20);
    assert(CODEBUDDY_INTERNET_ENVIRONMENT@.len() == 30);
    assert(CODEBUDDY_BASE_URL@.len() == 18);
    let a = with_site(settings, v);
    let b = with_site(settings, w);
    assert(a.get("env"@) == Some(site_env(env, v)));
    assert(b.get("env"@) == Some(site_env(env, w)));
    assert(site_env(site_env(env, w), v)->Obj_0 =~= site_env(env, v)->Obj_0);
    assert(with_site(b, v)->Obj_0 =~= a->Obj_0);
    if settings.get("env"@).is_none() {
        assert(env_token(settings).is_none());
        assert(site_env(env, v).get_str(CODEBUDDY_AUTH_TOKEN@).is_none());
    }
}

/// An account once set up on Windows is in use: its token, where that is not marked
/// as a bearer's twice over, leads back to an account that holds the same one.
pub proof fn set_up_account_is_in_use(
    accounts: Seq<JsonV>,
    i: int,
    token: Seq<char>,
    settings: JsonV,
    state: JsonV,
    v: WbVariant,
)
    requires
        0 <= i < accounts.len(),
        env_of(settings) is Ok,
        accounts[i].get_str("id"@).is_some(),
        settings_token(accounts[i]) == Ok::<Seq<char>, Seq<char>>(token),
        bare(token) == token,
    ensures
        match account_settings(settings, token, v) {
            Ok(written) => match active_place(accounts, state, Some(written), true) {
                Some(p) => 0 <= p.0 <= i && holds(accounts[p.0], token),
                None => false,
            },
            Err(_) => false,
        },
{
    let kept = with_token(settings, token);
    let stored = accounts[i].get_str("access_token"@).unwrap();
    text::trim_settles(stored);
    assert(bare(stored) == token);
    bare_is_trimmed(token);
    settings_give_back(settings, token, v, v);
    assert(env_of(kept) is Ok);
    settings_give_back(kept, token, v, v);
    holder_found(accounts, token, i, 0);
}

proof fn bare_is_trimmed(token: Seq<char>)
    ensures
        text::trim(bare(token)) == bare(token),
{
    let t = text::trim(token);
    text::trim_settles(token);
    if t == "Bearer"@ {
        assert(text::trim(Seq::<char>::empty()) =~= Seq::<char>::empty());
    } else {
        match after(t, "Bearer "@) {
            Some(rest) => text::trim_settles(rest),
            None => text::trim_settles(t),
        }
    }
}

proof fn holder_found(accounts: Seq<JsonV>, token: Seq<char>, k: int, i: int)
    requires
        0 <= i <= k < accounts.len(),
        holds(accounts[k], token),
    ensures
        match holder_from(accounts, token, i) {
            Some(p) => i <= p.0 <= k && holds(accounts[p.0], token),
            None => false,
        },
    decreases k - i,
{
    if !holds(accounts[i], token) {
        holder_found(accounts, token, k, i + 1);
    }
}

} // verus!
