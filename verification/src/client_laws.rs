//! What switching the other clients and reading their logs promise.
use vstd::prelude::*;
use crate::account;
use crate::cli_process;
use crate::cli_process::EndStepV;
use crate::codebuddy_cli;
use crate::codebuddy_cli::{StatusFacts, System, TokenSyncV};
use crate::codebuddy_cn_ide;
use crate::codebuddy_cn_ide::{CloseStepV, IdeFacts, PathMemory, Processes, StartupV};
use crate::json;
use crate::json::JsonV;
use crate::log_scan;
use crate::log_scan::{AuthMarker, LogFormat, ScannerV};
use crate::paths;
use crate::text;
use crate::variant;
use crate::variant::WbVariant;

verus! {

proof fn env_names()
    ensures
        "CODEBUDDY_AUTH_TOKEN"@ != "CODEBUDDY_INTERNET_ENVIRONMENT"@,
        "CODEBUDDY_AUTH_TOKEN"@ != "CODEBUDDY_BASE_URL"@,
        "CODEBUDDY_INTERNET_ENVIRONMENT"@ != "CODEBUDDY_BASE_URL"@,
{
    reveal_strlit("CODEBUDDY_AUTH_TOKEN");
    reveal_strlit("CODEBUDDY_INTERNET_ENVIRONMENT");
    reveal_strlit("CODEBUDDY_BASE_URL");
    assert("CODEBUDDY_AUTH_TOKEN"@.len() == 20);
    assert("CODEBUDDY_INTERNET_ENVIRONMENT"@.len() == 30);
    assert("CODEBUDDY_BASE_URL"@.len() == 18);
}

proof fn status_names()
    ensures
        "configured"@ != "authMode"@,
        "configured"@ != "environmentOverride"@,
        "configured"@ != "helperCurrent"@,
        "configured"@ != "migrationRequired"@,
        "configured"@ != "syncPending"@,
        "configured"@ != "settingsPresent"@,
        "configured"@ != "helperPresent"@,
        "configured"@ != "helperSupportsAccountIds"@,
        "configured"@ != "activeIndex"@,
        "configured"@ != "activeAccountId"@,
        "configured"@ != "activeAccountName"@,
        "configured"@ != "activeAccountVariant"@,
        "configured"@ != "accountCount"@,
        "configured"@ != "statePath"@,
        "authMode"@ != "environmentOverride"@,
        "authMode"@ != "helperCurrent"@,
        "authMode"@ != "migrationRequired"@,
        "authMode"@ != "syncPending"@,
        "authMode"@ != "settingsPresent"@,
        "authMode"@ != "helperPresent"@,
        "authMode"@ != "helperSupportsAccountIds"@,
        "authMode"@ != "activeIndex"@,
        "authMode"@ != "activeAccountId"@,
        "authMode"@ != "activeAccountName"@,
        "authMode"@ != "activeAccountVariant"@,
        "authMode"@ != "accountCount"@,
        "authMode"@ != "statePath"@,
        "environmentOverride"@ != "helperCurrent"@,
        "environmentOverride"@ != "migrationRequired"@,
        "environmentOverride"@ != "syncPending"@,
        "environmentOverride"@ != "settingsPresent"@,
        "environmentOverride"@ != "helperPresent"@,
        "environmentOverride"@ != "helperSupportsAccountIds"@,
        "environmentOverride"@ != "activeIndex"@,
        "environmentOverride"@ != "activeAccountId"@,
        "environmentOverride"@ != "activeAccountName"@,
        "environmentOverride"@ != "activeAccountVariant"@,
        "environmentOverride"@ != "accountCount"@,
        "environmentOverride"@ != "statePath"@,
        "helperCurrent"@ != "migrationRequired"@,
        "helperCurrent"@ != "syncPending"@,
        "helperCurrent"@ != "settingsPresent"@,
        "helperCurrent"@ != "helperPresent"@,
        "helperCurrent"@ != "helperSupportsAccountIds"@,
        "helperCurrent"@ != "activeIndex"@,
        "helperCurrent"@ != "activeAccountId"@,
        "helperCurrent"@ != "activeAccountName"@,
        "helperCurrent"@ != "activeAccountVariant"@,
        "helperCurrent"@ != "accountCount"@,
        "helperCurrent"@ != "statePath"@,
        "migrationRequired"@ != "syncPending"@,
        "migrationRequired"@ != "settingsPresent"@,
        "migrationRequired"@ != "helperPresent"@,
        "migrationRequired"@ != "helperSupportsAccountIds"@,
        "migrationRequired"@ != "activeIndex"@,
        "migrationRequired"@ != "activeAccountId"@,
        "migrationRequired"@ != "activeAccountName"@,
        "migrationRequired"@ != "activeAccountVariant"@,
        "migrationRequired"@ != "accountCount"@,
        "migrationRequired"@ != "statePath"@,
        "syncPending"@ != "settingsPresent"@,
        "syncPending"@ != "helperPresent"@,
        "syncPending"@ != "helperSupportsAccountIds"@,
        "syncPending"@ != "activeIndex"@,
        "syncPending"@ != "activeAccountId"@,
        "syncPending"@ != "activeAccountName"@,
        "syncPending"@ != "activeAccountVariant"@,
        "syncPending"@ != "accountCount"@,
        "syncPending"@ != "statePath"@,
        "settingsPresent"@ != "helperPresent"@,
        "settingsPresent"@ != "helperSupportsAccountIds"@,
        "settingsPresent"@ != "activeIndex"@,
        "settingsPresent"@ != "activeAccountId"@,
        "settingsPresent"@ != "activeAccountName"@,
        "settingsPresent"@ != "activeAccountVariant"@,
        "settingsPresent"@ != "accountCount"@,
        "settingsPresent"@ != "statePath"@,
        "helperPresent"@ != "helperSupportsAccountIds"@,
        "helperPresent"@ != "activeIndex"@,
        "helperPresent"@ != "activeAccountId"@,
        "helperPresent"@ != "activeAccountName"@,
        "helperPresent"@ != "activeAccountVariant"@,
        "helperPresent"@ != "accountCount"@,
        "helperPresent"@ != "statePath"@,
        "helperSupportsAccountIds"@ != "activeIndex"@,
        "helperSupportsAccountIds"@ != "activeAccountId"@,
        "helperSupportsAccountIds"@ != "activeAccountName"@,
        "helperSupportsAccountIds"@ != "activeAccountVariant"@,
        "helperSupportsAccountIds"@ != "accountCount"@,
        "helperSupportsAccountIds"@ != "statePath"@,
        "activeIndex"@ != "activeAccountId"@,
        "activeIndex"@ != "activeAccountName"@,
        "activeIndex"@ != "activeAccountVariant"@,
        "activeIndex"@ != "accountCount"@,
        "activeIndex"@ != "statePath"@,
        "activeAccountId"@ != "activeAccountName"@,
        "activeAccountId"@ != "activeAccountVariant"@,
        "activeAccountId"@ != "accountCount"@,
        "activeAccountId"@ != "statePath"@,
        "activeAccountName"@ != "activeAccountVariant"@,
        "activeAccountName"@ != "accountCount"@,
        "activeAccountName"@ != "statePath"@,
        "activeAccountVariant"@ != "accountCount"@,
        "activeAccountVariant"@ != "statePath"@,
        "accountCount"@ != "statePath"@,
{
    reveal_strlit("configured");
    reveal_strlit("authMode");
    reveal_strlit("environmentOverride");
    reveal_strlit("helperCurrent");
    reveal_strlit("migrationRequired");
    reveal_strlit("syncPending");
    reveal_strlit("settingsPresent");
    reveal_strlit("helperPresent");
    reveal_strlit("helperSupportsAccountIds");
    reveal_strlit("activeIndex");
    reveal_strlit("activeAccountId");
    reveal_strlit("activeAccountName");
    reveal_strlit("activeAccountVariant");
    reveal_strlit("accountCount");
    reveal_strlit("statePath");
    assert("configured"@.len() == 10);
    assert("authMode"@.len() == 8);
    assert("environmentOverride"@.len() == 19);
    assert("helperCurrent"@.len() == 13);
    assert("migrationRequired"@.len() == 17);
    assert("syncPending"@.len() == 11);
    assert("settingsPresent"@.len() == 15);
    assert("helperPresent"@.len() == 13);
    assert("helperSupportsAccountIds"@.len() == 24);
    assert("activeIndex"@.len() == 11);
    assert("activeAccountId"@.len() == 15);
    assert("activeAccountName"@.len() == 17);
    assert("activeAccountVariant"@.len() == 20);
    assert("accountCount"@.len() == 12);
    assert("statePath"@.len() == 9);
    assert("helperCurrent"@[6] != "helperPresent"@[6]);
    assert("migrationRequired"@[0] != "activeAccountName"@[0]);
    assert("syncPending"@[0] != "activeIndex"@[0]);
    assert("settingsPresent"@[0] != "activeAccountId"@[0]);
}

proof fn session_names()
    ensures
        "id"@ != "token"@,
        "id"@ != "refreshToken"@,
        "id"@ != "expiresAt"@,
        "id"@ != "domain"@,
        "id"@ != "accessToken"@,
        "id"@ != "converted"@,
        "id"@ != "account"@,
        "id"@ != "auth"@,
        "token"@ != "refreshToken"@,
        "token"@ != "expiresAt"@,
        "token"@ != "domain"@,
        "token"@ != "accessToken"@,
        "token"@ != "converted"@,
        "token"@ != "account"@,
        "token"@ != "auth"@,
        "refreshToken"@ != "expiresAt"@,
        "refreshToken"@ != "domain"@,
        "refreshToken"@ != "accessToken"@,
        "refreshToken"@ != "converted"@,
        "refreshToken"@ != "account"@,
        "refreshToken"@ != "auth"@,
        "expiresAt"@ != "domain"@,
        "expiresAt"@ != "accessToken"@,
        "expiresAt"@ != "converted"@,
        "expiresAt"@ != "account"@,
        "expiresAt"@ != "auth"@,
        "domain"@ != "accessToken"@,
        "domain"@ != "converted"@,
        "domain"@ != "account"@,
        "domain"@ != "auth"@,
        "accessToken"@ != "converted"@,
        "accessToken"@ != "account"@,
        "accessToken"@ != "auth"@,
        "converted"@ != "account"@,
        "converted"@ != "auth"@,
        "account"@ != "auth"@,
{
    reveal_strlit("id");
    reveal_strlit("token");
    reveal_strlit("refreshToken");
    reveal_strlit("expiresAt");
    reveal_strlit("domain");
    reveal_strlit("accessToken");
    reveal_strlit("converted");
    reveal_strlit("account");
    reveal_strlit("auth");
    assert("id"@.len() == 2);
    assert("token"@.len() == 5);
    assert("refreshToken"@.len() == 12);
    assert("expiresAt"@.len() == 9);
    assert("domain"@.len() == 6);
    assert("accessToken"@.len() == 11);
    assert("converted"@.len() == 9);
    assert("account"@.len() == 7);
    assert("auth"@.len() == 4);
    assert("expiresAt"@[0] != "converted"@[0]);
}

proof fn account_names()
    ensures
        "id"@ != "uid"@,
        "id"@ != "label"@,
        "id"@ != "nickname"@,
        "id"@ != "enterpriseId"@,
        "id"@ != "enterpriseName"@,
        "id"@ != "pluginEnabled"@,
        "id"@ != "lastLogin"@,
        "uid"@ != "label"@,
        "uid"@ != "nickname"@,
        "uid"@ != "enterpriseId"@,
        "uid"@ != "enterpriseName"@,
        "uid"@ != "pluginEnabled"@,
        "uid"@ != "lastLogin"@,
        "label"@ != "nickname"@,
        "label"@ != "enterpriseId"@,
        "label"@ != "enterpriseName"@,
        "label"@ != "pluginEnabled"@,
        "label"@ != "lastLogin"@,
        "nickname"@ != "enterpriseId"@,
        "nickname"@ != "enterpriseName"@,
        "nickname"@ != "pluginEnabled"@,
        "nickname"@ != "lastLogin"@,
        "enterpriseId"@ != "enterpriseName"@,
        "enterpriseId"@ != "pluginEnabled"@,
        "enterpriseId"@ != "lastLogin"@,
        "enterpriseName"@ != "pluginEnabled"@,
        "enterpriseName"@ != "lastLogin"@,
        "pluginEnabled"@ != "lastLogin"@,
{
    reveal_strlit("id");
    reveal_strlit("uid");
    reveal_strlit("label");
    reveal_strlit("nickname");
    reveal_strlit("enterpriseId");
    reveal_strlit("enterpriseName");
    reveal_strlit("pluginEnabled");
    reveal_strlit("lastLogin");
    assert("id"@.len() == 2);
    assert("uid"@.len() == 3);
    assert("label"@.len() == 5);
    assert("nickname"@.len() == 8);
    assert("enterpriseId"@.len() == 12);
    assert("enterpriseName"@.len() == 14);
    assert("pluginEnabled"@.len() == 13);
    assert("lastLogin"@.len() == 9);
}

proof fn auth_names()
    ensures
        "accessToken"@ != "refreshToken"@,
        "accessToken"@ != "tokenType"@,
        "accessToken"@ != "domain"@,
        "accessToken"@ != "expiresAt"@,
        "accessToken"@ != "expiresIn"@,
        "accessToken"@ != "refreshExpiresIn"@,
        "accessToken"@ != "refreshExpiresAt"@,
        "accessToken"@ != "lastRefreshTime"@,
        "refreshToken"@ != "tokenType"@,
        "refreshToken"@ != "domain"@,
        "refreshToken"@ != "expiresAt"@,
        "refreshToken"@ != "expiresIn"@,
        "refreshToken"@ != "refreshExpiresIn"@,
        "refreshToken"@ != "refreshExpiresAt"@,
        "refreshToken"@ != "lastRefreshTime"@,
        "tokenType"@ != "domain"@,
        "tokenType"@ != "expiresAt"@,
        "tokenType"@ != "expiresIn"@,
        "tokenType"@ != "refreshExpiresIn"@,
        "tokenType"@ != "refreshExpiresAt"@,
        "tokenType"@ != "lastRefreshTime"@,
        "domain"@ != "expiresAt"@,
        "domain"@ != "expiresIn"@,
        "domain"@ != "refreshExpiresIn"@,
        "domain"@ != "refreshExpiresAt"@,
        "domain"@ != "lastRefreshTime"@,
        "expiresAt"@ != "expiresIn"@,
        "expiresAt"@ != "refreshExpiresIn"@,
        "expiresAt"@ != "refreshExpiresAt"@,
        "expiresAt"@ != "lastRefreshTime"@,
        "expiresIn"@ != "refreshExpiresIn"@,
        "expiresIn"@ != "refreshExpiresAt"@,
        "expiresIn"@ != "lastRefreshTime"@,
        "refreshExpiresIn"@ != "refreshExpiresAt"@,
        "refreshExpiresIn"@ != "lastRefreshTime"@,
        "refreshExpiresAt"@ != "lastRefreshTime"@,
{
    reveal_strlit("accessToken");
    reveal_strlit("refreshToken");
    reveal_strlit("tokenType");
    reveal_strlit("domain");
    reveal_strlit("expiresAt");
    reveal_strlit("expiresIn");
    reveal_strlit("refreshExpiresIn");
    reveal_strlit("refreshExpiresAt");
    reveal_strlit("lastRefreshTime");
    assert("accessToken"@.len() == 11);
    assert("refreshToken"@.len() == 12);
    assert("tokenType"@.len() == 9);
    assert("domain"@.len() == 6);
    assert("expiresAt"@.len() == 9);
    assert("expiresIn"@.len() == 9);
    assert("refreshExpiresIn"@.len() == 16);
    assert("refreshExpiresAt"@.len() == 16);
    assert("lastRefreshTime"@.len() == 15);
    assert("tokenType"@[0] != "expiresAt"@[0]);
    assert("tokenType"@[0] != "expiresIn"@[0]);
    assert("expiresAt"@[7] != "expiresIn"@[7]);
    assert("refreshExpiresIn"@[14] != "refreshExpiresAt"@[14]);
}

proof fn state_names()
    ensures
        "active"@ != "activeAccountId"@,
        "active"@ != "updatedAt"@,
        "activeAccountId"@ != "updatedAt"@,
{
    reveal_strlit("active");
    reveal_strlit("activeAccountId");
    reveal_strlit("updatedAt");
    assert("active"@.len() == 6);
    assert("activeAccountId"@.len() == 15);
    assert("updatedAt"@.len() == 9);
}

/// A session lives while its last sign of life is at most two minutes old.
pub proof fn sessions_live_for_two_minutes(v: JsonV, now: i64, beat: int)
    requires
        v.get("lastHeartbeat"@) == Some(JsonV::Int(beat)),
        i64::MIN <= beat <= i64::MAX,
        i64::MIN <= now - beat <= i64::MAX,
    ensures
        codebuddy_cli::live(v, now) == (now - beat <= 120_000),
{
}

/// A session without a sign of life does not live.
pub proof fn silent_sessions_do_not_live(v: JsonV, now: i64)
    requires
        v.get("lastHeartbeat"@) is None,
    ensures
        !codebuddy_cli::live(v, now),
{
}

/// The settings that are written for an account bear its token, and its edition's site; all
/// other settings stay as they were.
pub proof fn settings_bear_the_account(settings: JsonV, token: Seq<char>, v: WbVariant, key: Seq<char>)
    requires
        settings is Obj,
        settings.get("env"@) is None || (settings.get("env"@) matches Some(JsonV::Obj(_))),
    ensures
        codebuddy_cli::account_settings(settings, token, v) matches Ok(after) && {
            &&& key != "env"@ ==> after.get(key) == settings.get(key)
            &&& after.get("env"@) matches Some(env)
            &&& env.get("CODEBUDDY_AUTH_TOKEN"@) == Some(JsonV::Str(codebuddy_cli::bare(token)))
            &&& v == WbVariant::Cn ==> env.get("CODEBUDDY_INTERNET_ENVIRONMENT"@) == Some(JsonV::Str("internal"@))
                && env.get("CODEBUDDY_BASE_URL"@) is None
            &&& v == WbVariant::Ai ==> env.get("CODEBUDDY_INTERNET_ENVIRONMENT"@) == Some(JsonV::Str("public"@))
                && env.get("CODEBUDDY_BASE_URL"@) == Some(JsonV::Str("https://www.codebuddy.ai/v2"@))
            &&& key != "CODEBUDDY_AUTH_TOKEN"@ && key != "CODEBUDDY_INTERNET_ENVIRONMENT"@ && key
                != "CODEBUDDY_BASE_URL"@ ==> (settings.get("env"@) matches Some(before) ==> env.get(key) == before.get(
                key,
            ))
        },
{
    env_names();
}

/// A token is written without the word that marks it as a bearer's.
pub proof fn tokens_are_written_bare(t: Seq<char>)
    requires
        text::trim(t) == t,
        t.len() > 0,
    ensures
        !text::starts_with(t, "Bearer "@) && t != "Bearer"@ ==> codebuddy_cli::bare(t) == t,
        codebuddy_cli::bare("Bearer "@ + t) == t,
{
    reveal_strlit("Bearer ");
    reveal_strlit("Bearer");
    let s = "Bearer "@ + t;
    assert("Bearer "@.len() == 7 && "Bearer "@[0] == 'B');
    assert("Bearer"@.len() == 6);
    assert(s[0] == 'B');
    assert(s.len() == 7 + t.len());
    assert(s[s.len() - 1] == t[t.len() - 1]);
    trimmed_ends(t);
    assert(text::trim_start(s) == s);
    assert(text::trim_end(s) == s);
    assert(s.subrange(0, 7) =~= "Bearer "@);
    assert(s.subrange(7, s.len() as int) =~= t);
    assert(text::starts_with(s, "Bearer "@));
}

proof fn trimmed_ends(t: Seq<char>)
    requires
        text::trim(t) == t,
        t.len() > 0,
    ensures
        !text::white(t[t.len() - 1]),
{
    start_is_shorter(t);
    end_is_shorter(text::trim_start(t));
    if text::trim_start(t).len() < t.len() {
        assert(text::trim(t).len() < t.len());
    } else {
        assert(text::trim_end(t).len() == t.len());
        if text::white(t[t.len() - 1]) {
            end_is_shorter(t.subrange(0, t.len() - 1));
        }
    }
}

proof fn start_is_shorter(s: Seq<char>)
    ensures
        text::trim_start(s).len() <= s.len(),
        text::trim_start(s).len() == s.len() ==> text::trim_start(s) == s,
    decreases s.len(),
{
    if s.len() > 0 && text::white(s[0]) {
        start_is_shorter(s.subrange(1, s.len() as int));
    }
}

proof fn end_is_shorter(s: Seq<char>)
    ensures
        text::trim_end(s).len() <= s.len(),
    decreases s.len(),
{
    if s.len() > 0 && text::white(s[s.len() - 1]) {
        end_is_shorter(s.subrange(0, s.len() - 1));
    }
}

proof fn place_is(accounts: Seq<JsonV>, id: Seq<char>, from: int, k: int)
    requires
        0 <= from <= k < accounts.len(),
        codebuddy_cli::bears(accounts[k], id),
        forall|j: int| from <= j < k ==> !codebuddy_cli::bears(#[trigger] accounts[j], id),
    ensures
        codebuddy_cli::place_from(accounts, id, from) == Some((k, codebuddy_cli::canonical(accounts[k], id))),
    decreases k - from,
{
    if from < k {
        place_is(accounts, id, from + 1, k);
    }
}

proof fn place_is_none(accounts: Seq<JsonV>, id: Seq<char>, from: int)
    requires
        0 <= from,
        forall|j: int| from <= j < accounts.len() ==> !codebuddy_cli::bears(#[trigger] accounts[j], id),
    ensures
        codebuddy_cli::place_from(accounts, id, from) is None,
    decreases accounts.len() - from,
{
    if from < accounts.len() {
        place_is_none(accounts, id, from + 1);
    }
}

/// The account in use is the first that bears the remembered id, as its id or its uid; where
/// none does, it is the one at the remembered number, counted round.
pub proof fn the_remembered_account_is_in_use(state: JsonV, accounts: Seq<JsonV>, id: Seq<char>, k: int, n: int)
    requires
        accounts.len() > 0,
        state.get("activeAccountId"@) == Some(JsonV::Str(id)),
        state.get("active"@) == Some(JsonV::Int(n)),
        0 <= n <= i64::MAX,
    ensures
        0 <= k < accounts.len() && (accounts[k].get("id"@) == Some(JsonV::Str(id)) || accounts[k].get("uid"@) == Some(
            JsonV::Str(id),
        )) && (forall|j: int|
            0 <= j < k ==> (#[trigger] accounts[j]).get("id"@) != Some(JsonV::Str(id)) && accounts[j].get("uid"@)
                != Some(JsonV::Str(id))) ==> (codebuddy_cli::state_place(state, accounts) matches Some(p) && p.0 == k && (
        accounts[k].get("id"@) matches Some(JsonV::Str(own)) ==> p.1 == own)),
        (forall|j: int|
            0 <= j < accounts.len() ==> (#[trigger] accounts[j]).get("id"@) != Some(JsonV::Str(id))
                && accounts[j].get("uid"@) != Some(JsonV::Str(id))) ==> (accounts[n % (accounts.len() as int)].get(
            "id"@,
        ) matches Some(JsonV::Str(own)) ==> codebuddy_cli::state_place(state, accounts) == Some(
            (n % (accounts.len() as int), own),
        )),
{
    if 0 <= k < accounts.len() && codebuddy_cli::bears(accounts[k], id) && (forall|j: int|
        0 <= j < k ==> (#[trigger] accounts[j]).get("id"@) != Some(JsonV::Str(id)) && accounts[j].get("uid"@) != Some(
            JsonV::Str(id),
        )) {
        place_is(accounts, id, 0, k);
    }
    if forall|j: int|
        0 <= j < accounts.len() ==> (#[trigger] accounts[j]).get("id"@) != Some(JsonV::Str(id)) && accounts[j].get(
            "uid"@,
        ) != Some(JsonV::Str(id)) {
        place_is_none(accounts, id, 0);
    }
}

/// A new token of the account in use is written into the settings only where they hold the
/// token that it replaces; where they hold it already nothing is to be done, and a token
/// that someone else wrote is left alone.
pub proof fn only_the_old_token_is_replaced(
    settings: JsonV,
    state: JsonV,
    accounts: Seq<JsonV>,
    acc: JsonV,
    old_token: Seq<char>,
    held: Seq<char>,
    token: Seq<char>,
    id: Seq<char>,
    k: int,
)
    requires
        codebuddy_cli::env_token(settings) == Some(held),
        codebuddy_cli::state_place(state, accounts) == Some((k, id)),
        acc.get("access_token"@) == Some(JsonV::Str(token)),
    ensures
        acc.get("id"@) != Some(JsonV::Str(id)) ==> codebuddy_cli::sync_step(
            settings,
            state,
            accounts,
            acc,
            Some(old_token),
        ) is Leave,
        acc.get("id"@) == Some(JsonV::Str(id)) && codebuddy_cli::bare(token) == codebuddy_cli::bare(held)
            ==> codebuddy_cli::sync_step(settings, state, accounts, acc, Some(old_token)) is Synced,
        acc.get("id"@) == Some(JsonV::Str(id)) && codebuddy_cli::bare(token) != codebuddy_cli::bare(held)
            && codebuddy_cli::bare(old_token) != codebuddy_cli::bare(held) ==> codebuddy_cli::sync_step(
            settings,
            state,
            accounts,
            acc,
            Some(old_token),
        ) is Leave,
        acc.get("id"@) == Some(JsonV::Str(id)) && codebuddy_cli::bare(token) != codebuddy_cli::bare(held)
            && codebuddy_cli::bare(old_token) == codebuddy_cli::bare(held) ==> (codebuddy_cli::account_settings(
            settings,
            token,
            variant::variant_in(acc),
        ) matches Ok(after) ==> codebuddy_cli::sync_step(settings, state, accounts, acc, Some(old_token)) == (
        TokenSyncV::Write { settings: after, token, edition: variant::variant_in(acc) })),
{
}

proof fn holder_is(accounts: Seq<JsonV>, token: Seq<char>, from: int, k: int)
    requires
        0 <= from <= k < accounts.len(),
        codebuddy_cli::holds(accounts[k], token),
        forall|j: int| from <= j < k ==> !codebuddy_cli::holds(#[trigger] accounts[j], token),
    ensures
        codebuddy_cli::holder_from(accounts, token, from) == Some((k, accounts[k].get_str("id"@)->0)),
    decreases k - from,
{
    if from < k {
        holder_is(accounts, token, from + 1, k);
    }
}

/// A token leads to the first account that holds it, whether or not either is marked as a
/// bearer's.
pub proof fn tokens_lead_to_their_account(accounts: Seq<JsonV>, token: Seq<char>, t: Seq<char>, id: Seq<char>, k: int)
    requires
        codebuddy_cli::bare(token).len() > 0,
        0 <= k < accounts.len(),
        accounts[k].get("access_token"@) == Some(JsonV::Str(t)),
        codebuddy_cli::bare(t) == codebuddy_cli::bare(token),
        accounts[k].get("id"@) == Some(JsonV::Str(id)),
        forall|j: int|
            0 <= j < k ==> ((#[trigger] accounts[j]).get("access_token"@) matches Some(JsonV::Str(s))
                ==> codebuddy_cli::bare(s) != codebuddy_cli::bare(token)),
    ensures
        codebuddy_cli::token_place(accounts, token) == Some((k, id)),
{
    assert forall|j: int| 0 <= j < k implies !codebuddy_cli::holds(
        #[trigger] accounts[j],
        codebuddy_cli::bare(token),
    ) by {}
    holder_is(accounts, codebuddy_cli::bare(token), 0, k);
}

/// The processes of the command line are those of the list that run it, this one left out,
/// in their order.
pub proof fn processes_are_those_that_run_it(system: System, rows: Seq<(u32, Seq<char>)>, own: u32)
    ensures
        codebuddy_cli::cli_pids(system, rows, own) == rows.filter(
            |r: (u32, Seq<char>)| r.0 != own && codebuddy_cli::runs_cli(system, r.1),
        ).map_values(|r: (u32, Seq<char>)| r.0),
    decreases rows.len(),
{
    let keep = |r: (u32, Seq<char>)| r.0 != own && codebuddy_cli::runs_cli(system, r.1);
    let of = |r: (u32, Seq<char>)| r.0;
    reveal(Seq::filter);
    if rows.len() > 0 {
        let front = rows.subrange(0, rows.len() - 1);
        let last = rows[rows.len() - 1];
        assert(front =~= rows.drop_last());
        processes_are_those_that_run_it(system, front, own);
        if keep(last) {
            assert(front.filter(keep).push(last).map_values(of) =~= front.filter(keep).map_values(of).push(of(last)));
        }
    }
}

/// A helper passes where it ended well and said just the account's token as a bearer's.
pub proof fn helpers_pass_with_the_token(success: bool, code: Option<i32>, out: Seq<char>, token: Seq<char>, windows: bool)
    requires
        token.len() > 0,
    ensures
        (codebuddy_cli::helper_verdict(success, code, out, token, windows) is Ok) == (success && text::trim(out)
            == "Bearer "@ + token),
{
    if text::trim(out) == "Bearer "@ + token {
        assert(text::trim(out).len() > 0);
    }
}

/// A site that the environment sets stands in the way where it is none of the edition's.
pub proof fn sites_of_the_other_edition_conflict(s: Seq<char>)
    requires
        text::trim(s) == s,
        s.len() > 0,
    ensures
        codebuddy_cli::site_conflicts(Some(s), WbVariant::Cn) == !(text::lower(s) == text::lower("internal"@)
            || text::lower(s) == text::lower("ioa"@)),
        !(text::lower(s) == text::lower("public"@) || text::lower(s) == text::lower("external"@))
            ==> codebuddy_cli::site_conflicts(Some(s), WbVariant::Ai),
        !codebuddy_cli::site_conflicts(None, WbVariant::Cn),
        !codebuddy_cli::site_conflicts(None, WbVariant::Ai),
{
}

/// The status tells the account in use: its place, id, name and edition; and how many
/// accounts there are.
pub proof fn status_tells_the_account_in_use(
    facts: StatusFacts,
    accounts: Seq<JsonV>,
    state: JsonV,
    settings: JsonV,
    k: int,
    id: Seq<char>,
)
    ensures
        ({
            let s = codebuddy_cli::status_of(facts, accounts, state, settings);
            let active = codebuddy_cli::active_place(accounts, state, Some(settings), facts.windows);
            &&& s.get("accountCount"@) == Some(JsonV::Int(accounts.len() as int))
            &&& active == Some((k, id)) ==> s.get("activeIndex"@) == Some(JsonV::Int(k)) && s.get("activeAccountId"@)
                == Some(JsonV::Str(id)) && s.get("activeAccountVariant"@) == Some(
                JsonV::Str(variant::variant_in(accounts[k]).name()),
            )
            &&& active == Some((k, id)) ==> (account::found_from(accounts, id, 0) matches Some(acc) ==> s.get(
                "activeAccountName"@,
            ) == Some(JsonV::Str(account::display_name(acc))))
            &&& active is None ==> s.get("activeIndex"@) == Some(JsonV::Null) && s.get("activeAccountId"@) == Some(
                JsonV::Null,
            )
            &&& facts.windows ==> s.get("authMode"@) == Some(JsonV::Str("settings-env"@))
            &&& !facts.windows ==> s.get("authMode"@) == Some(JsonV::Str("api-key-helper"@)) && s.get("configured"@)
                == Some(JsonV::Bool(facts.helper_present))
            &&& facts.windows && facts.process_token is None ==> s.get("configured"@) == Some(
                JsonV::Bool(codebuddy_cli::env_token(settings) is Some),
            )
            &&& s.get("helperPresent"@) == Some(JsonV::Bool(facts.helper_present))
            &&& s.get("settingsPresent"@) == Some(JsonV::Bool(facts.settings_present))
            &&& s.get("helperSupportsAccountIds"@) == Some(JsonV::Bool(facts.supports_ids))
        }),
{
    status_names();
}

/// On Windows the account in use is the one whose token the settings hold, elsewhere the one
/// that the state names.
pub proof fn the_token_says_who_is_in_use_on_windows(
    accounts: Seq<JsonV>,
    state: JsonV,
    settings: JsonV,
    token: Seq<char>,
)
    ensures
        codebuddy_cli::env_token(settings) == Some(token) ==> codebuddy_cli::active_place(
            accounts,
            state,
            Some(settings),
            true,
        ) == codebuddy_cli::token_place(accounts, token),
        codebuddy_cli::env_token(settings) is None ==> codebuddy_cli::active_place(
            accounts,
            state,
            Some(settings),
            true,
        ) is None,
        codebuddy_cli::active_place(accounts, state, Some(settings), false) == codebuddy_cli::state_place(
            state,
            accounts,
        ),
{
}

/// A change names the account that is asked for: its place and its own id, when it was
/// made, and nothing else of the state changes.
pub proof fn changes_name_the_account(state: JsonV, index: int, id: Seq<char>, at: int, key: Seq<char>)
    requires
        state is Obj,
    ensures
        codebuddy_cli::naming(state, index, id, at).get("active"@) == Some(JsonV::Int(index)),
        codebuddy_cli::naming(state, index, id, at).get("activeAccountId"@) == Some(JsonV::Str(id)),
        codebuddy_cli::naming(state, index, id, at).get("updatedAt"@) == Some(JsonV::Int(at)),
        key != "active"@ && key != "activeAccountId"@ && key != "updatedAt"@ ==> codebuddy_cli::naming(
            state,
            index,
            id,
            at,
        ).get(key) == state.get(key),
{
    state_names();
}

/// What asked processes get: they are waited for while some live and their time lasts, three
/// seconds or on macOS two, and then those that live are ended by force.
pub proof fn processes_are_waited_for(system: System, pids: Seq<u32>, alive: Seq<u32>, elapsed: int)
    ensures
        cli_process::end_next(system, EndStepV::Ask(pids), alive, elapsed) == EndStepV::Wait(pids),
        system != System::Mac ==> cli_process::end_next(system, EndStepV::Wait(pids), alive, elapsed) == (if alive.len()
            == 0 {
            EndStepV::Done
        } else if elapsed < 3_000 {
            EndStepV::Wait(pids)
        } else {
            EndStepV::Force(alive)
        }),
        cli_process::end_next(System::Mac, EndStepV::Wait(pids), alive, elapsed) == (if elapsed < 2_000 {
            EndStepV::Wait(pids)
        } else {
            EndStepV::Force(pids)
        }),
        cli_process::end_next(system, EndStepV::Force(pids), alive, elapsed) == EndStepV::Done,
{
}

/// The session that an editor gets is the account's: its tokens, until when they are good,
/// and who it is.
pub proof fn editor_sessions_are_the_accounts(acc: JsonV, now: int, s: Seq<char>, e: int)
    requires
        text::trim(s) == s,
        s.len() > 0,
        i64::MIN <= e <= i64::MAX,
    ensures
        ({
            let v = codebuddy_cn_ide::session(acc, now);
            &&& acc.get("access_token"@) == Some(JsonV::Str(s)) ==> v.get("token"@) == Some(JsonV::Str(s))
            &&& acc.get("refresh_token"@) == Some(JsonV::Str(s)) ==> v.get("refreshToken"@) == Some(JsonV::Str(s))
            &&& acc.get("expiresAt"@) == Some(JsonV::Int(e)) ==> v.get("expiresAt"@) == Some(JsonV::Int(e))
            &&& acc.get("expiresAt"@) is None ==> v.get("expiresAt"@) == Some(JsonV::Int(0))
            &&& acc.get("domain"@) == Some(JsonV::Str(s)) ==> v.get("domain"@) == Some(JsonV::Str(s))
            &&& v.get("account"@) == Some(codebuddy_cn_ide::session_account(acc))
            &&& v.get("auth"@) == Some(codebuddy_cn_ide::session_auth(acc, now))
        }),
        ({
            let a = codebuddy_cn_ide::session_account(acc);
            &&& acc.get("uid"@) == Some(JsonV::Str(s)) ==> a.get("uid"@) == Some(JsonV::Str(s)) && a.get("id"@) == Some(
                JsonV::Str(s),
            )
            &&& acc.get("nickname"@) == Some(JsonV::Str(s)) ==> a.get("nickname"@) == Some(JsonV::Str(s)) && a.get(
                "label"@,
            ) == Some(JsonV::Str(s))
            &&& acc.get("enterpriseId"@) == Some(JsonV::Str(s)) ==> a.get("enterpriseId"@) == Some(JsonV::Str(s))
            &&& acc.get("enterpriseId"@) is None && acc.get("enterprise_id"@) == Some(JsonV::Str(s)) ==> a.get(
                "enterpriseId"@,
            ) == Some(JsonV::Str(s))
            &&& acc.get("enterpriseName"@) == Some(JsonV::Str(s)) ==> a.get("enterpriseName"@) == Some(JsonV::Str(s))
        }),
        ({
            let t = codebuddy_cn_ide::session_auth(acc, now);
            &&& acc.get("access_token"@) == Some(JsonV::Str(s)) ==> t.get("accessToken"@) == Some(JsonV::Str(s))
            &&& acc.get("refresh_token"@) == Some(JsonV::Str(s)) ==> t.get("refreshToken"@) == Some(JsonV::Str(s))
            &&& acc.get("token_type"@) == Some(JsonV::Str(s)) ==> t.get("tokenType"@) == Some(JsonV::Str(s))
            &&& acc.get("token_type"@) is None ==> t.get("tokenType"@) == Some(JsonV::Str("Bearer"@))
            &&& acc.get("domain"@) == Some(JsonV::Str(s)) ==> t.get("domain"@) == Some(JsonV::Str(s))
            &&& acc.get("expiresAt"@) == Some(JsonV::Int(e)) ==> t.get("expiresAt"@) == Some(JsonV::Int(e))
            &&& t.get("lastRefreshTime"@) == Some(JsonV::Int(now))
        }),
{
    session_names();
    account_names();
    auth_names();
}

/// A session is read for its token under the first of the names that it goes by, and for the
/// uid that it gives itself or its account.
pub proof fn editor_sessions_are_read(v: JsonV, s: Seq<char>, a: JsonV)
    requires
        text::trim(s) == s,
        s.len() > 0,
    ensures
        v.get("token"@) == Some(JsonV::Str(s)) ==> codebuddy_cn_ide::session_token(v) == Some(s),
        v.get("token"@) is None && v.get("access_token"@) == Some(JsonV::Str(s)) ==> codebuddy_cn_ide::session_token(v)
            == Some(s),
        v.get("token"@) is None && v.get("access_token"@) is None && v.get("accessToken"@) == Some(JsonV::Str(s))
            ==> codebuddy_cn_ide::session_token(v) == Some(s),
        v.get("token"@) is None && v.get("access_token"@) is None && v.get("accessToken"@) is None && v.get("auth"@)
            == Some(a) && a.get("accessToken"@) == Some(JsonV::Str(s)) ==> codebuddy_cn_ide::session_token(v) == Some(s),
        v.get("uid"@) == Some(JsonV::Str(s)) ==> codebuddy_cn_ide::session_uid(v) == Some(s),
        v.get("uid"@) is None && v.get("account"@) == Some(a) && a.get("uid"@) == Some(JsonV::Str(s))
            ==> codebuddy_cn_ide::session_uid(v) == Some(s),
        v.get("uid"@) is None && v.get("account"@) == Some(a) && a.get("uid"@) is None && a.get("id"@) == Some(
            JsonV::Str(s),
        ) ==> codebuddy_cn_ide::session_uid(v) == Some(s),
{
}

proof fn member_is(accounts: Seq<JsonV>, key: Seq<char>, value: Seq<char>, from: int, k: int)
    requires
        0 <= from <= k < accounts.len(),
        account::str_of(accounts[k], key) == Some(value),
        forall|j: int| from <= j < k ==> account::str_of(#[trigger] accounts[j], key) != Some(value),
    ensures
        codebuddy_cn_ide::with_member(accounts, key, value, from) == Some(accounts[k]),
    decreases k - from,
{
    if from < k {
        member_is(accounts, key, value, from + 1, k);
    }
}

proof fn member_is_none(accounts: Seq<JsonV>, key: Seq<char>, value: Seq<char>, from: int)
    requires
        0 <= from,
        forall|j: int| from <= j < accounts.len() ==> account::str_of(#[trigger] accounts[j], key) != Some(value),
    ensures
        codebuddy_cn_ide::with_member(accounts, key, value, from) is None,
    decreases accounts.len() - from,
{
    if from < accounts.len() {
        member_is_none(accounts, key, value, from + 1);
    }
}

/// A session belongs to the first account with its uid; where there is none, to the first
/// with its token.
pub proof fn editor_sessions_belong_by_uid(accounts: Seq<JsonV>, uid: Seq<char>, token: Seq<char>, k: int)
    requires
        uid.len() > 0,
        0 <= k < accounts.len(),
    ensures
        account::str_of(accounts[k], "uid"@) == Some(uid) && (forall|j: int|
            0 <= j < k ==> account::str_of(#[trigger] accounts[j], "uid"@) != Some(uid)) ==> codebuddy_cn_ide::owner_of(
            accounts,
            Some(uid),
            token,
        ) == Some(accounts[k]),
        (forall|j: int| 0 <= j < accounts.len() ==> account::str_of(#[trigger] accounts[j], "uid"@) != Some(uid))
            && account::str_of(accounts[k], "access_token"@) == Some(token) && (forall|j: int|
            0 <= j < k ==> account::str_of(#[trigger] accounts[j], "access_token"@) != Some(token))
            ==> codebuddy_cn_ide::owner_of(accounts, Some(uid), token) == Some(accounts[k]),
{
    if account::str_of(accounts[k], "uid"@) == Some(uid) && (forall|j: int|
        0 <= j < k ==> account::str_of(#[trigger] accounts[j], "uid"@) != Some(uid)) {
        member_is(accounts, "uid"@, uid, 0, k);
    }
    if forall|j: int| 0 <= j < accounts.len() ==> account::str_of(#[trigger] accounts[j], "uid"@) != Some(uid) {
        member_is_none(accounts, "uid"@, uid, 0);
    }
    if account::str_of(accounts[k], "access_token"@) == Some(token) && (forall|j: int|
        0 <= j < k ==> account::str_of(#[trigger] accounts[j], "access_token"@) != Some(token)) {
        member_is(accounts, "access_token"@, token, 0, k);
    }
}

/// The editor is looked for where it runs, then where it was found before, where that is
/// still good, then at the usual places; what was remembered is forgotten only where nothing
/// is found.
pub proof fn the_running_editor_counts_first(
    running: Option<Seq<char>>,
    remembered: Option<Seq<char>>,
    good: bool,
    places: Seq<(String, bool)>,
    windows: bool,
    k: int,
)
    ensures
        ({
            let (path, memory) = codebuddy_cn_ide::app_path_of(running, remembered, good, places, windows);
            &&& running is Some ==> path == running
            &&& running is None && remembered is Some && good ==> path == remembered && memory == PathMemory::Keep
            &&& running is None && !(remembered is Some && good) && 0 <= k < places.len() && places[k].1 && (forall|
                j: int,
            |
                0 <= j < k ==> !(#[trigger] places[j]).1) ==> path == Some(places[k].0@) && memory == PathMemory::Save
            &&& running is None && remembered is Some && !good && (forall|j: int|
                0 <= j < places.len() ==> !(#[trigger] places[j]).1) ==> path is None && memory == PathMemory::Clear
        }),
{
    if 0 <= k < places.len() && places[k].1 && (forall|j: int| 0 <= j < k ==> !(#[trigger] places[j]).1) {
        found_is(places, 0, k);
    }
    if forall|j: int| 0 <= j < places.len() ==> !(#[trigger] places[j]).1 {
        found_is_none(places, 0);
    }
}

proof fn found_is(places: Seq<(String, bool)>, from: int, k: int)
    requires
        0 <= from <= k < places.len(),
        places[k].1,
        forall|j: int| from <= j < k ==> !(#[trigger] places[j]).1,
    ensures
        codebuddy_cn_ide::found_place(places, from) == Some(places[k].0@),
    decreases k - from,
{
    if from < k {
        found_is(places, from + 1, k);
    }
}

proof fn found_is_none(places: Seq<(String, bool)>, from: int)
    requires
        0 <= from,
        forall|j: int| from <= j < places.len() ==> !(#[trigger] places[j]).1,
    ensures
        codebuddy_cn_ide::found_place(places, from) is None,
    decreases places.len() - from,
{
    if from < places.len() {
        found_is_none(places, from + 1);
    }
}

/// A quota line of WorkBuddy belongs to the session that it names itself, then to the one in
/// its field, then to the one that was last classified; its model is that of its request,
/// then that of its session.
pub proof fn quota_lines_belong_to_their_session(
    line: Seq<char>,
    requests: Map<Seq<char>, Seq<char>>,
    sessions: Map<Seq<char>, Seq<char>>,
    borrowed: Option<Seq<char>>,
)
    ensures
        ({
            let (session, model) = log_scan::attribute_workbuddy(line, requests, sessions, borrowed);
            &&& log_scan::pair_from(line, 0, None) matches Some(p) ==> session == Some(p.1) && (requests.contains_key(
                p.0,
            ) ==> model == Some(requests[p.0])) && (!requests.contains_key(p.0) && sessions.contains_key(p.1)
                ==> model == Some(sessions[p.1]))
            &&& log_scan::pair_from(line, 0, None) is None ==> (log_scan::field(line, "sessionId="@) matches Some(s)
                ==> session == Some(s) && (sessions.contains_key(s) ==> model == Some(sessions[s])))
            &&& log_scan::pair_from(line, 0, None) is None && log_scan::field(line, "sessionId="@) is None ==> session
                == borrowed
        }),
{
}

/// A session that was classified is lent to a quota line for two seconds.
pub proof fn sessions_are_lent_for_two_seconds(s: Seq<char>, t: int, at: int)
    ensures
        log_scan::borrowed_session(Some((s, Some(t))), at) == (if t <= at <= t + 2_000 {
            Some(s)
        } else {
            None
        }),
        log_scan::borrowed_session(Some((s, None)), at) is None,
        log_scan::borrowed_session(None, at) is None,
{
}

/// A line makes a hit only where it speaks of a quota, says when that resets and has a time;
/// the hit has these and the user that was logged in.
pub proof fn hits_are_what_lines_say(
    st: ScannerV,
    line: Seq<char>,
    stamp: Option<int>,
    format: LogFormat,
    auth: AuthMarker,
)
    ensures
        ({
            let after = log_scan::collect(st, line, stamp, format, auth);
            &&& !log_scan::quota(line) ==> after == st
            &&& log_scan::reset_at(line) is None || stamp is None ==> after.hits == st.hits
            &&& after.hits == st.hits || (after.hits.len() == st.hits.len() + 1 && after.hits.subrange(
                0,
                st.hits.len() as int,
            ) == st.hits && ({
                let h = after.hits[st.hits.len() as int];
                &&& Some(h.reset_at) == log_scan::reset_at(line)
                &&& Some(h.occurred_at) == stamp
                &&& h.uid == after.uid
                &&& st.uid is Some ==> h.uid == st.uid
            }))
            &&& log_scan::quota(line) && log_scan::reset_at(line) is Some && stamp is Some && auth
                != AuthMarker::Absent ==> after.hits.len() == st.hits.len() + 1
        }),
{
    let after = log_scan::collect(st, line, stamp, format, auth);
    if after.hits.len() == st.hits.len() + 1 {
        assert(after.hits.subrange(0, st.hits.len() as int) =~= st.hits);
    }
}

/// What is learned of a line: the user who logs in takes the place of the one before, and a
/// model that is told takes the place of the one that its session had.
pub proof fn what_is_told_later_counts(
    st: ScannerV,
    line: Seq<char>,
    stamp: Option<int>,
    format: LogFormat,
    auth: AuthMarker,
    file_session: Option<Seq<char>>,
)
    ensures
        ({
            let after = log_scan::learn(st, line, stamp, format, auth, file_session);
            &&& after.hits == st.hits
            &&& log_scan::login_uid(line, auth) matches Some(u) ==> after.uid == Some(u)
            &&& log_scan::login_uid(line, auth) is None ==> after.uid == st.uid
            &&& format == LogFormat::WorkBuddy ==> (log_scan::field(line, "requestId="@) matches Some(r) ==> (
            log_scan::model_field(line, "model="@) matches Some(m) ==> after.request_models.contains_key(r)
                && after.request_models[r] == m))
            &&& format == LogFormat::Ide ==> (log_scan::ide_session_of(line) matches Some(c) ==> (log_scan::ide_model(
                line,
            ) matches Some(m) ==> (text::has(line, log_scan::IDE_MODEL_FIELD@)
                ==> after.conversation_models.contains_key(c) && after.conversation_models[c] == m)))
        }),
{
}

/// A token that an editor keeps with its user before a plus is taken apart at the first plus;
/// a user that is known otherwise counts first.
pub proof fn kept_tokens_come_apart_at_the_plus(u: Seq<char>, t: Seq<char>, w: Seq<char>)
    requires
        forall|i: int| 0 <= i < u.len() ==> #[trigger] u[i] != '+',
        text::trim(u) == u && u.len() > 0,
        text::trim(t) == t && t.len() > 0,
    ensures
        codebuddy_cn_ide::taken_apart(u.push('+') + t, None) == (Some(u), t),
        codebuddy_cn_ide::taken_apart(u.push('+') + t, Some(w)) == (Some(w), t),
        codebuddy_cn_ide::taken_apart(u, Some(w)) == (Some(w), u),
{
    let plus = |c: char| c == '+';
    let s = u.push('+') + t;
    assert(s[u.len() as int] == '+');
    assert forall|i: int| 0 <= i < u.len() implies !plus(#[trigger] s[i]) by {
        assert(s[i] == u[i]);
    }
    text::until_unique(s, plus, u.len() as int);
    text::until_unique(u, plus, u.len() as int);
    assert(s.subrange((u.len() + 1) as int, s.len() as int) =~= t);
    assert(s.subrange(0, u.len() as int) =~= u);
}

/// The name that was kept in quotation marks is what stands between them.
pub proof fn quotation_marks_are_taken_off(s: Seq<char>)
    ensures
        codebuddy_cn_ide::unquoted(seq!['"'] + s + seq!['"']) == s,
        s.len() > 0 && s[0] != '"' ==> codebuddy_cn_ide::unquoted(s) == s,
{
    let q = seq!['"'] + s + seq!['"'];
    assert(q.len() == s.len() + 2);
    assert(q[0] == '"' && q[q.len() - 1] == '"');
    assert(q.subrange(1, q.len() - 1) =~= s);
}

/// What is written into the settings for the helper is the helper's path; a helper of someone
/// else is not replaced, and no other setting changes.
pub proof fn only_the_helper_is_set(
    settings: JsonV,
    content: Seq<char>,
    value: JsonV,
    dir: Seq<char>,
    found: codebuddy_cli::RealPaths,
    key: Seq<char>,
)
    requires
        settings.get("apiKeyHelper"@) is None,
        json::json_of_text(content) == Ok::<JsonV, Seq<char>>(value),
        value is Obj,
    ensures
        codebuddy_cli::helper_settings(Some(settings), Some(content), dir, found) matches Ok(after) && {
            &&& after.get("apiKeyHelper"@) == Some(JsonV::Str(paths::joined(dir, "helper.cjs"@)))
            &&& key != "apiKeyHelper"@ ==> after.get(key) == value.get(key)
        },
{
}

/// Settings that cannot be read are not overwritten; where there are none, they begin empty.
pub proof fn unread_settings_are_left_alone(content: Seq<char>, token: Seq<char>, v: WbVariant)
    ensures
        json::json_of_text(content) is Err ==> codebuddy_cli::prepared(Some(content), token, v) is Err,
        json::json_of_text(content) matches Ok(x) ==> (!(x is Obj) ==> codebuddy_cli::prepared(Some(content), token, v) is Err),
        codebuddy_cli::prepared(None, token, v) is Ok,
{
}

/// A change to an account: it is refused where the account is not known; else it is the one
/// that bears the id first, with its own id and its edition, and on Windows with the settings
/// that bear its token.
pub proof fn changes_go_to_the_account_asked_for(facts: codebuddy_cli::SwitchFacts, accounts: Seq<JsonV>, id: Seq<char>, k: int)
    requires
        codebuddy_cli::setup_refusal(facts) is None,
    ensures
        (forall|j: int|
            0 <= j < accounts.len() ==> (#[trigger] accounts[j]).get("id"@) != Some(JsonV::Str(id))
                && accounts[j].get("uid"@) != Some(JsonV::Str(id))) ==> codebuddy_cli::switch_plan(facts, accounts, id) is Err,
        0 <= k < accounts.len() && accounts[k].get("id"@) == Some(JsonV::Str(id)) && (forall|j: int|
            0 <= j < k ==> (#[trigger] accounts[j]).get("id"@) != Some(JsonV::Str(id)) && accounts[j].get("uid"@)
                != Some(JsonV::Str(id))) ==> (codebuddy_cli::switch_plan(facts, accounts, id) matches Ok(s) ==> s.index
            == k && s.id == id && s.edition == variant::variant_in(accounts[k]) && (facts.windows ==> s.settings is Some)
            && (!facts.windows ==> s.settings is None)),
        0 <= k < accounts.len() && accounts[k].get("id"@) == Some(JsonV::Str(id)) && (forall|j: int|
            0 <= j < k ==> (#[trigger] accounts[j]).get("id"@) != Some(JsonV::Str(id)) && accounts[j].get("uid"@)
                != Some(JsonV::Str(id))) && !facts.windows && facts.site is None ==> codebuddy_cli::switch_plan(
            facts,
            accounts,
            id,
        ) is Ok,
{
    if forall|j: int|
        0 <= j < accounts.len() ==> (#[trigger] accounts[j]).get("id"@) != Some(JsonV::Str(id)) && accounts[j].get(
            "uid"@,
        ) != Some(JsonV::Str(id)) {
        place_is_none(accounts, id, 0);
    }
    if 0 <= k < accounts.len() && codebuddy_cli::bears(accounts[k], id) && (forall|j: int|
        0 <= j < k ==> (#[trigger] accounts[j]).get("id"@) != Some(JsonV::Str(id)) && accounts[j].get("uid"@) != Some(
            JsonV::Str(id),
        )) {
        place_is(accounts, id, 0, k);
    }
}

proof fn editors_are(p: Processes, own: u32, main: bool, n: int, pid: u32)
    requires
        0 <= n,
    ensures
        p.editors(own, main, n).contains(pid) == exists|i: int|
            0 <= i < n && #[trigger] p.pid(i) == pid && pid != own && p.editor(i, main),
    decreases n,
{
    if n > 0 {
        editors_are(p, own, main, n - 1, pid);
        let rest = p.editors(own, main, n - 1);
        vstd::seq_lib::lemma_seq_contains_after_push(rest, p.pid(n - 1), pid);
        assert(p.pid(n - 1) == p.pid(n - 1));
        if exists|i: int| 0 <= i < n - 1 && #[trigger] p.pid(i) == pid && pid != own && p.editor(i, main) {
            let i = choose|i: int| 0 <= i < n - 1 && #[trigger] p.pid(i) == pid && pid != own && p.editor(i, main);
            assert(0 <= i < n);
        }
    }
}

/// The editor's processes are those of the list that are the editor's, and never this one.
pub proof fn editors_are_those_that_run_it(p: Processes, own: u32, main: bool, pid: u32)
    ensures
        p.editors(own, main, p.size() as int).contains(pid) == exists|i: int|
            0 <= i < p.size() && #[trigger] p.pid(i) == pid && pid != own && p.editor(i, main),
        !p.editors(own, main, p.size() as int).contains(own),
{
    editors_are(p, own, main, p.size() as int, pid);
    editors_are(p, own, main, p.size() as int, own);
}

/// The processes of a list are those of its lines that name one, in their order.
pub proof fn processes_are_read_from_lines(system: System, lines: Seq<Seq<char>>, n: int)
    requires
        0 <= n <= lines.len(),
    ensures
        cli_process::process_rows(system, lines, n) == lines.take(n).filter(
            |l: Seq<char>| cli_process::process_row(system, l) is Some,
        ).map_values(|l: Seq<char>| cli_process::process_row(system, l)->0),
    decreases n,
{
    let keep = |l: Seq<char>| cli_process::process_row(system, l) is Some;
    let of = |l: Seq<char>| cli_process::process_row(system, l)->0;
    reveal(Seq::filter);
    if n > 0 {
        processes_are_read_from_lines(system, lines, n - 1);
        let front = lines.take(n - 1);
        let last = lines[n - 1];
        assert(lines.take(n).drop_last() =~= front);
        if keep(last) {
            assert(front.filter(keep).push(last).map_values(of) =~= front.filter(keep).map_values(of).push(of(last)));
        }
    } else {
        assert(lines.take(0) =~= Seq::<Seq<char>>::empty());
    }
}

proof fn ide_names()
    ensures
        "installed"@ != "running"@,
        "installed"@ != "dataDir"@,
        "installed"@ != "dbPath"@,
        "installed"@ != "dbExists"@,
        "installed"@ != "appPath"@,
        "installed"@ != "activeAccountId"@,
        "installed"@ != "activeAccountName"@,
        "installed"@ != "detectedFrom"@,
        "installed"@ != "statePath"@,
        "running"@ != "dataDir"@,
        "running"@ != "dbPath"@,
        "running"@ != "dbExists"@,
        "running"@ != "appPath"@,
        "running"@ != "activeAccountId"@,
        "running"@ != "activeAccountName"@,
        "running"@ != "detectedFrom"@,
        "running"@ != "statePath"@,
        "dataDir"@ != "dbPath"@,
        "dataDir"@ != "dbExists"@,
        "dataDir"@ != "appPath"@,
        "dataDir"@ != "activeAccountId"@,
        "dataDir"@ != "activeAccountName"@,
        "dataDir"@ != "detectedFrom"@,
        "dataDir"@ != "statePath"@,
        "dbPath"@ != "dbExists"@,
        "dbPath"@ != "appPath"@,
        "dbPath"@ != "activeAccountId"@,
        "dbPath"@ != "activeAccountName"@,
        "dbPath"@ != "detectedFrom"@,
        "dbPath"@ != "statePath"@,
        "dbExists"@ != "appPath"@,
        "dbExists"@ != "activeAccountId"@,
        "dbExists"@ != "activeAccountName"@,
        "dbExists"@ != "detectedFrom"@,
        "dbExists"@ != "statePath"@,
        "appPath"@ != "activeAccountId"@,
        "appPath"@ != "activeAccountName"@,
        "appPath"@ != "detectedFrom"@,
        "appPath"@ != "statePath"@,
        "activeAccountId"@ != "activeAccountName"@,
        "activeAccountId"@ != "detectedFrom"@,
        "activeAccountId"@ != "statePath"@,
        "activeAccountName"@ != "detectedFrom"@,
        "activeAccountName"@ != "statePath"@,
        "detectedFrom"@ != "statePath"@,
{
    reveal_strlit("installed");
    reveal_strlit("running");
    reveal_strlit("dataDir");
    reveal_strlit("dbPath");
    reveal_strlit("dbExists");
    reveal_strlit("appPath");
    reveal_strlit("activeAccountId");
    reveal_strlit("activeAccountName");
    reveal_strlit("detectedFrom");
    reveal_strlit("statePath");
    assert("installed"@.len() == 9);
    assert("running"@.len() == 7);
    assert("dataDir"@.len() == 7);
    assert("dbPath"@.len() == 6);
    assert("dbExists"@.len() == 8);
    assert("appPath"@.len() == 7);
    assert("activeAccountId"@.len() == 15);
    assert("activeAccountName"@.len() == 17);
    assert("detectedFrom"@.len() == 12);
    assert("statePath"@.len() == 9);
    assert("installed"@[0] != "statePath"@[0]);
    assert("running"@[0] != "dataDir"@[0]);
    assert("running"@[0] != "appPath"@[0]);
    assert("dataDir"@[0] != "appPath"@[0]);
}

proof fn answer_names()
    ensures
        "ok"@ != "account"@,
        "ok"@ != "accountId"@,
        "ok"@ != "dbPath"@,
        "ok"@ != "restarted"@,
        "ok"@ != "message"@,
        "ok"@ != "found"@,
        "ok"@ != "matched"@,
        "ok"@ != "uid"@,
        "account"@ != "accountId"@,
        "account"@ != "dbPath"@,
        "account"@ != "restarted"@,
        "account"@ != "message"@,
        "account"@ != "found"@,
        "account"@ != "matched"@,
        "account"@ != "uid"@,
        "accountId"@ != "dbPath"@,
        "accountId"@ != "restarted"@,
        "accountId"@ != "message"@,
        "accountId"@ != "found"@,
        "accountId"@ != "matched"@,
        "accountId"@ != "uid"@,
        "dbPath"@ != "restarted"@,
        "dbPath"@ != "message"@,
        "dbPath"@ != "found"@,
        "dbPath"@ != "matched"@,
        "dbPath"@ != "uid"@,
        "restarted"@ != "message"@,
        "restarted"@ != "found"@,
        "restarted"@ != "matched"@,
        "restarted"@ != "uid"@,
        "message"@ != "found"@,
        "message"@ != "matched"@,
        "message"@ != "uid"@,
        "found"@ != "matched"@,
        "found"@ != "uid"@,
        "matched"@ != "uid"@,
{
    reveal_strlit("ok");
    reveal_strlit("account");
    reveal_strlit("accountId");
    reveal_strlit("dbPath");
    reveal_strlit("restarted");
    reveal_strlit("message");
    reveal_strlit("found");
    reveal_strlit("matched");
    reveal_strlit("uid");
    assert("ok"@.len() == 2);
    assert("account"@.len() == 7);
    assert("accountId"@.len() == 9);
    assert("dbPath"@.len() == 6);
    assert("restarted"@.len() == 9);
    assert("message"@.len() == 7);
    assert("found"@.len() == 5);
    assert("matched"@.len() == 7);
    assert("uid"@.len() == 3);
    assert("account"@[0] != "message"@[0]);
    assert("account"@[0] != "matched"@[0]);
    assert("accountId"@[0] != "restarted"@[0]);
    assert("message"@[1] != "matched"@[1]);
}

/// The status of the editor tells whether it is there and runs, where its files lie, and the
/// account that was handed to it last, where that is still stored.
pub proof fn editor_status_tells_the_account(facts: IdeFacts, state: JsonV, accounts: Seq<JsonV>, id: Seq<char>, acc: JsonV)
    requires
        state.get("activeAccountId"@) == Some(JsonV::Str(id)),
        text::trim(id) == id && id.len() > 0,
    ensures
        ({
            let s = codebuddy_cn_ide::ide_status(facts, state, accounts);
            &&& s.get("running"@) == Some(JsonV::Bool(facts.running))
            &&& facts.app_path is Some ==> s.get("installed"@) == Some(JsonV::Bool(true))
            &&& facts.db_path matches Some(p) ==> s.get("dbPath"@) == Some(JsonV::Str(p.0@)) && s.get("dbExists"@)
                == Some(JsonV::Bool(p.1))
            &&& facts.data_dir matches Some(p) ==> s.get("dataDir"@) == Some(JsonV::Str(p.0@))
            &&& facts.app_path matches Some(p) ==> s.get("appPath"@) == Some(JsonV::Str(p@))
            &&& account::found_from(accounts, id, 0) == Some(acc) ==> s.get("activeAccountId"@) == Some(JsonV::Str(id))
                && s.get("activeAccountName"@) == Some(JsonV::Str(account::display_name(acc)))
            &&& account::found_from(accounts, id, 0) is None ==> s.get("activeAccountId"@) == Some(JsonV::Null)
                && s.get("activeAccountName"@) == Some(JsonV::Null)
        }),
{
    ide_names();
}

/// What is told after a change of the editor: whose account it has now, and whether it was
/// started again.
pub proof fn editor_changes_are_told(acc: JsonV, id: Seq<char>, db: Seq<char>, restart: bool)
    ensures
        ({
            let r = codebuddy_cn_ide::switch_answer_of(acc, id, db, restart);
            &&& r.get("ok"@) == Some(JsonV::Bool(true))
            &&& r.get("account"@) == Some(JsonV::Str(account::display_name(acc)))
            &&& r.get("accountId"@) == Some(JsonV::Str(id))
            &&& r.get("dbPath"@) == Some(JsonV::Str(db))
            &&& r.get("restarted"@) == Some(JsonV::Bool(restart))
        }),
{
    answer_names();
}

/// What is told of the session that an editor has: whose it is, where an account fits.
pub proof fn editor_sessions_are_told(uid: Seq<char>, acc: JsonV, id: Seq<char>)
    requires
        acc.get("id"@) == Some(JsonV::Str(id)),
        text::trim(id) == id,
    ensures
        ({
            let (r, found) = codebuddy_cn_ide::detected(Some(uid), Some(acc));
            &&& r.get("matched"@) == Some(JsonV::Bool(true)) && r.get("found"@) == Some(JsonV::Bool(true))
            &&& r.get("accountId"@) == Some(JsonV::Str(id)) && found == Some(id)
            &&& r.get("account"@) == Some(account::meta(acc))
            &&& r.get("uid"@) == Some(JsonV::Str(uid))
        }),
        ({
            let (r, found) = codebuddy_cn_ide::detected(Some(uid), None);
            &&& r.get("matched"@) == Some(JsonV::Bool(false)) && found is None
            &&& r.get("uid"@) == Some(JsonV::Str(uid))
        }),
{
    answer_names();
}

/// An account can be handed to the editor where it is stored, has a token, and the editor's
/// directory is there.
pub proof fn accounts_are_handed_over(accounts: Seq<JsonV>, id: Seq<char>, acc: JsonV, dir: (String, bool))
    ensures
        account::found_from(accounts, id, 0) is None ==> codebuddy_cn_ide::handed_account(accounts, id, Some(dir)) is Err,
        account::found_from(accounts, id, 0) == Some(acc) && acc.get("access_token"@) is None
            ==> codebuddy_cn_ide::handed_account(accounts, id, Some(dir)) is Err,
        account::found_from(accounts, id, 0) == Some(acc) && account::str_of(acc, "access_token"@) is Some && dir.1
            ==> codebuddy_cn_ide::handed_account(accounts, id, Some(dir)) == Ok::<JsonV, Seq<char>>(acc),
        !dir.1 ==> codebuddy_cn_ide::handed_account(accounts, id, Some(dir)) is Err,
        codebuddy_cn_ide::handed_account(accounts, id, None) is Err,
{
}

/// Closing the editor takes the seconds that it is given, one at least; eight of them at most
/// are left to it before force is used, and what remains after that, a second at least on
/// Windows and a tenth on macOS, is waited for.
pub proof fn closing_keeps_to_its_time(timeout: int, elapsed: int)
    requires
        0 <= elapsed,
    ensures
        timeout >= 1 ==> codebuddy_cn_ide::close_budget(timeout) == timeout * 1000,
        timeout < 1 ==> codebuddy_cn_ide::close_budget(timeout) == 1000,
        timeout >= 8 ==> codebuddy_cn_ide::grace(System::Windows, timeout, elapsed) == 8000,
        1 <= timeout < 8 ==> codebuddy_cn_ide::grace(System::Windows, timeout, elapsed) == timeout * 1000,
        timeout * 1000 - elapsed >= 8000 ==> codebuddy_cn_ide::grace(System::Mac, timeout, elapsed) == 8000,
        timeout >= 1 && 100 <= timeout * 1000 - elapsed < 8000 ==> codebuddy_cn_ide::grace(System::Mac, timeout, elapsed)
            == timeout * 1000 - elapsed,
        timeout >= 1 && timeout * 1000 - elapsed >= 1000 ==> codebuddy_cn_ide::last_wait(System::Windows, timeout, elapsed)
            == timeout * 1000 - elapsed,
        timeout >= 1 && timeout * 1000 - elapsed < 1000 ==> codebuddy_cn_ide::last_wait(System::Windows, timeout, elapsed)
            == 1000,
        timeout >= 1 && timeout * 1000 - elapsed < 100 ==> codebuddy_cn_ide::last_wait(System::Mac, timeout, elapsed)
            == 100,
        timeout >= 9 ==> codebuddy_cn_ide::last_wait(System::Linux, timeout, elapsed) == timeout * 1000 - 8000,
{
}

/// The editor is up once it has run for ten seconds on end; it failed where it ran and went
/// away, and where thirty seconds are over.
pub proof fn the_editor_is_up_after_ten_seconds(app: Seq<char>, start: u64, elapsed: u64)
    requires
        start <= elapsed,
    ensures
        elapsed >= 30000 ==> codebuddy_cn_ide::startup_next(app, Some(start), elapsed, true) is Failed,
        elapsed < 30000 && elapsed - start >= 10000 ==> codebuddy_cn_ide::startup_next(app, Some(start), elapsed, true) is Up,
        elapsed < 30000 && elapsed - start < 10000 ==> codebuddy_cn_ide::startup_next(app, Some(start), elapsed, true)
            == StartupV::Watch(Some(start)),
        elapsed < 30000 ==> codebuddy_cn_ide::startup_next(app, None, elapsed, true) == StartupV::Watch(Some(elapsed)),
        elapsed < 30000 ==> codebuddy_cn_ide::startup_next(app, Some(start), elapsed, false) is Failed,
        elapsed < 30000 ==> codebuddy_cn_ide::startup_next(app, None, elapsed, false) == StartupV::Watch(None),
{
}

/// The editor's closing: nothing is asked where nothing runs, what was asked and lives on is
/// ended by force, and what lives on then is a failure.
pub proof fn closing_goes_from_asking_to_force(system: System, pids: Seq<u32>, alive: Seq<u32>)
    requires
        system != System::Mac,
    ensures
        alive.len() == 0 ==> codebuddy_cn_ide::close_next(system, None, alive) is Done,
        alive.len() > 0 ==> codebuddy_cn_ide::close_next(system, None, alive) == CloseStepV::Ask(alive),
        alive.len() == 0 ==> codebuddy_cn_ide::close_next(system, Some(CloseStepV::Ask(pids)), alive) is Done,
        alive.len() > 0 ==> codebuddy_cn_ide::close_next(system, Some(CloseStepV::Ask(pids)), alive)
            == CloseStepV::Force(alive),
        alive.len() == 0 ==> codebuddy_cn_ide::close_next(system, Some(CloseStepV::Force(pids)), alive) is Done,
        alive.len() > 0 ==> codebuddy_cn_ide::close_next(system, Some(CloseStepV::Force(pids)), alive) is Failed,
{
}

} // verus!
