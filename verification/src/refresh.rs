//! Renewing tokens: when an account is due, what is asked of the service, and
//! what the account becomes by the answer.
use vstd::prelude::*;
use crate::account;
use crate::auth_file;
use crate::config;
use crate::json;
use crate::json::{Json, JsonV};
use crate::text;
use crate::textmap::TextMap;
use crate::variant;

verus! {

/// The address that renews an account's token: that of its own edition.
pub open spec fn refresh_address(acc: JsonV) -> Seq<char> {
    variant::variant_in(acc).endpoint() + variant::WORKBUDDY_API_PREFIX@ + "/auth/token/refresh"@
}

/// The address that renews an account's token.
pub fn refresh_url(acc: &Json) -> (r: String)
    ensures
        r@ == refresh_address(acc@),
{
    let v = account::variant_of(acc);
    text::concat3(v.api_endpoint(), v.api_prefix(), "/auth/token/refresh")
}

/// The headers of a renewal: those of the account, its refresh token and the
/// source that the service ties the token to.
pub open spec fn renewal_headers(acc: JsonV, refresh_token: Seq<char>) -> Map<Seq<char>, Seq<char>> {
    account::auth_headers(acc).insert("X-Refresh-Token"@, refresh_token).insert(
        "X-Auth-Refresh-Source"@,
        "plugin"@,
    )
}

/// The headers of a renewal.
pub fn refresh_headers(acc: &Json, refresh_token: &str) -> (m: TextMap)
    ensures
        m@ == renewal_headers(acc@, refresh_token@),
{
    let mut headers: TextMap = account::build_auth_headers(acc);
    headers.insert("X-Refresh-Token".to_owned(), refresh_token.to_owned());
    headers.insert("X-Auth-Refresh-Source".to_owned(), "plugin".to_owned());
    headers
}

/// A text member, or the empty text.
pub open spec fn text_or_empty(v: JsonV, key: Seq<char>) -> Seq<char> {
    account::or_empty(v.get_str(key))
}

/// A text member, or the empty text.
pub fn get_text(v: &Json, key: &str) -> (r: String)
    ensures
        r@ == text_or_empty(v@, key@),
{
    match v.get_str(key) {
        Some(s) => s.to_owned(),
        None => {
            let r: String = "".to_owned();
            proof {
                reveal_strlit("");
                assert(r@ =~= Seq::<char>::empty());
            }
            r
        },
    }
}

/// What to ask of the service for an account: the address and the headers, or
/// nothing where the account has no refresh token.
pub fn refresh_request(acc: &Json) -> (r: Option<(String, TextMap)>)
    ensures
        match r {
            Some((url, headers)) => text_or_empty(acc@, "refresh_token"@).len() > 0 && url@ == refresh_address(acc@)
                && headers@ == renewal_headers(acc@, text_or_empty(acc@, "refresh_token"@)),
            None => text_or_empty(acc@, "refresh_token"@).len() == 0,
        },
{
    let token: String = get_text(acc, "refresh_token");
    if token.as_str().is_empty() {
        None
    } else {
        Some((refresh_url(acc), refresh_headers(acc, token.as_str())))
    }
}

/// The account, marked as one that has to log in again.
pub open spec fn relogin(acc: JsonV, reason: Seq<char>) -> JsonV {
    acc.put("needs_relogin"@, JsonV::Bool(true)).put("needs_relogin_reason"@, JsonV::Str(reason))
}

fn mark_relogin(acc: Json, reason: &str) -> (r: Json)
    requires
        acc@ is Obj || acc@ is Null,
    ensures
        r@ == relogin(acc@, reason@),
{
    acc.put("needs_relogin", Json::Bool(true)).put("needs_relogin_reason", Json::text(reason))
}

/// The code of an answer.
pub open spec fn code_of(resp: JsonV) -> int {
    match resp.get_i64("code"@) {
        Some(c) => c,
        None => -1,
    }
}

/// The code of an answer, -1 where it has none.
pub fn response_code(resp: &Json) -> (c: i64)
    ensures
        c == code_of(resp@),
{
    match resp.get_i64("code") {
        Some(c) => c,
        None => -1,
    }
}

/// The data of an answer, an empty object where it has none.
pub open spec fn data_of(resp: JsonV) -> JsonV {
    match resp.get("data"@) {
        Some(d) => d,
        None => JsonV::empty(),
    }
}

/// The data of an answer, an empty object where it has none.
pub fn response_data(resp: &Json) -> (r: Json)
    ensures
        r@ == data_of(resp@),
{
    match resp.get("data") {
        Some(d) => d.clone(),
        None => Json::object(),
    }
}

/// A text member by its name, or by its other name.
pub open spec fn either_text(v: JsonV, a: Seq<char>, b: Seq<char>) -> Option<Seq<char>> {
    account::first_of(v.get_str(a), v.get_str(b))
}

/// A text member by its name, or by its other name.
pub fn text_by_either<'a>(v: &'a Json, a: &str, b: &str) -> (r: Option<&'a str>)
    ensures
        json::opt_text(r) == either_text(v@, a@, b@),
{
    match v.get_str(a) {
        Some(s) => Some(s),
        None => v.get_str(b),
    }
}

/// A time member by its name, or by its other name.
pub open spec fn either_time(v: JsonV, a: Seq<char>, b: Seq<char>) -> Option<int> {
    config::time_of(auth_file::or_value(v.get(a), v.get(b)))
}

/// A time member by its name, or by its other name, in milliseconds.
pub fn time_by_either(v: &Json, a: &str, b: &str) -> (r: Option<i64>)
    ensures
        json::opt_int(r) == either_time(v@, a@, b@),
{
    match v.get(a) {
        Some(x) => config::norm_ts(Some(x)),
        None => config::norm_ts(v.get(b)),
    }
}

/// The time that lies as many seconds ahead as a member says.
pub open spec fn time_ahead(v: JsonV, key: Seq<char>, now: int) -> Option<int> {
    match v.get_i64(key) {
        Some(s) => Some((now as i64).wrapping_add((s as i64).wrapping_mul(1000)) as int),
        None => None,
    }
}

/// The time that lies as many seconds ahead as a member says.
pub fn ahead(v: &Json, key: &str, now: i64) -> (r: Option<i64>)
    ensures
        json::opt_int(r) == time_ahead(v@, key@, now as int),
{
    match v.get_i64(key) {
        Some(s) => Some(now.wrapping_add(s.wrapping_mul(1000))),
        None => None,
    }
}

/// The first of two times.
pub open spec fn or_time(a: Option<int>, b: Option<int>) -> Option<int> {
    match a {
        Some(t) => Some(t),
        None => b,
    }
}

/// The account with a time, where there is one.
pub open spec fn put_time(acc: JsonV, key: Seq<char>, t: Option<int>) -> JsonV {
    match t {
        Some(t) => acc.put(key, JsonV::Int(t)),
        None => acc,
    }
}

fn with_time(acc: Json, key: &str, t: Option<i64>) -> (r: Json)
    requires
        acc@ is Obj,
    ensures
        r@ == put_time(acc@, key@, json::opt_int(t)),
        r@ is Obj,
{
    match t {
        Some(t) => acc.put(key, Json::num(t)),
        None => acc,
    }
}

/// The account with the tokens and times of an answer.
pub open spec fn renewed(acc: JsonV, data: JsonV, token: Seq<char>, now: int) -> JsonV {
    let a = acc.put("access_token"@, JsonV::Str(token));
    let a = match either_text(data, "refreshToken"@, "refresh_token"@) {
        Some(t) => a.put("refresh_token"@, JsonV::Str(t)),
        None => a,
    };
    let a = put_time(
        a,
        "expiresAt"@,
        or_time(either_time(data, "expiresAt"@, "expires_at"@), time_ahead(data, "expiresIn"@, now)),
    );
    let a = put_time(
        a,
        "refreshExpiresAt"@,
        or_time(
            or_time(
                either_time(data, "refreshExpiresAt"@, "refresh_expires_at"@),
                config::time_of(auth_file::get2(a, "auth_raw"@, "refreshExpiresAt"@)),
            ),
            time_ahead(data, "refreshExpiresIn"@, now),
        ),
    );
    a.put("refreshedAt"@, JsonV::Int(now)).without("needs_relogin"@).without("needs_relogin_reason"@)
}

/// Why an answer renewed nothing.
pub open spec fn failure_of(resp: JsonV) -> Seq<char> {
    "刷新失败(code="@ + text::int_text(code_of(resp)) + "): "@ + (match auth_file::or_value(
        resp.get("message"@),
        resp.get("msg"@),
    ) {
        Some(JsonV::Str(s)) => s,
        _ => "未知错误"@,
    })
}

/// The account after the service answered to a renewal.
pub open spec fn refreshed(acc: JsonV, resp: JsonV, now: int) -> JsonV {
    if text_or_empty(acc, "refresh_token"@).len() == 0 {
        relogin(acc, "缺少 refresh token，无法刷新，需重新登录"@)
    } else if code_of(resp) != 0 && code_of(resp) != 200 {
        relogin(acc, failure_of(resp))
    } else {
        match either_text(data_of(resp), "accessToken"@, "access_token"@) {
            None => relogin(acc, "刷新响应缺少 accessToken"@),
            Some(token) => renewed(acc, data_of(resp), token, now),
        }
    }
}

fn failure_text(resp: &Json) -> (r: String)
    ensures
        r@ == failure_of(resp@),
{
    let code: String = text::text_of_i64(response_code(resp));
    let front: String = text::concat3("刷新失败(code=", code.as_str(), "): ");
    let message: Option<&Json> = match resp.get("message") {
        Some(m) => Some(m),
        None => resp.get("msg"),
    };
    let said: Option<&str> = match message {
        Some(m) => m.as_str(),
        None => None,
    };
    match said {
        Some(s) => text::concat(front.as_str(), s),
        None => text::concat(front.as_str(), "未知错误"),
    }
}

fn renew(acc: Json, data: &Json, token: &str, now: i64) -> (r: Json)
    requires
        acc@ is Obj,
    ensures
        r@ == renewed(acc@, data@, token@, now as int),
{
    let a: Json = acc.put("access_token", Json::text(token));
    let a: Json = match text_by_either(data, "refreshToken", "refresh_token") {
        Some(t) => a.put("refresh_token", Json::text(t)),
        None => a,
    };
    let expiry: Option<i64> = match time_by_either(data, "expiresAt", "expires_at") {
        Some(t) => Some(t),
        None => ahead(data, "expiresIn", now),
    };
    let a: Json = with_time(a, "expiresAt", expiry);
    let known: Option<i64> = match a.get("auth_raw") {
        Some(raw) => config::norm_ts(raw.get("refreshExpiresAt")),
        None => None,
    };
    let given: Option<i64> = time_by_either(data, "refreshExpiresAt", "refresh_expires_at");
    let refresh_expiry: Option<i64> = if given.is_some() {
        given
    } else if known.is_some() {
        known
    } else {
        ahead(data, "refreshExpiresIn", now)
    };
    let a: Json = with_time(a, "refreshExpiresAt", refresh_expiry);
    a.put("refreshedAt", Json::num(now)).without("needs_relogin").without("needs_relogin_reason")
}

/// The account after the service answered to a renewal: with the new tokens and
/// times, or marked as one that has to log in again, with the reason. An account
/// without a refresh token is marked whatever the answer is.
pub fn refresh_account_token(acc: Json, resp: &Json, now: i64) -> (r: Json)
    requires
        acc@ is Obj || acc@ is Null,
    ensures
        r@ == refreshed(acc@, resp@, now as int),
{
    if get_text(&acc, "refresh_token").as_str().is_empty() {
        return mark_relogin(acc, "缺少 refresh token，无法刷新，需重新登录");
    }
    let code: i64 = response_code(resp);
    if code != 0 && code != 200 {
        let reason: String = failure_text(resp);
        return mark_relogin(acc, reason.as_str());
    }
    let data: Json = response_data(resp);
    match text_by_either(&data, "accessToken", "access_token") {
        None => mark_relogin(acc, "刷新响应缺少 accessToken"),
        Some(token) => renew(acc, &data, token, now),
    }
}

/// The members that a renewal may change.
pub open spec fn touched_by_refresh(key: Seq<char>) -> bool {
    key == "needs_relogin"@ || key == "needs_relogin_reason"@ || key == "access_token"@ || key == "refresh_token"@
        || key == "expiresAt"@ || key == "refreshExpiresAt"@ || key == "refreshedAt"@
}

/// Whatever the service answers, a renewal changes tokens, times and the marks
/// on them, and no other member of the account.
pub proof fn refresh_keeps_identity(acc: JsonV, resp: JsonV, now: int, key: Seq<char>)
    requires
        acc is Obj || acc is Null,
        !touched_by_refresh(key),
    ensures
        refreshed(acc, resp, now).get(key) == acc.get(key),
{
}

/// A renewal that brought no token keeps the tokens that the account has and
/// marks it; one that did takes the marks away.
pub proof fn refresh_marks_or_renews(acc: JsonV, resp: JsonV, now: int)
    requires
        acc is Obj || acc is Null,
    ensures
        ({
            let r = refreshed(acc, resp, now);
            if r.get_bool("needs_relogin"@) == Some(true) {
                r.get("access_token"@) == acc.get("access_token"@) && r.get("refresh_token"@) == acc.get(
                    "refresh_token"@,
                )
            } else {
                r.get("needs_relogin"@) is None && r.get("needs_relogin_reason"@) is None && r.get("refreshedAt"@)
                    == Some(JsonV::Int(now)) && r.get_str("access_token"@) == either_text(
                    data_of(resp),
                    "accessToken"@,
                    "access_token"@,
                )
            }
        }),
{
    reveal_strlit("needs_relogin");
    reveal_strlit("needs_relogin_reason");
    reveal_strlit("access_token");
    reveal_strlit("refresh_token");
    reveal_strlit("expiresAt");
    reveal_strlit("refreshExpiresAt");
    reveal_strlit("refreshedAt");
    assert("needs_relogin"@.len() == 13 && "needs_relogin_reason"@.len() == 20 && "access_token"@.len() == 12);
    assert("refresh_token"@.len() == 13 && "refresh_token"@[0] == 'r' && "needs_relogin"@[0] == 'n');
    assert("expiresAt"@.len() == 9 && "refreshExpiresAt"@.len() == 16 && "refreshedAt"@.len() == 11);
}

/// Whether a time has come, or comes within the milliseconds.
pub open spec fn runs_out(expiry: Option<int>, now: int, within: i64) -> bool {
    match expiry {
        Some(e) => now >= e || (e as i64).wrapping_sub(now as i64) < within,
        None => true,
    }
}

fn runs_out_within(expiry: Option<i64>, now: i64, within: i64) -> (b: bool)
    ensures
        b == runs_out(json::opt_int(expiry), now as int, within),
{
    match expiry {
        Some(e) => now >= e || e.wrapping_sub(now) < within,
        None => true,
    }
}

/// A whole-number setting.
pub open spec fn setting(cfg: JsonV, key: Seq<char>, default: int) -> int {
    match cfg.get_i64(key) {
        Some(n) => n,
        None => default,
    }
}

/// A whole-number setting.
pub fn setting_of(cfg: &Json, key: &str, default: i64) -> (n: i64)
    ensures
        n == setting(cfg@, key@, default as int),
{
    match cfg.get_i64(key) {
        Some(n) => n,
        None => default,
    }
}

/// Whether a request has to renew the account's token first: it has run out, or
/// soon will, and there is a refresh token to renew it with.
pub open spec fn wants_refresh(acc: JsonV, cfg: JsonV, now: int) -> bool {
    runs_out(
        acc.get_i64("expiresAt"@),
        now,
        (setting(cfg, "lazy_refresh_hours"@, 24) as i64).wrapping_mul(3600).wrapping_mul(1000),
    ) && text_or_empty(acc, "refresh_token"@).len() > 0
}

/// Whether a request has to renew the account's token first.
pub fn is_refresh_due(acc: &Json, cfg: &Json, now: i64) -> (b: bool)
    ensures
        b == wants_refresh(acc@, cfg@, now as int),
{
    let hours: i64 = setting_of(cfg, "lazy_refresh_hours", 24);
    let within: i64 = hours.wrapping_mul(3600).wrapping_mul(1000);
    runs_out_within(acc.get_i64("expiresAt"), now, within) && !get_text(acc, "refresh_token").as_str().is_empty()
}

/// What a request works with: the account, renewed by the answer where it was due.
pub fn ensure_fresh_token(acc: Json, cfg: &Json, resp: &Json, now: i64) -> (r: Json)
    ensures
        r@ == (if wants_refresh(acc@, cfg@, now as int) {
            refreshed(acc@, resp@, now as int)
        } else {
            acc@
        }),
{
    if is_refresh_due(&acc, cfg, now) {
        refresh_account_token(acc, resp, now)
    } else {
        acc
    }
}

/// What the daily round does with an account.
#[derive(Debug, Clone, Copy, PartialEq, Eq, Structural)]
pub enum Keepalive {
    /// Its token lasts: nothing is done.
    Lasting,
    /// It has no refresh token: it is marked.
    NoToken,
    /// Its token is renewed.
    Renew,
}

/// What the daily round does with an account. With no number of days set, it
/// renews all that can be renewed.
pub open spec fn keepalive(acc: JsonV, cfg: JsonV, now: int) -> Keepalive {
    let days = setting(cfg, "keepalive_days"@, 0);
    if !(days <= 0 || runs_out(
        acc.get_i64("expiresAt"@),
        now,
        (days as i64).wrapping_mul(24).wrapping_mul(3600).wrapping_mul(1000),
    )) {
        Keepalive::Lasting
    } else if text_or_empty(acc, "refresh_token"@).len() == 0 {
        Keepalive::NoToken
    } else {
        Keepalive::Renew
    }
}

/// What the daily round does with an account.
pub fn keepalive_step(acc: &Json, cfg: &Json, now: i64) -> (r: Keepalive)
    ensures
        r == keepalive(acc@, cfg@, now as int),
{
    let days: i64 = setting_of(cfg, "keepalive_days", 0);
    let stale: bool = if days <= 0 {
        true
    } else {
        let within: i64 = days.wrapping_mul(24).wrapping_mul(3600).wrapping_mul(1000);
        runs_out_within(acc.get_i64("expiresAt"), now, within)
    };
    if !stale {
        Keepalive::Lasting
    } else if get_text(acc, "refresh_token").as_str().is_empty() {
        Keepalive::NoToken
    } else {
        Keepalive::Renew
    }
}

/// The account as the daily round leaves it, given the service's answer.
pub open spec fn kept_alive(acc: JsonV, cfg: JsonV, resp: JsonV, now: int) -> (JsonV, Option<JsonV>) {
    match keepalive(acc, cfg, now) {
        Keepalive::Lasting => (acc, None),
        Keepalive::NoToken => {
            let a = relogin(acc, "缺少 refresh token，无法保活，需重新登录"@);
            (
                a,
                Some(
                    JsonV::empty().put("email"@, JsonV::Str(account::display_name(a))).put(
                        "status"@,
                        JsonV::Str("missing_rt"@),
                    ),
                ),
            )
        },
        Keepalive::Renew => {
            let a = refreshed(acc, resp, now);
            (a, Some(keepalive_row(a)))
        },
    }
}

/// What the daily round reports of an account whose renewal was tried.
pub open spec fn keepalive_row(a: JsonV) -> JsonV {
    let failed = a.get_bool("needs_relogin"@) == Some(true);
    JsonV::empty().put("email"@, JsonV::Str(account::display_name(a))).put(
        "status"@,
        JsonV::Str(if failed { "failed"@ } else { "ok"@ }),
    ).put(
        "error"@,
        if failed {
            json::text_or_null(a.get_str("needs_relogin_reason"@))
        } else {
            JsonV::Null
        },
    )
}

/// The account as the daily round leaves it, and what is reported of it, given
/// the service's answer (which is looked at only where the token is renewed).
pub fn keep_alive(acc: Json, cfg: &Json, resp: &Json, now: i64) -> (r: (Json, Option<Json>))
    requires
        acc@ is Obj || acc@ is Null,
    ensures
        (r.0@, account::opt_json(r.1)) == kept_alive(acc@, cfg@, resp@, now as int),
{
    match keepalive_step(&acc, cfg, now) {
        Keepalive::Lasting => (acc, None),
        Keepalive::NoToken => {
            let a: Json = mark_relogin(acc, "缺少 refresh token，无法保活，需重新登录");
            let name: String = account::account_display_name(&a);
            let row: Json = Json::object().put("email", Json::text(name.as_str())).put(
                "status",
                Json::text("missing_rt"),
            );
            (a, Some(row))
        },
        Keepalive::Renew => {
            let a: Json = refresh_account_token(acc, resp, now);
            let failed: bool = match a.get_bool("needs_relogin") {
                Some(b) => b,
                None => false,
            };
            let name: String = account::account_display_name(&a);
            let error: Json = if failed {
                Json::opt_text(a.get_str("needs_relogin_reason"))
            } else {
                Json::Null
            };
            let row: Json = Json::object().put("email", Json::text(name.as_str())).put(
                "status",
                Json::text(if failed { "failed" } else { "ok" }),
            ).put("error", error);
            (a, Some(row))
        },
    }
}

/// What a daily round reports: how many accounts there are and what was done.
pub fn keepalive_report(checked: usize, refreshed: Vec<Json>) -> (r: Json)
    ensures
        r@ == JsonV::empty().put("checked"@, JsonV::Int(checked as int)).put(
            "refreshed"@,
            JsonV::Arr(json::list_view(refreshed@)),
        ),
{
    Json::object().put("checked", Json::count(checked)).put("refreshed", Json::Arr(refreshed))
}

} // verus!
