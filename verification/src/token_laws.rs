//! What renewing an account's tokens and switching the client to an account are for.
use vstd::prelude::*;
use crate::account;
use crate::auth_file;
use crate::config;
use crate::json;
use crate::json::JsonV;
use crate::refresh;
use crate::text;
use crate::variant::WbVariant;

verus! {

proof fn account_names()
    ensures
        "access_token"@ != "refresh_token"@,
        "access_token"@ != "expiresAt"@,
        "access_token"@ != "refreshExpiresAt"@,
        "access_token"@ != "refreshedAt"@,
        "access_token"@ != "needs_relogin"@,
        "access_token"@ != "needs_relogin_reason"@,
        "access_token"@ != "auth_raw"@,
        "refresh_token"@ != "expiresAt"@,
        "refresh_token"@ != "refreshExpiresAt"@,
        "refresh_token"@ != "refreshedAt"@,
        "refresh_token"@ != "needs_relogin"@,
        "refresh_token"@ != "needs_relogin_reason"@,
        "refresh_token"@ != "auth_raw"@,
        "expiresAt"@ != "refreshExpiresAt"@,
        "expiresAt"@ != "refreshedAt"@,
        "expiresAt"@ != "needs_relogin"@,
        "expiresAt"@ != "needs_relogin_reason"@,
        "expiresAt"@ != "auth_raw"@,
        "refreshExpiresAt"@ != "refreshedAt"@,
        "refreshExpiresAt"@ != "needs_relogin"@,
        "refreshExpiresAt"@ != "needs_relogin_reason"@,
        "refreshExpiresAt"@ != "auth_raw"@,
        "refreshedAt"@ != "needs_relogin"@,
        "refreshedAt"@ != "needs_relogin_reason"@,
        "refreshedAt"@ != "auth_raw"@,
        "needs_relogin"@ != "needs_relogin_reason"@,
        "needs_relogin"@ != "auth_raw"@,
        "needs_relogin_reason"@ != "auth_raw"@,
{
    reveal_strlit("access_token");
    reveal_strlit("refresh_token");
    reveal_strlit("expiresAt");
    reveal_strlit("refreshExpiresAt");
    reveal_strlit("refreshedAt");
    reveal_strlit("needs_relogin");
    reveal_strlit("needs_relogin_reason");
    reveal_strlit("auth_raw");
    assert("access_token"@.len() == 12);
    assert("refresh_token"@.len() == 13);
    assert("expiresAt"@.len() == 9);
    assert("refreshExpiresAt"@.len() == 16);
    assert("refreshedAt"@.len() == 11);
    assert("needs_relogin"@.len() == 13);
    assert("needs_relogin_reason"@.len() == 20);
    assert("auth_raw"@.len() == 8);
    assert("refresh_token"@[0] != "needs_relogin"@[0]);
}

proof fn login_names()
    ensures
        "accessToken"@.len() == 11,
        "refreshToken"@.len() == 12 && "refreshToken"@[0] == 'r',
        "tokenType"@.len() == 9 && "tokenType"@[7] == 'p',
        "domain"@.len() == 6,
        "lastRefreshTime"@.len() == 15 && "lastRefreshTime"@[0] == 'l',
        "scope"@.len() == 5,
        "expiresAt"@.len() == 9 && "expiresAt"@[7] == 'A',
        "expiresIn"@.len() == 9 && "expiresIn"@[7] == 'I',
        "refreshExpiresAt"@.len() == 16 && "refreshExpiresAt"@[14] == 'A',
        "refreshExpiresIn"@.len() == 16 && "refreshExpiresIn"@[14] == 'I',
        "notBeforePolicy"@.len() == 15 && "notBeforePolicy"@[0] == 'n',
        "sessionState"@.len() == 12 && "sessionState"@[0] == 's',
{
    reveal_strlit("accessToken");
    reveal_strlit("refreshToken");
    reveal_strlit("tokenType");
    reveal_strlit("domain");
    reveal_strlit("lastRefreshTime");
    reveal_strlit("scope");
    reveal_strlit("expiresAt");
    reveal_strlit("expiresIn");
    reveal_strlit("refreshExpiresAt");
    reveal_strlit("refreshExpiresIn");
    reveal_strlit("notBeforePolicy");
    reveal_strlit("sessionState");
}

proof fn session_names()
    ensures
        "account"@.len() == 7,
        "auth"@.len() == 4,
        "accounts"@.len() == 8,
        "allAccounts"@.len() == 11,
{
    reveal_strlit("account");
    reveal_strlit("auth");
    reveal_strlit("accounts");
    reveal_strlit("allAccounts");
}

proof fn root_names()
    ensures
        "account"@.len() == 7,
        "auth"@.len() == 4 && "auth"@[0] == 'a',
        "accounts"@.len() == 8 && "accounts"@[0] == 'a',
        "allAccounts"@.len() == 11 && "allAccounts"@[1] == 'l',
        "expiresAt"@.len() == 9,
        "refreshExpiresAt"@.len() == 16,
        "uid"@.len() == 3,
        "nickname"@.len() == 8 && "nickname"@[0] == 'n',
        "name"@.len() == 4 && "name"@[0] == 'n',
        "email"@.len() == 5,
        "domain"@.len() == 6,
        "access_token"@.len() == 12 && "access_token"@[0] == 'a',
        "refresh_token"@.len() == 13 && "refresh_token"@[0] == 'r',
        "accessToken"@.len() == 11 && "accessToken"@[1] == 'c',
        "refreshToken"@.len() == 12 && "refreshToken"@[0] == 'r',
        "enterpriseName"@.len() == 14,
        "enterprise_name"@.len() == 15,
        "enterpriseId"@.len() == 12 && "enterpriseId"@[0] == 'e',
        "enterprise_id"@.len() == 13 && "enterprise_id"@[0] == 'e',
{
    reveal_strlit("account");
    reveal_strlit("auth");
    reveal_strlit("accounts");
    reveal_strlit("allAccounts");
    reveal_strlit("expiresAt");
    reveal_strlit("refreshExpiresAt");
    reveal_strlit("uid");
    reveal_strlit("nickname");
    reveal_strlit("name");
    reveal_strlit("email");
    reveal_strlit("domain");
    reveal_strlit("access_token");
    reveal_strlit("refresh_token");
    reveal_strlit("accessToken");
    reveal_strlit("refreshToken");
    reveal_strlit("enterpriseName");
    reveal_strlit("enterprise_name");
    reveal_strlit("enterpriseId");
    reveal_strlit("enterprise_id");
}

proof fn imported_names()
    ensures
        "id"@ != "uid"@,
        "id"@ != "nickname"@,
        "id"@ != "email"@,
        "id"@ != "variant"@,
        "id"@ != "enterpriseName"@,
        "id"@ != "enterpriseId"@,
        "id"@ != "access_token"@,
        "id"@ != "refresh_token"@,
        "id"@ != "token_type"@,
        "id"@ != "domain"@,
        "id"@ != "expiresAt"@,
        "id"@ != "refreshExpiresAt"@,
        "id"@ != "auth_raw"@,
        "id"@ != "profile_raw"@,
        "id"@ != "createdAt"@,
        "uid"@ != "nickname"@,
        "uid"@ != "email"@,
        "uid"@ != "variant"@,
        "uid"@ != "enterpriseName"@,
        "uid"@ != "enterpriseId"@,
        "uid"@ != "access_token"@,
        "uid"@ != "refresh_token"@,
        "uid"@ != "token_type"@,
        "uid"@ != "domain"@,
        "uid"@ != "expiresAt"@,
        "uid"@ != "refreshExpiresAt"@,
        "uid"@ != "auth_raw"@,
        "uid"@ != "profile_raw"@,
        "uid"@ != "createdAt"@,
        "nickname"@ != "email"@,
        "nickname"@ != "variant"@,
        "nickname"@ != "enterpriseName"@,
        "nickname"@ != "enterpriseId"@,
        "nickname"@ != "access_token"@,
        "nickname"@ != "refresh_token"@,
        "nickname"@ != "token_type"@,
        "nickname"@ != "domain"@,
        "nickname"@ != "expiresAt"@,
        "nickname"@ != "refreshExpiresAt"@,
        "nickname"@ != "auth_raw"@,
        "nickname"@ != "profile_raw"@,
        "nickname"@ != "createdAt"@,
        "email"@ != "variant"@,
        "email"@ != "enterpriseName"@,
        "email"@ != "enterpriseId"@,
        "email"@ != "access_token"@,
        "email"@ != "refresh_token"@,
        "email"@ != "token_type"@,
        "email"@ != "domain"@,
        "email"@ != "expiresAt"@,
        "email"@ != "refreshExpiresAt"@,
        "email"@ != "auth_raw"@,
        "email"@ != "profile_raw"@,
        "email"@ != "createdAt"@,
        "variant"@ != "enterpriseName"@,
        "variant"@ != "enterpriseId"@,
        "variant"@ != "access_token"@,
        "variant"@ != "refresh_token"@,
        "variant"@ != "token_type"@,
        "variant"@ != "domain"@,
        "variant"@ != "expiresAt"@,
        "variant"@ != "refreshExpiresAt"@,
        "variant"@ != "auth_raw"@,
        "variant"@ != "profile_raw"@,
        "variant"@ != "createdAt"@,
        "enterpriseName"@ != "enterpriseId"@,
        "enterpriseName"@ != "access_token"@,
        "enterpriseName"@ != "refresh_token"@,
        "enterpriseName"@ != "token_type"@,
        "enterpriseName"@ != "domain"@,
        "enterpriseName"@ != "expiresAt"@,
        "enterpriseName"@ != "refreshExpiresAt"@,
        "enterpriseName"@ != "auth_raw"@,
        "enterpriseName"@ != "profile_raw"@,
        "enterpriseName"@ != "createdAt"@,
        "enterpriseId"@ != "access_token"@,
        "enterpriseId"@ != "refresh_token"@,
        "enterpriseId"@ != "token_type"@,
        "enterpriseId"@ != "domain"@,
        "enterpriseId"@ != "expiresAt"@,
        "enterpriseId"@ != "refreshExpiresAt"@,
        "enterpriseId"@ != "auth_raw"@,
        "enterpriseId"@ != "profile_raw"@,
        "enterpriseId"@ != "createdAt"@,
        "access_token"@ != "refresh_token"@,
        "access_token"@ != "token_type"@,
        "access_token"@ != "domain"@,
        "access_token"@ != "expiresAt"@,
        "access_token"@ != "refreshExpiresAt"@,
        "access_token"@ != "auth_raw"@,
        "access_token"@ != "profile_raw"@,
        "access_token"@ != "createdAt"@,
        "refresh_token"@ != "token_type"@,
        "refresh_token"@ != "domain"@,
        "refresh_token"@ != "expiresAt"@,
        "refresh_token"@ != "refreshExpiresAt"@,
        "refresh_token"@ != "auth_raw"@,
        "refresh_token"@ != "profile_raw"@,
        "refresh_token"@ != "createdAt"@,
        "token_type"@ != "domain"@,
        "token_type"@ != "expiresAt"@,
        "token_type"@ != "refreshExpiresAt"@,
        "token_type"@ != "auth_raw"@,
        "token_type"@ != "profile_raw"@,
        "token_type"@ != "createdAt"@,
        "domain"@ != "expiresAt"@,
        "domain"@ != "refreshExpiresAt"@,
        "domain"@ != "auth_raw"@,
        "domain"@ != "profile_raw"@,
        "domain"@ != "createdAt"@,
        "expiresAt"@ != "refreshExpiresAt"@,
        "expiresAt"@ != "auth_raw"@,
        "expiresAt"@ != "profile_raw"@,
        "expiresAt"@ != "createdAt"@,
        "refreshExpiresAt"@ != "auth_raw"@,
        "refreshExpiresAt"@ != "profile_raw"@,
        "refreshExpiresAt"@ != "createdAt"@,
        "auth_raw"@ != "profile_raw"@,
        "auth_raw"@ != "createdAt"@,
        "profile_raw"@ != "createdAt"@,
{
    reveal_strlit("id");
    reveal_strlit("uid");
    reveal_strlit("nickname");
    reveal_strlit("email");
    reveal_strlit("variant");
    reveal_strlit("enterpriseName");
    reveal_strlit("enterpriseId");
    reveal_strlit("access_token");
    reveal_strlit("refresh_token");
    reveal_strlit("token_type");
    reveal_strlit("domain");
    reveal_strlit("expiresAt");
    reveal_strlit("refreshExpiresAt");
    reveal_strlit("auth_raw");
    reveal_strlit("profile_raw");
    reveal_strlit("createdAt");
    assert("id"@.len() == 2);
    assert("uid"@.len() == 3);
    assert("nickname"@.len() == 8);
    assert("email"@.len() == 5);
    assert("variant"@.len() == 7);
    assert("enterpriseName"@.len() == 14);
    assert("enterpriseId"@.len() == 12);
    assert("access_token"@.len() == 12);
    assert("refresh_token"@.len() == 13);
    assert("token_type"@.len() == 10);
    assert("domain"@.len() == 6);
    assert("expiresAt"@.len() == 9);
    assert("refreshExpiresAt"@.len() == 16);
    assert("auth_raw"@.len() == 8);
    assert("profile_raw"@.len() == 11);
    assert("createdAt"@.len() == 9);
    assert("nickname"@[0] != "auth_raw"@[0]);
    assert("enterpriseId"@[0] != "access_token"@[0]);
    assert("expiresAt"@[0] != "createdAt"@[0]);
}

/// A time in an answer, in milliseconds: a number of seconds is taken a thousandfold,
/// as every number below ten billion is one.
pub proof fn times_are_in_milliseconds(t: int)
    requires
        i64::MIN <= t <= i64::MAX,
    ensures
        t >= 10_000_000_000 ==> config::time_of(Some(JsonV::Int(t))) == Some(t),
        -9_000_000_000_000_000 <= t < 10_000_000_000 ==> config::time_of(Some(JsonV::Int(t))) == Some(t * 1000),
        config::time_of(None) is None,
        config::time_of(Some(JsonV::Null)) is None,
{
}

/// A renewal takes over the tokens that the answer brings, notes when it was made and
/// takes back that the account has to log in; a refresh token that the answer leaves
/// out stays.
pub proof fn renewal_takes_over_tokens(
    acc: JsonV,
    resp: JsonV,
    data: JsonV,
    code: int,
    old_token: Seq<char>,
    token: Seq<char>,
    now: i64,
)
    requires
        acc is Obj,
        acc.get("refresh_token"@) == Some(JsonV::Str(old_token)),
        old_token.len() > 0,
        resp.get("code"@) == Some(JsonV::Int(code)),
        code == 0 || code == 200,
        resp.get("data"@) == Some(data),
        data.get("accessToken"@) == Some(JsonV::Str(token)) || (!(data.get("accessToken"@) matches Some(JsonV::Str(_)))
            && data.get("access_token"@) == Some(JsonV::Str(token))),
    ensures
        ({
            let r = refresh::refreshed(acc, resp, now as int);
            &&& r.get("access_token"@) == Some(JsonV::Str(token))
            &&& r.get("refreshedAt"@) == Some(JsonV::Int(now as int))
            &&& r.get("needs_relogin"@) is None && r.get("needs_relogin_reason"@) is None
            &&& data.get("refreshToken"@) matches Some(JsonV::Str(t)) ==> r.get("refresh_token"@) == Some(JsonV::Str(t))
            &&& !(data.get("refreshToken"@) matches Some(JsonV::Str(_))) ==> (data.get("refresh_token"@) matches Some(
                JsonV::Str(t),
            ) ==> r.get("refresh_token"@) == Some(JsonV::Str(t)))
            &&& data.get("refreshToken"@) is None && data.get("refresh_token"@) is None ==> r.get("refresh_token"@)
                == acc.get("refresh_token"@)
        }),
{
    account_names();
}

/// After a renewal the access token is good until the instant that the answer gives,
/// or for as long from now as it gives; until when it was good before does not matter
/// unless the answer says nothing.
pub proof fn renewal_takes_over_expiry(
    acc: JsonV,
    resp: JsonV,
    data: JsonV,
    code: int,
    old_token: Seq<char>,
    token: Seq<char>,
    now: i64,
)
    requires
        acc is Obj,
        acc.get("refresh_token"@) == Some(JsonV::Str(old_token)),
        old_token.len() > 0,
        resp.get("code"@) == Some(JsonV::Int(code)),
        code == 0 || code == 200,
        resp.get("data"@) == Some(data),
        data.get("accessToken"@) == Some(JsonV::Str(token)) || (!(data.get("accessToken"@) matches Some(JsonV::Str(_)))
            && data.get("access_token"@) == Some(JsonV::Str(token))),
    ensures
        ({
            let r = refresh::refreshed(acc, resp, now as int);
            &&& data.get("expiresAt"@) matches Some(JsonV::Int(t)) ==> (10_000_000_000 <= t <= i64::MAX
                ==> r.get("expiresAt"@) == Some(JsonV::Int(t)))
            &&& data.get("expiresAt"@) matches Some(JsonV::Int(t)) ==> (0 <= t < 10_000_000_000 ==> r.get(
                "expiresAt"@,
            ) == Some(JsonV::Int(t * 1000)))
            &&& data.get("expiresAt"@) is None ==> (data.get("expires_at"@) matches Some(JsonV::Int(t)) ==> (
            10_000_000_000 <= t <= i64::MAX ==> r.get("expiresAt"@) == Some(JsonV::Int(t))))
            &&& data.get("expiresAt"@) is None ==> (data.get("expires_at"@) matches Some(JsonV::Int(t)) ==> (0 <= t
                < 10_000_000_000 ==> r.get("expiresAt"@) == Some(JsonV::Int(t * 1000))))
            &&& data.get("expiresAt"@) is None && data.get("expires_at"@) is None ==> (data.get(
                "expiresIn"@,
            ) matches Some(JsonV::Int(s)) ==> (i64::MIN <= s * 1000 <= i64::MAX && i64::MIN <= now + s * 1000
                <= i64::MAX ==> r.get("expiresAt"@) == Some(JsonV::Int(now + s * 1000))))
            &&& data.get("expiresAt"@) is None && data.get("expires_at"@) is None && data.get("expiresIn"@) is None
                ==> r.get("expiresAt"@) == acc.get("expiresAt"@)
        }),
{
    account_names();
}

/// After a renewal the refresh token is good until the instant that the answer gives,
/// or for as long from now as it gives, or until the instant that the login was
/// collected with.
pub proof fn renewal_takes_over_refresh_expiry(
    acc: JsonV,
    resp: JsonV,
    data: JsonV,
    code: int,
    old_token: Seq<char>,
    token: Seq<char>,
    now: i64,
)
    requires
        acc is Obj,
        acc.get("refresh_token"@) == Some(JsonV::Str(old_token)),
        old_token.len() > 0,
        resp.get("code"@) == Some(JsonV::Int(code)),
        code == 0 || code == 200,
        resp.get("data"@) == Some(data),
        data.get("accessToken"@) == Some(JsonV::Str(token)) || (!(data.get("accessToken"@) matches Some(JsonV::Str(_)))
            && data.get("access_token"@) == Some(JsonV::Str(token))),
    ensures
        ({
            let r = refresh::refreshed(acc, resp, now as int);
            &&& data.get("refreshExpiresAt"@) matches Some(JsonV::Int(t)) ==> (10_000_000_000 <= t <= i64::MAX
                ==> r.get("refreshExpiresAt"@) == Some(JsonV::Int(t)))
            &&& data.get("refreshExpiresAt"@) is None ==> (data.get("refresh_expires_at"@) matches Some(JsonV::Int(t))
                ==> (10_000_000_000 <= t <= i64::MAX ==> r.get("refreshExpiresAt"@) == Some(JsonV::Int(t))))
            &&& data.get("refreshExpiresAt"@) is None && data.get("refresh_expires_at"@) is None && acc.get(
                "auth_raw"@,
            ) is None ==> (data.get("refreshExpiresIn"@) matches Some(JsonV::Int(s)) ==> (i64::MIN <= s * 1000
                <= i64::MAX && i64::MIN <= now + s * 1000 <= i64::MAX ==> r.get("refreshExpiresAt"@) == Some(
                JsonV::Int(now + s * 1000),
            )))
            &&& data.get("refreshExpiresAt"@) is None && data.get("refresh_expires_at"@) is None ==> (acc.get(
                "auth_raw"@,
            ) matches Some(raw) ==> (raw.get("refreshExpiresAt"@) matches Some(JsonV::Int(t)) ==> (10_000_000_000 <= t
                <= i64::MAX ==> r.get("refreshExpiresAt"@) == Some(JsonV::Int(t)))))
            &&& data.get("refreshExpiresAt"@) is None && data.get("refresh_expires_at"@) is None && data.get(
                "refreshExpiresIn"@,
            ) is None && acc.get("auth_raw"@) is None ==> r.get("refreshExpiresAt"@) == acc.get("refreshExpiresAt"@)
        }),
{
    account_names();
}

/// An account that cannot be renewed keeps its tokens and says why: it has no refresh
/// token, or the service refused, or the answer brings no token.
pub proof fn refused_renewal_says_why(acc: JsonV, resp: JsonV, now: int)
    requires
        acc is Obj,
    ensures
        !(acc.get("refresh_token"@) matches Some(JsonV::Str(_))) || acc.get("refresh_token"@) == Some(JsonV::Str(""@))
            ==> refresh::refreshed(acc, resp, now).get("needs_relogin"@) == Some(JsonV::Bool(true))
            && refresh::refreshed(acc, resp, now).get("needs_relogin_reason"@) == Some(
            JsonV::Str("缺少 refresh token，无法刷新，需重新登录"@),
        ),
        (resp.get("code"@) matches Some(JsonV::Int(c)) ==> c != 0 && c != 200) ==> refresh::refreshed(
            acc,
            resp,
            now,
        ).get("needs_relogin"@) == Some(JsonV::Bool(true)),
        resp.get("data"@) is None ==> refresh::refreshed(acc, resp, now).get("needs_relogin"@) == Some(
            JsonV::Bool(true),
        ),
        refresh::refreshed(acc, resp, now).get("needs_relogin"@) == Some(JsonV::Bool(true)) ==> refresh::refreshed(
            acc,
            resp,
            now,
        ).get("expiresAt"@) == acc.get("expiresAt"@) && refresh::refreshed(acc, resp, now).get("access_token"@)
            == acc.get("access_token"@) && refresh::refreshed(acc, resp, now).get("refresh_token"@) == acc.get(
            "refresh_token"@,
        ),
{
    account_names();
    reveal_strlit("");
}

/// A token is renewed before a request where it can be and where it has run out or runs
/// out within the hours that are set, a day where none are.
pub proof fn renewal_is_due_in_time(acc: JsonV, cfg: JsonV, now: i64, e: int, token: Seq<char>)
    requires
        acc.get("refresh_token"@) == Some(JsonV::Str(token)),
        token.len() > 0,
        acc.get("expiresAt"@) == Some(JsonV::Int(e)),
        i64::MIN <= e <= i64::MAX,
        i64::MIN <= e - now <= i64::MAX,
    ensures
        cfg.get("lazy_refresh_hours"@) is None ==> refresh::wants_refresh(acc, cfg, now as int) == (e - now
            < 86_400_000),
        cfg.get("lazy_refresh_hours"@) matches Some(JsonV::Int(h)) ==> (0 <= h <= 1_000_000 ==> refresh::wants_refresh(
            acc,
            cfg,
            now as int,
        ) == (e <= now || e - now < h * 3_600_000)),
{
}

/// A token of which it is not known how long it is good is renewed where it can be; one
/// that cannot be renewed is not.
pub proof fn renewal_needs_a_refresh_token(acc: JsonV, cfg: JsonV, now: i64)
    ensures
        acc.get("expiresAt"@) is None ==> (acc.get("refresh_token"@) matches Some(JsonV::Str(t)) ==> (t.len() > 0
            ==> refresh::wants_refresh(acc, cfg, now as int))),
        acc.get("refresh_token"@) is None ==> !refresh::wants_refresh(acc, cfg, now as int),
        acc.get("refresh_token"@) matches Some(JsonV::Str(t)) ==> (t.len() == 0 ==> !refresh::wants_refresh(
            acc,
            cfg,
            now as int,
        )),
{
}

/// The daily round renews every account that it can where no number of days is set;
/// else those whose token has run out or runs out within as many days. What it cannot
/// renew it marks and reports; what lasts it leaves alone.
pub proof fn daily_round_renews_what_runs_out(acc: JsonV, cfg: JsonV, resp: JsonV, now: i64)
    requires
        acc is Obj,
    ensures
        cfg.get("keepalive_days"@) is None ==> (acc.get("refresh_token"@) matches Some(JsonV::Str(t)) ==> (t.len() > 0
            ==> refresh::keepalive(acc, cfg, now as int) == refresh::Keepalive::Renew)),
        cfg.get("keepalive_days"@) is None && acc.get("refresh_token"@) is None ==> refresh::keepalive(
            acc,
            cfg,
            now as int,
        ) == refresh::Keepalive::NoToken,
        cfg.get("keepalive_days"@) matches Some(JsonV::Int(d)) ==> (acc.get("expiresAt"@) matches Some(JsonV::Int(e))
            ==> (0 < d <= 100_000 && i64::MIN <= e <= i64::MAX && i64::MIN <= e - now <= i64::MAX ==> ((
        refresh::keepalive(acc, cfg, now as int) == refresh::Keepalive::Lasting) == (e > now && e - now >= d
            * 86_400_000)))),
        refresh::keepalive(acc, cfg, now as int) == refresh::Keepalive::Lasting ==> refresh::kept_alive(
            acc,
            cfg,
            resp,
            now as int,
        ) == (acc, None::<JsonV>),
        refresh::keepalive(acc, cfg, now as int) == refresh::Keepalive::Renew ==> refresh::kept_alive(
            acc,
            cfg,
            resp,
            now as int,
        ).0 == refresh::refreshed(acc, resp, now as int),
{
}

proof fn report_names()
    ensures
        "email"@.len() == 5 && "email"@[1] == 'm',
        "status"@.len() == 6,
        "error"@.len() == 5 && "error"@[1] == 'r',
{
    reveal_strlit("email");
    reveal_strlit("status");
    reveal_strlit("error");
}

/// What the daily round reports of an account: that it was renewed, or that it failed
/// and why, or that it has no refresh token.
pub proof fn daily_round_reports(acc: JsonV, cfg: JsonV, resp: JsonV, now: i64)
    requires
        acc is Obj,
    ensures
        ({
            let (after, row) = refresh::kept_alive(acc, cfg, resp, now as int);
            match refresh::keepalive(acc, cfg, now as int) {
                refresh::Keepalive::Lasting => row is None,
                refresh::Keepalive::NoToken => row matches Some(r) && r.get("status"@) == Some(
                    JsonV::Str("missing_rt"@),
                ) && after.get("needs_relogin"@) == Some(JsonV::Bool(true)),
                refresh::Keepalive::Renew => row matches Some(r) && r.get("email"@) == Some(
                    JsonV::Str(account::display_name(after)),
                ) && (if after.get("needs_relogin"@) == Some(
                    JsonV::Bool(true),
                ) {
                    r.get("status"@) == Some(JsonV::Str("failed"@)) && r.get("error"@) == Some(
                        json::value_or_null(after.get("needs_relogin_reason"@)),
                    )
                } else {
                    r.get("status"@) == Some(JsonV::Str("ok"@)) && r.get("error"@) == Some(JsonV::Null)
                }),
            }
        }),
{
    account_names();
    report_names();
}

/// The written login is that of the account, whatever the login that it was collected
/// with says: its tokens, its kind and domain, when it was written, and how long its
/// token is good, by instant and in whole seconds.
pub proof fn written_login_is_the_accounts(acc: JsonV, existing: JsonV, now: int)
    ensures
        ({
            let auth = auth_file::login_session(acc, existing, now).get("auth"@)->0;
            &&& auth_file::login_session(acc, existing, now).get("auth"@) is Some && auth is Obj
            &&& auth.get("lastRefreshTime"@) == Some(JsonV::Int(now))
            &&& acc.get("access_token"@) matches Some(JsonV::Str(t)) ==> (text::trim(t).len() > 0 ==> auth.get(
                "accessToken"@,
            ) == Some(JsonV::Str(t)))
            &&& acc.get("refresh_token"@) matches Some(JsonV::Str(t)) ==> (text::trim(t).len() > 0 ==> auth.get(
                "refreshToken"@,
            ) == Some(JsonV::Str(t)))
            &&& acc.get("access_token"@) is None ==> auth.get("accessToken"@) == Some(JsonV::Str(""@))
            &&& acc.get("refresh_token"@) is None ==> auth.get("refreshToken"@) == Some(JsonV::Str(""@))
            &&& acc.get("token_type"@) matches Some(JsonV::Str(k)) ==> auth.get("tokenType"@) == Some(JsonV::Str(k))
            &&& acc.get("token_type"@) is None ==> auth.get("tokenType"@) == Some(JsonV::Str("Bearer"@))
            &&& acc.get("domain"@) matches Some(JsonV::Str(d)) ==> (text::trim(d).len() > 0 ==> auth.get("domain"@)
                == Some(JsonV::Str(text::trim(d))))
            &&& acc.get("expiresAt"@) matches Some(JsonV::Int(e)) ==> (i64::MIN <= e <= i64::MAX ==> auth.get(
                "expiresAt"@,
            ) == Some(JsonV::Int(e)))
            &&& acc.get("expiresAt"@) matches Some(JsonV::Int(e)) ==> (now < e <= i64::MAX && i64::MIN <= now ==> (
            auth.get("expiresIn"@) matches Some(JsonV::Int(s)) && s * 1000 <= e - now < s * 1000 + 1000))
            &&& acc.get("expiresAt"@) matches Some(JsonV::Int(e)) ==> (i64::MIN <= e <= now ==> e <= i64::MAX
                ==> auth.get("expiresIn"@) == Some(JsonV::Int(0)))
        }),
        ({
            let auth = auth_file::login_session(acc, existing, now).get("auth"@)->0;
            let raw = acc.get("auth_raw"@);
            &&& raw is None ==> (acc.get("expiresAt"@) matches Some(JsonV::Int(e)) ==> (i64::MIN <= e <= i64::MAX
                ==> auth.get("refreshExpiresAt"@) == Some(JsonV::Int(e))))
            &&& raw is None && acc.get("expiresAt"@) is None ==> auth.get("expiresIn"@) == Some(JsonV::Int(0))
                && auth.get("expiresAt"@) is None
            &&& raw is None ==> auth.get("scope"@) == Some(JsonV::Str("openid profile offline_access email"@))
            &&& raw matches Some(JsonV::Obj(m)) ==> (!(JsonV::Obj(m).get("auth"@) matches Some(JsonV::Obj(_)))
                ==> (JsonV::Obj(m).get("refreshExpiresAt"@) matches Some(v) ==> auth.get("refreshExpiresAt"@) == Some(
                v,
            )))
            &&& raw matches Some(JsonV::Obj(m)) ==> (JsonV::Obj(m).get("auth"@) matches Some(JsonV::Obj(inner)) ==> (
            JsonV::Obj(inner).get("scope"@) matches Some(v) ==> auth.get("scope"@) == Some(v)))
        }),
{
    login_names();
    session_names();
    account_names();
}

/// What a switch writes, an import reads back: the tokens, how long the access token is
/// good, and the domain.
pub proof fn switch_then_import_gives_back(
    acc: JsonV,
    existing: JsonV,
    now: int,
    variant: WbVariant,
    id: Seq<char>,
    later: int,
    token: Seq<char>,
)
    requires
        acc.get("access_token"@) == Some(JsonV::Str(token)),
        text::trim(token).len() > 0,
    ensures
        ({
            let back = auth_file::imported(auth_file::login_session(acc, existing, now), variant, id, later);
            &&& back is Some
            &&& back->0.get("access_token"@) == Some(JsonV::Str(token))
            &&& back->0.get("id"@) == Some(JsonV::Str(id))
            &&& back->0.get("variant"@) == Some(JsonV::Str(variant.name()))
            &&& back->0.get("createdAt"@) == Some(JsonV::Int(later))
            &&& acc.get("refresh_token"@) matches Some(JsonV::Str(t)) ==> (text::trim(t).len() > 0 ==> back->0.get(
                "refresh_token"@,
            ) == Some(JsonV::Str(t)))
            &&& acc.get("expiresAt"@) matches Some(JsonV::Int(e)) ==> (i64::MIN <= e <= i64::MAX ==> back->0.get(
                "expiresAt"@,
            ) == Some(JsonV::Int(e)))
            &&& acc.get("auth_raw"@) is None ==> (acc.get("expiresAt"@) matches Some(JsonV::Int(e)) ==> (i64::MIN <= e
                <= i64::MAX ==> back->0.get("refreshExpiresAt"@) == Some(JsonV::Int(e))))
        }),
{
    written_login_is_the_accounts(acc, existing, now);
    login_names();
    session_names();
    root_names();
    imported_names();
    let root = auth_file::login_session(acc, existing, now);
    let auth = root.get("auth"@)->0;
    assert(auth_file::object_or_empty(root.get("auth"@)) == auth);
    assert(root.get("expiresAt"@) is None);
    assert(root.get("refreshExpiresAt"@) is None);
    assert(account::secret(auth, "accessToken"@) == Some(JsonV::Str(token)));
}

proof fn default_keeps(v: JsonV, key: Seq<char>, value: JsonV, other: Seq<char>)
    requires
        v is Obj,
        v.get(other) is Some,
    ensures
        auth_file::with_default(v, key, value) is Obj,
        auth_file::with_default(v, key, value).get(other) == v.get(other),
{
}

proof fn account_keeps(acc: JsonV, o: JsonV, key: Seq<char>)
    requires
        o == auth_file::object_or_empty(acc.get("profile_raw"@)).put("uid"@, auth_file::or_blank(acc.get("uid"@))).put(
            "nickname"@,
            auth_file::or_blank(acc.get("nickname"@)),
        ),
        o.get(key) is Some,
    ensures
        auth_file::account_obj(acc).get(key) == o.get(key),
{
    default_keeps(o, "type"@, JsonV::Str("personal"@), key);
    let o = auth_file::with_default(o, "type"@, JsonV::Str("personal"@));
    default_keeps(o, "accountType"@, JsonV::Str(""@), key);
    let o = auth_file::with_default(o, "accountType"@, JsonV::Str(""@));
    default_keeps(o, "idp"@, JsonV::Str(""@), key);
    let o = auth_file::with_default(o, "idp"@, JsonV::Str(""@));
    default_keeps(o, "oneidAccountId"@, JsonV::Str(""@), key);
    let o = auth_file::with_default(o, "oneidAccountId"@, JsonV::Str(""@));
    default_keeps(o, "areaInfoComplete"@, JsonV::Bool(false), key);
    let o = auth_file::with_default(o, "areaInfoComplete"@, JsonV::Bool(false));
    default_keeps(o, "isCurrentOneIdEnterprise"@, JsonV::Bool(false), key);
    let o = auth_file::with_default(o, "isCurrentOneIdEnterprise"@, JsonV::Bool(false));
    default_keeps(o, "isCurrentOneIdPersonal"@, JsonV::Bool(false), key);
    let o = auth_file::with_default(o, "isCurrentOneIdPersonal"@, JsonV::Bool(false));
    default_keeps(o, "isFirstLogin"@, JsonV::Bool(false), key);
    let o = auth_file::with_default(o, "isFirstLogin"@, JsonV::Bool(false));
    default_keeps(o, "isCreator"@, JsonV::Bool(false), key);
    let o = auth_file::with_default(o, "isCreator"@, JsonV::Bool(false));
    default_keeps(o, "isAdmin"@, JsonV::Bool(false), key);
    let o = auth_file::with_default(o, "isAdmin"@, JsonV::Bool(false));
    default_keeps(o, "uin"@, JsonV::Str(""@), key);
    let o = auth_file::with_default(o, "uin"@, JsonV::Str(""@));
    default_keeps(o, "phoneNumber"@, JsonV::Str(""@), key);
    let o = auth_file::with_default(o, "phoneNumber"@, JsonV::Str(""@));
    default_keeps(o, "lastLogin"@, JsonV::Bool(true), key);
    let o = auth_file::with_default(o, "lastLogin"@, JsonV::Bool(true));
    default_keeps(o, "pluginEnabled"@, JsonV::Bool(true), key);
    let o = auth_file::with_default(o, "pluginEnabled"@, JsonV::Bool(true));
    default_keeps(o, "deployStatus"@, auth_file::blank_deployment(), key);
    let o = auth_file::with_default(o, "deployStatus"@, auth_file::blank_deployment());
    default_keeps(o, "sso"@, auth_file::blank_sso(), key);
}

/// The account that a switch writes bears the uid and the nickname of the account, and
/// what else its profile says; the login file names it as the one logged in and lists it.
pub proof fn written_account_is_the_accounts(acc: JsonV, existing: JsonV, now: int, key: Seq<char>)
    ensures
        ({
            let root = auth_file::login_session(acc, existing, now);
            let o = root.get("account"@)->0;
            &&& root.get("account"@) is Some
            &&& acc.get("uid"@) matches Some(u) ==> o.get("uid"@) == Some(u)
            &&& acc.get("nickname"@) matches Some(n) ==> o.get("nickname"@) == Some(n)
            &&& acc.get("uid"@) is None ==> o.get("uid"@) == Some(JsonV::Str(""@))
            &&& acc.get("profile_raw"@) matches Some(JsonV::Obj(m)) ==> (key != "uid"@ && key != "nickname"@
                && m.contains_key(key) ==> o.get(key) == Some(m[key]))
            &&& root.get("accounts"@) == root.get("allAccounts"@)
            &&& root.get("accounts"@) matches Some(JsonV::Arr(l)) && l.len() > 0 && l[l.len() - 1] == o
        }),
{
    session_names();
    reveal_strlit("uid");
    reveal_strlit("nickname");
    let o = auth_file::object_or_empty(acc.get("profile_raw"@)).put("uid"@, auth_file::or_blank(acc.get("uid"@))).put(
        "nickname"@,
        auth_file::or_blank(acc.get("nickname"@)),
    );
    account_keeps(acc, o, "uid"@);
    account_keeps(acc, o, "nickname"@);
    if o.get(key) is Some {
        account_keeps(acc, o, key);
    }
}

proof fn not_named_keeps(list: Seq<JsonV>, name: Seq<char>, i: int)
    requires
        0 <= i < list.len(),
        auth_file::primary(list[i]) != name,
    ensures
        auth_file::not_named(list, name).contains(list[i]),
    decreases list.len(),
{
    let front = list.subrange(0, list.len() - 1);
    let rest = auth_file::not_named(front, name);
    let all = auth_file::not_named(list, name);
    if i < list.len() - 1 {
        assert(front[i] == list[i]);
        not_named_keeps(front, name, i);
        let k = choose|k: int| 0 <= k < rest.len() && rest[k] == list[i];
        assert(all[k] == list[i]);
    } else {
        assert(all[rest.len() as int] == list[i]);
    }
}

/// A switch drops no other account from the login file: whoever was listed under
/// another uid is listed still.
pub proof fn switching_keeps_the_others(acc: JsonV, existing: JsonV, now: int, list: Seq<JsonV>, i: int, uid: Seq<char>)
    requires
        existing.get("allAccounts"@) == Some(JsonV::Arr(list)) || (existing.get("allAccounts"@) is None && existing.get(
            "accounts"@,
        ) == Some(JsonV::Arr(list))),
        0 <= i < list.len(),
        list[i].get("uid"@) == Some(JsonV::Str(uid)),
        uid.len() > 0,
        acc.get("uid"@) != Some(JsonV::Str(uid)),
        acc.get("uid"@) matches Some(JsonV::Str(own)) ==> text::trim(own) == own,
    ensures
        auth_file::login_session(acc, existing, now).get("accounts"@) matches Some(JsonV::Arr(l)) && l.contains(list[i]),
{
    session_names();
    let name = account::or_empty(account::str_of(acc, "uid"@));
    assert(auth_file::listed(existing) == list);
    assert(auth_file::primary(list[i]) == uid);
    not_named_keeps(list, name, i);
    let rest = auth_file::not_named(list, name);
    let k = choose|k: int| 0 <= k < rest.len() && rest[k] == list[i];
    let l = rest.push(auth_file::account_obj(acc));
    assert(l[k] == list[i]);
}

/// How long the refresh token of a written login is good, in whole seconds, goes by the login
/// that the account was collected with; where that does not say, by the access token.
pub proof fn written_login_says_how_long_the_refresh_token_lasts(acc: JsonV, existing: JsonV, now: int, e: int, n: int)
    requires
        acc.get("expiresAt"@) == Some(JsonV::Int(e)),
        i64::MIN <= e <= i64::MAX && i64::MIN <= n <= i64::MAX,
    ensures
        ({
            let auth = auth_file::login_session(acc, existing, now).get("auth"@)->0;
            &&& acc.get("auth_raw"@) is None ==> auth.get("refreshExpiresIn"@) == auth.get("expiresIn"@)
            &&& acc.get("auth_raw"@) matches Some(raw) ==> (raw.get("refreshExpiresAt"@) == Some(JsonV::Int(n)) ==> (
            auth.get("refreshExpiresIn"@) matches Some(JsonV::Int(s)) && (n > now ==> s * 1000 <= n - now < s * 1000
                + 1000) && (n <= now ==> s == 0)))
        }),
{
    login_names();
    session_names();
}

/// A login that says nothing of its end is written without one.
pub proof fn endless_logins_are_written_without_end(acc: JsonV, existing: JsonV, now: int, x: JsonV)
    requires
        acc.get("expiresAt"@) is None,
    ensures
        ({
            let auth = auth_file::login_session(acc, existing, now).get("auth"@)->0;
            &&& acc.get("auth_raw"@) is None ==> auth.get("expiresAt"@) is None && auth.get("refreshExpiresAt"@) is None
                && auth.get("expiresIn"@) == Some(JsonV::Int(0)) && auth.get("refreshExpiresIn"@) == Some(JsonV::Int(0))
            &&& acc.get("auth_raw"@) matches Some(JsonV::Obj(m)) ==> (!(JsonV::Obj(m).get("auth"@) matches Some(
                JsonV::Obj(_),
            )) && JsonV::Obj(m).get("expiresAt"@) == Some(x) ==> auth.get("expiresAt"@) == Some(x))
        }),
{
    login_names();
    session_names();
}

/// An import reads who is logged in from the file itself, and from its account where the
/// file does not say: the uid, the nickname, the email, and the enterprise.
pub proof fn imports_read_who_is_logged_in(
    root: JsonV,
    inner: Map<Seq<char>, JsonV>,
    variant: WbVariant,
    id: Seq<char>,
    now: int,
    s: Seq<char>,
)
    requires
        root.get("account"@) == Some(JsonV::Obj(inner)),
        text::trim(s) == s && s.len() > 0,
    ensures
        auth_file::imported(root, variant, id, now) matches Some(a) ==> {
            let acc = JsonV::Obj(inner);
            &&& root.get("uid"@) == Some(JsonV::Str(s)) ==> a.get("uid"@) == Some(JsonV::Str(s))
            &&& root.get("uid"@) is None && acc.get("uid"@) == Some(JsonV::Str(s)) ==> a.get("uid"@) == Some(
                JsonV::Str(s),
            )
            &&& root.get("uid"@) is None && acc.get("uid"@) is None && acc.get("id"@) == Some(JsonV::Str(s)) ==> a.get(
                "uid"@,
            ) == Some(JsonV::Str(s))
            &&& root.get("nickname"@) == Some(JsonV::Str(s)) ==> a.get("nickname"@) == Some(JsonV::Str(s))
            &&& root.get("nickname"@) is None && root.get("name"@) == Some(JsonV::Str(s)) ==> a.get("nickname"@) == Some(
                JsonV::Str(s),
            )
            &&& root.get("nickname"@) is None && root.get("name"@) is None && acc.get("nickname"@) == Some(
                JsonV::Str(s),
            ) ==> a.get("nickname"@) == Some(JsonV::Str(s))
            &&& root.get("email"@) == Some(JsonV::Str(s)) ==> a.get("email"@) == Some(JsonV::Str(s))
            &&& root.get("email"@) is None && acc.get("email"@) == Some(JsonV::Str(s)) ==> a.get("email"@) == Some(
                JsonV::Str(s),
            )
            &&& root.get("enterpriseName"@) == Some(JsonV::Str(s)) ==> a.get("enterpriseName"@) == Some(JsonV::Str(s))
            &&& root.get("enterpriseName"@) is None && root.get("enterprise_name"@) is None && acc.get(
                "enterpriseName"@,
            ) == Some(JsonV::Str(s)) ==> a.get("enterpriseName"@) == Some(JsonV::Str(s))
            &&& root.get("enterpriseId"@) == Some(JsonV::Str(s)) ==> a.get("enterpriseId"@) == Some(JsonV::Str(s))
            &&& root.get("enterpriseId"@) is None && root.get("enterprise_id"@) is None && acc.get("enterpriseId"@)
                == Some(JsonV::Str(s)) ==> a.get("enterpriseId"@) == Some(JsonV::Str(s))
            &&& a.get("auth_raw"@) == Some(root)
            &&& a.get("profile_raw"@) == Some(acc)
        },
{
    imported_names();
}

/// An import reads the login: the tokens from its login before the file itself, and when they
/// end and the domain from the file itself before its login.
pub proof fn imports_read_the_login(
    root: JsonV,
    inner: Map<Seq<char>, JsonV>,
    variant: WbVariant,
    id: Seq<char>,
    now: int,
    s: Seq<char>,
    t: int,
)
    requires
        root.get("auth"@) == Some(JsonV::Obj(inner)),
        text::trim(s) == s && s.len() > 0,
        i64::MIN <= t <= i64::MAX,
    ensures
        ({
            let auth = JsonV::Obj(inner);
            &&& auth.get("accessToken"@) == Some(JsonV::Str(s)) ==> (auth_file::imported(root, variant, id, now) matches Some(
                a,
            ) && a.get("access_token"@) == Some(JsonV::Str(s)))
            &&& auth.get("accessToken"@) is None && auth.get("access_token"@) == Some(JsonV::Str(s)) ==> (
            auth_file::imported(root, variant, id, now) matches Some(a) && a.get("access_token"@) == Some(JsonV::Str(s)))
            &&& auth.get("accessToken"@) is None && auth.get("access_token"@) is None && root.get("accessToken"@) == Some(
                JsonV::Str(s),
            ) ==> (auth_file::imported(root, variant, id, now) matches Some(a) && a.get("access_token"@) == Some(
                JsonV::Str(s),
            ))
            &&& auth.get("accessToken"@) is None && auth.get("access_token"@) is None && root.get("accessToken"@) is None
                && root.get("access_token"@) is None ==> auth_file::imported(root, variant, id, now) is None
        }),
        auth_file::imported(root, variant, id, now) matches Some(a) ==> {
            let auth = JsonV::Obj(inner);
            &&& auth.get("refreshToken"@) == Some(JsonV::Str(s)) ==> a.get("refresh_token"@) == Some(JsonV::Str(s))
            &&& auth.get("tokenType"@) == Some(JsonV::Str(s)) ==> a.get("token_type"@) == Some(JsonV::Str(s))
            &&& auth.get("tokenType"@) is None && auth.get("token_type"@) is None ==> a.get("token_type"@) == Some(
                JsonV::Str("Bearer"@),
            )
            &&& root.get("domain"@) == Some(JsonV::Str(s)) ==> a.get("domain"@) == Some(JsonV::Str(s))
            &&& root.get("domain"@) is None && auth.get("domain"@) == Some(JsonV::Str(s)) ==> a.get("domain"@) == Some(
                JsonV::Str(s),
            )
            &&& root.get("expiresAt"@) == Some(JsonV::Int(t)) ==> a.get("expiresAt"@) == Some(JsonV::Int(t))
            &&& root.get("expiresAt"@) is None && auth.get("expiresAt"@) == Some(JsonV::Int(t)) ==> a.get("expiresAt"@)
                == Some(JsonV::Int(t))
            &&& root.get("refreshExpiresAt"@) == Some(JsonV::Int(t)) ==> a.get("refreshExpiresAt"@) == Some(
                JsonV::Int(t),
            )
            &&& root.get("refreshExpiresAt"@) is None && auth.get("refreshExpiresAt"@) == Some(JsonV::Int(t)) ==> a.get(
                "refreshExpiresAt"@,
            ) == Some(JsonV::Int(t))
        },
{
    imported_names();
}

/// A file that was written is taken as written where it spells the access token that was to
/// be written.
pub proof fn written_files_hold_the_token(content: Seq<char>, written: JsonV, expected: JsonV, a: JsonV, b: JsonV, s: Seq<char>, t: Seq<char>)
    requires
        json::json_of_text(content) == Ok::<JsonV, Seq<char>>(written),
        written.get("auth"@) == Some(a) && a.get("accessToken"@) == Some(JsonV::Str(s)),
        expected.get("auth"@) == Some(b) && b.get("accessToken"@) == Some(JsonV::Str(t)),
    ensures
        (auth_file::read_back_error(content, expected) is None) == (s == t),
{
}

/// A renewal that the service refused is told with its code and its words.
pub proof fn refusals_are_told_with_their_words(acc: JsonV, resp: JsonV, code: int, said: Seq<char>, token: Seq<char>, now: int)
    requires
        acc is Obj,
        acc.get("refresh_token"@) == Some(JsonV::Str(token)),
        token.len() > 0,
        resp.get("code"@) == Some(JsonV::Int(code)),
        i64::MIN <= code <= i64::MAX && code != 0 && code != 200,
    ensures
        resp.get("message"@) == Some(JsonV::Str(said)) ==> refresh::refreshed(acc, resp, now).get("needs_relogin_reason"@)
            == Some(JsonV::Str("刷新失败(code="@ + text::int_text(code) + "): "@ + said)),
        resp.get("message"@) is None && resp.get("msg"@) == Some(JsonV::Str(said)) ==> refresh::refreshed(
            acc,
            resp,
            now,
        ).get("needs_relogin_reason"@) == Some(
            JsonV::Str("刷新失败(code="@ + text::int_text(code) + "): "@ + said),
        ),
{
    account_names();
}

} // verus!
