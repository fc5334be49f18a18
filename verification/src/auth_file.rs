//! The client's login file: what is written into it for an account, and the
//! account that is read out of it.
use vstd::prelude::*;
use crate::account;
use crate::ids;
use crate::json;
use crate::json::{Json, JsonV};
use crate::paths;
use crate::text;
use crate::variant::WbVariant;

verus! {

/// The directory of the login files, in the directory that the system keeps for
/// programs' data.
pub const AUTH_DIR: &'static str = "CodeBuddyExtension/Data/Public/auth";

/// The login file of an edition.
pub open spec fn login_file(variant: WbVariant, data_dir: Seq<char>) -> Seq<char> {
    paths::joined(
        paths::joined(data_dir, AUTH_DIR@),
        match variant {
            WbVariant::Cn => "workbuddy-desktop.info"@,
            WbVariant::Ai => "workbuddy-desktop-ai.info"@,
        },
    )
}

/// The login file of an edition, in the directory that the system keeps for programs'
/// data.
pub fn auth_file_path(variant: WbVariant, data_dir: &str) -> (r: String)
    ensures
        r@ == login_file(variant, data_dir@),
{
    paths::join(paths::join(data_dir, AUTH_DIR).as_str(), variant.auth_file_name())
}

proof fn file_in(dir: Seq<char>, name: Seq<char>)
    requires
        dir.len() > 0,
        dir[dir.len() - 1] != '/',
        forall|i: int| 0 <= i < name.len() ==> name[i] != '/',
    ensures
        paths::joined(dir, name) == dir + "/"@ + name,
        paths::parent(paths::joined(dir, name)) == Some(dir),
        paths::last_part(paths::joined(dir, name)) == name,
{
    reveal_strlit("/");
    let path = paths::joined(dir, name);
    slash_before(path, dir.len() as int);
    assert(path.subrange(0, dir.len() as int) =~= dir);
    assert(path.subrange(dir.len() as int + 1, path.len() as int) =~= name);
}

proof fn slash_before(path: Seq<char>, k: int)
    requires
        0 <= k < path.len(),
        path[k] == '/',
        forall|i: int| k < i < path.len() ==> path[i] != '/',
    ensures
        paths::last_of(path, '/') == k,
    decreases path.len(),
{
    if k < path.len() - 1 {
        slash_before(path.subrange(0, path.len() - 1), k);
    }
}

/// Both editions keep their login files in one directory, that of the shared extension,
/// under names of their own.
pub proof fn login_files_lie_together(data_dir: Seq<char>)
    ensures
        paths::parent(login_file(WbVariant::Cn, data_dir)) == Some(paths::joined(data_dir, AUTH_DIR@)),
        paths::parent(login_file(WbVariant::Ai, data_dir)) == paths::parent(login_file(WbVariant::Cn, data_dir)),
        paths::last_part(login_file(WbVariant::Cn, data_dir)) == "workbuddy-desktop.info"@,
        paths::last_part(login_file(WbVariant::Ai, data_dir)) == "workbuddy-desktop-ai.info"@,
        text::has(login_file(WbVariant::Cn, data_dir), "CodeBuddyExtension"@),
        text::has(login_file(WbVariant::Ai, data_dir), "CodeBuddyExtension"@),
{
    reveal_strlit("/");
    reveal_strlit("CodeBuddyExtension");
    reveal_strlit("CodeBuddyExtension/Data/Public/auth");
    reveal_strlit("workbuddy-desktop.info");
    reveal_strlit("workbuddy-desktop-ai.info");
    let dir = paths::joined(data_dir, AUTH_DIR@);
    assert(dir[dir.len() - 1] == 'h');
    file_in(dir, "workbuddy-desktop.info"@);
    file_in(dir, "workbuddy-desktop-ai.info"@);
    let k = dir.len() - AUTH_DIR@.len();
    let a = login_file(WbVariant::Cn, data_dir);
    let b = login_file(WbVariant::Ai, data_dir);
    let n = "CodeBuddyExtension"@.len() as int;
    assert(a.subrange(k, k + n) =~= "CodeBuddyExtension"@);
    assert(text::occurs(a, "CodeBuddyExtension"@, k));
    assert(b.subrange(k, k + n) =~= "CodeBuddyExtension"@);
    assert(text::occurs(b, "CodeBuddyExtension"@, k));
}

/// Where the client's program lies: where it was found, else where it usually is.
pub fn workbuddy_app_path(found: Option<&str>, usual: &str) -> (r: String)
    ensures
        r@ == (match found {
            Some(p) => p@,
            None => usual@,
        }),
{
    match found {
        Some(p) => p.to_owned(),
        None => usual.to_owned(),
    }
}

/// The object with a member, unless it has one of that name.
pub open spec fn with_default(v: JsonV, key: Seq<char>, value: JsonV) -> JsonV {
    if v.get(key) is Some {
        v
    } else {
        v.put(key, value)
    }
}

fn setdefault(v: Json, key: &str, value: Json) -> (r: Json)
    requires
        v@ is Obj,
    ensures
        r@ == with_default(v@, key@, value@),
        r@ is Obj,
{
    if v.get(key).is_some() {
        v
    } else {
        v.put(key, value)
    }
}

/// A member, or the empty string.
pub open spec fn or_blank(v: Option<JsonV>) -> JsonV {
    match v {
        Some(x) => x,
        None => JsonV::Str(""@),
    }
}

/// The object that a member is, or the empty one.
pub open spec fn object_or_empty(v: Option<JsonV>) -> JsonV {
    match v {
        Some(JsonV::Obj(m)) => JsonV::Obj(m),
        _ => JsonV::empty(),
    }
}

fn object_of(v: Option<&Json>) -> (r: Json)
    ensures
        r@ == object_or_empty(json::opt_view(v)),
        r@ is Obj,
{
    match v {
        Some(j) => {
            if j.is_obj() {
                j.clone()
            } else {
                Json::object()
            }
        },
        None => Json::object(),
    }
}

/// What the login file says of a deployment that nothing is known of.
pub open spec fn blank_deployment() -> JsonV {
    JsonV::empty().put("statusCode"@, JsonV::Int(0)).put("statusMsg"@, JsonV::Str(""@)).put(
        "detailMsg"@,
        JsonV::Str(""@),
    )
}

/// What the login file says of a single sign-on that nothing is known of.
pub open spec fn blank_sso() -> JsonV {
    JsonV::empty().put("domain"@, JsonV::Str(""@)).put("domainModifiedTimes"@, JsonV::Int(0))
}

/// The account as the login file holds it: the profile it was collected with,
/// its uid and nickname, and defaults for what is missing.
pub open spec fn account_obj(acc: JsonV) -> JsonV {
    let o = object_or_empty(acc.get("profile_raw"@));
    let o = o.put("uid"@, or_blank(acc.get("uid"@))).put("nickname"@, or_blank(acc.get("nickname"@)));
    let o = with_default(o, "type"@, JsonV::Str("personal"@));
    let o = with_default(o, "accountType"@, JsonV::Str(""@));
    let o = with_default(o, "idp"@, JsonV::Str(""@));
    let o = with_default(o, "oneidAccountId"@, JsonV::Str(""@));
    let o = with_default(o, "areaInfoComplete"@, JsonV::Bool(false));
    let o = with_default(o, "isCurrentOneIdEnterprise"@, JsonV::Bool(false));
    let o = with_default(o, "isCurrentOneIdPersonal"@, JsonV::Bool(false));
    let o = with_default(o, "isFirstLogin"@, JsonV::Bool(false));
    let o = with_default(o, "isCreator"@, JsonV::Bool(false));
    let o = with_default(o, "isAdmin"@, JsonV::Bool(false));
    let o = with_default(o, "uin"@, JsonV::Str(""@));
    let o = with_default(o, "phoneNumber"@, JsonV::Str(""@));
    let o = with_default(o, "lastLogin"@, JsonV::Bool(true));
    let o = with_default(o, "pluginEnabled"@, JsonV::Bool(true));
    let o = with_default(o, "deployStatus"@, blank_deployment());
    with_default(o, "sso"@, blank_sso())
}

fn member_or_blank(acc: &Json, key: &str) -> (r: Json)
    ensures
        r@ == or_blank(acc@.get(key@)),
{
    match acc.get(key) {
        Some(v) => v.clone(),
        None => Json::text(""),
    }
}

/// The account as the login file holds it.
pub fn build_account_obj(acc: &Json) -> (r: Json)
    ensures
        r@ == account_obj(acc@),
{
    let o: Json = object_of(acc.get("profile_raw"));
    let o: Json = o.put("uid", member_or_blank(acc, "uid")).put("nickname", member_or_blank(acc, "nickname"));
    let o: Json = setdefault(o, "type", Json::text("personal"));
    let o: Json = setdefault(o, "accountType", Json::text(""));
    let o: Json = setdefault(o, "idp", Json::text(""));
    let o: Json = setdefault(o, "oneidAccountId", Json::text(""));
    let o: Json = setdefault(o, "areaInfoComplete", Json::Bool(false));
    let o: Json = setdefault(o, "isCurrentOneIdEnterprise", Json::Bool(false));
    let o: Json = setdefault(o, "isCurrentOneIdPersonal", Json::Bool(false));
    let o: Json = setdefault(o, "isFirstLogin", Json::Bool(false));
    let o: Json = setdefault(o, "isCreator", Json::Bool(false));
    let o: Json = setdefault(o, "isAdmin", Json::Bool(false));
    let o: Json = setdefault(o, "uin", Json::text(""));
    let o: Json = setdefault(o, "phoneNumber", Json::text(""));
    let o: Json = setdefault(o, "lastLogin", Json::Bool(true));
    let o: Json = setdefault(o, "pluginEnabled", Json::Bool(true));
    let deployment: Json = Json::object().put("statusCode", Json::num(0)).put("statusMsg", Json::text("")).put(
        "detailMsg",
        Json::text(""),
    );
    let o: Json = setdefault(o, "deployStatus", deployment);
    let sso: Json = Json::object().put("domain", Json::text("")).put("domainModifiedTimes", Json::num(0));
    setdefault(o, "sso", sso)
}

/// The whole seconds from `now` until `t`, and 0 once it is past.
pub open spec fn seconds_until(t: int, now: int) -> int {
    if t > now {
        (t - now) / 1000
    } else {
        0
    }
}

fn seconds_left(t: i64, now: i64) -> (r: Json)
    ensures
        r@ == JsonV::Int(seconds_until(t as int, now as int)),
{
    if t > now {
        Json::Int((t as i128 - now as i128) / 1000)
    } else {
        Json::num(0)
    }
}

/// The login data that an account was collected with: those inside `auth`
/// where there is such an object.
pub open spec fn raw_login(acc: JsonV) -> JsonV {
    match acc.get("auth_raw"@) {
        Some(JsonV::Obj(m)) => match JsonV::Obj(m).get("auth"@) {
            Some(JsonV::Obj(inner)) => JsonV::Obj(inner),
            _ => JsonV::Obj(m),
        },
        _ => JsonV::empty(),
    }
}

/// The member of a member.
pub open spec fn get2(v: JsonV, a: Seq<char>, b: Seq<char>) -> Option<JsonV> {
    match v.get(a) {
        Some(x) => x.get(b),
        None => None,
    }
}

/// The login as the login file holds it: the data it was collected with, and
/// over them the account's tokens (an envelope as it stands), kind, domain and
/// expiry times.
pub open spec fn auth_obj(acc: JsonV, now: int) -> JsonV {
    let o = raw_login(acc);
    let o = o.put("accessToken"@, or_blank(account::secret(acc, "access_token"@))).put(
        "refreshToken"@,
        or_blank(account::secret(acc, "refresh_token"@)),
    ).put("tokenType"@, JsonV::Str(match acc.get_str("token_type"@) {
        Some(s) => s,
        None => "Bearer"@,
    })).put("domain"@, JsonV::Str(account::or_empty(account::str_of(acc, "domain"@)))).put(
        "lastRefreshTime"@,
        JsonV::Int(now),
    );
    let o = with_default(o, "scope"@, JsonV::Str("openid profile offline_access email"@));
    let o = match acc.get_i64("expiresAt"@) {
        Some(e) => {
            let raw = match get2(acc, "auth_raw"@, "refreshExpiresAt"@) {
                Some(v) => v.as_i64(),
                None => None,
            };
            let refresh = match raw {
                Some(n) => n,
                None => e,
            };
            let o = o.put("expiresAt"@, JsonV::Int(e)).put("expiresIn"@, JsonV::Int(seconds_until(e, now)));
            with_default(o, "refreshExpiresAt"@, JsonV::Int(refresh)).put(
                "refreshExpiresIn"@,
                JsonV::Int(seconds_until(refresh, now)),
            )
        },
        None => with_default(
            with_default(o, "expiresIn"@, JsonV::Int(0)),
            "refreshExpiresIn"@,
            JsonV::Int(0),
        ),
    };
    let o = with_default(o, "notBeforePolicy"@, JsonV::Int(0));
    with_default(o, "sessionState"@, JsonV::Str(""@))
}

fn secret_or_blank(acc: &Json, key: &str) -> (r: Json)
    ensures
        r@ == or_blank(account::secret(acc@, key@)),
{
    match account::secret_value(acc, key) {
        Some(v) => v,
        None => Json::text(""),
    }
}

fn raw_login_of(acc: &Json) -> (r: Json)
    ensures
        r@ == raw_login(acc@),
        r@ is Obj,
{
    match acc.get("auth_raw") {
        Some(raw) => {
            if !raw.is_obj() {
                return Json::object();
            }
            match raw.get("auth") {
                Some(inner) => {
                    if inner.is_obj() {
                        inner.clone()
                    } else {
                        raw.clone()
                    }
                },
                None => raw.clone(),
            }
        },
        None => Json::object(),
    }
}

/// The login as the login file holds it.
pub fn build_auth_obj(acc: &Json, now: i64) -> (r: Json)
    ensures
        r@ == auth_obj(acc@, now as int),
{
    let o: Json = raw_login_of(acc);
    let token_type: Json = match acc.get_str("token_type") {
        Some(s) => Json::text(s),
        None => Json::text("Bearer"),
    };
    let domain: String = match account::get_str(acc, "domain") {
        Some(d) => d,
        None => String::new(),
    };
    let o: Json = o.put("accessToken", secret_or_blank(acc, "access_token")).put(
        "refreshToken",
        secret_or_blank(acc, "refresh_token"),
    ).put("tokenType", token_type).put("domain", Json::Str(domain)).put("lastRefreshTime", Json::num(now));
    let o: Json = setdefault(o, "scope", Json::text("openid profile offline_access email"));
    let o: Json = match acc.get_i64("expiresAt") {
        Some(e) => {
            let raw: Option<i64> = match acc.get("auth_raw") {
                Some(v) => v.get_i64("refreshExpiresAt"),
                None => None,
            };
            let refresh: i64 = match raw {
                Some(n) => n,
                None => e,
            };
            let o: Json = o.put("expiresAt", Json::num(e)).put("expiresIn", seconds_left(e, now));
            setdefault(o, "refreshExpiresAt", Json::num(refresh)).put("refreshExpiresIn", seconds_left(refresh, now))
        },
        None => setdefault(setdefault(o, "expiresIn", Json::num(0)), "refreshExpiresIn", Json::num(0)),
    };
    let o: Json = setdefault(o, "notBeforePolicy", Json::num(0));
    setdefault(o, "sessionState", Json::text(""))
}

/// The accounts that the login file lists: those under `allAccounts`, else those
/// under `accounts`; what is no array lists none.
pub open spec fn listed(existing: JsonV) -> Seq<JsonV> {
    let list = match existing.get("allAccounts"@) {
        Some(v) => Some(v),
        None => existing.get("accounts"@),
    };
    match list {
        Some(JsonV::Arr(s)) => s,
        _ => Seq::empty(),
    }
}

/// The name by which the login file tells accounts apart: uid, else id.
pub open spec fn primary(a: JsonV) -> Seq<char> {
    match a.get_str("uid"@) {
        Some(u) => if u.len() > 0 {
            u
        } else {
            primary_id(a)
        },
        None => primary_id(a),
    }
}

/// The id, or nothing.
pub open spec fn primary_id(a: JsonV) -> Seq<char> {
    match a.get_str("id"@) {
        Some(s) => s,
        None => ""@,
    }
}

/// The accounts whose name is not the given one.
pub open spec fn not_named(list: Seq<JsonV>, name: Seq<char>) -> Seq<JsonV>
    decreases list.len(),
{
    if list.len() == 0 {
        Seq::empty()
    } else {
        let rest = not_named(list.subrange(0, list.len() - 1), name);
        if primary(list[list.len() - 1]) == name {
            rest
        } else {
            rest.push(list[list.len() - 1])
        }
    }
}

fn primary_is(a: &Json, name: &str) -> (b: bool)
    ensures
        b == (primary(a@) == name@),
{
    let id: &str = match a.get_str("id") {
        Some(s) => s,
        None => "",
    };
    match a.get_str("uid") {
        Some(u) => {
            if u.is_empty() {
                text::same(id, name)
            } else {
                text::same(u, name)
            }
        },
        None => text::same(id, name),
    }
}

/// The login file for an account: the account is logged in, and is listed with
/// the others in place of what was listed under its uid.
pub open spec fn login_session(acc: JsonV, existing: JsonV, now: int) -> JsonV {
    let all = not_named(listed(existing), account::or_empty(account::str_of(acc, "uid"@))).push(account_obj(acc));
    JsonV::empty().put("account"@, account_obj(acc)).put("auth"@, auth_obj(acc, now)).put(
        "accounts"@,
        JsonV::Arr(all),
    ).put("allAccounts"@, JsonV::Arr(all))
}

fn listed_accounts(existing: &Json) -> (r: Vec<Json>)
    ensures
        json::list_view(r@) == listed(existing@),
{
    let list: Option<&Json> = match existing.get("allAccounts") {
        Some(v) => Some(v),
        None => existing.get("accounts"),
    };
    let none: Vec<Json> = Vec::new();
    assert(json::list_view(none@) =~= Seq::empty());
    match list {
        Some(v) => match v.as_arr() {
            Some(a) => json::clone_slice(a.as_slice()),
            None => none,
        },
        None => none,
    }
}

/// The login file that switches the client to an account. `existing` is the
/// file as it is, or an empty object.
pub fn write_account_to_auth_file(acc: &Json, existing: &Json, now: i64) -> (r: Json)
    ensures
        r@ == login_session(acc@, existing@, now as int),
{
    let list: Vec<Json> = listed_accounts(existing);
    let ghost all = json::list_view(list@);
    let uid: String = match account::get_str(acc, "uid") {
        Some(u) => u,
        None => String::new(),
    };
    let mut kept: Vec<Json> = Vec::new();
    let mut i: usize = 0;
    assert(json::list_view(kept@) =~= not_named(all.subrange(0, 0), uid@));
    while i < list.len()
        invariant
            i <= list@.len(),
            all == json::list_view(list@),
            json::list_view(kept@) == not_named(all.subrange(0, i as int), uid@),
        decreases list@.len() - i,
    {
        assert(all.subrange(0, i + 1).subrange(0, i as int) =~= all.subrange(0, i as int));
        if !primary_is(&list[i], uid.as_str()) {
            let ghost held = kept@;
            kept.push(list[i].clone());
            assert(json::list_view(kept@) =~= json::list_view(held).push(all[i as int]));
        }
        i += 1;
    }
    assert(all.subrange(0, all.len() as int) =~= all);
    let ghost held = kept@;
    let account: Json = build_account_obj(acc);
    kept.push(account.clone());
    assert(json::list_view(kept@) =~= json::list_view(held).push(account@));
    let copy: Vec<Json> = json::clone_slice(kept.as_slice());
    Json::object().put("account", account).put("auth", build_auth_obj(acc, now)).put("accounts", Json::Arr(kept)).put(
        "allAccounts",
        Json::Arr(copy),
    )
}

/// After a switch the login file lists the account, and lists it last; no other
/// listed account bears its uid.
pub proof fn switching_lists_once(acc: JsonV, existing: JsonV, now: int, i: int)
    requires
        0 <= i < listed(login_session(acc, existing, now)).len() - 1,
    ensures
        listed(login_session(acc, existing, now)).last() == account_obj(acc),
        primary(listed(login_session(acc, existing, now))[i]) != account::or_empty(account::str_of(acc, "uid"@)),
{
    reveal_strlit("account");
    reveal_strlit("auth");
    reveal_strlit("accounts");
    reveal_strlit("allAccounts");
    assert("account"@.len() == 7 && "auth"@.len() == 4 && "accounts"@.len() == 8 && "allAccounts"@.len() == 11);
    not_named_differ(listed(existing), account::or_empty(account::str_of(acc, "uid"@)));
}

proof fn not_named_differ(list: Seq<JsonV>, name: Seq<char>)
    ensures
        forall|i: int| 0 <= i < not_named(list, name).len() ==> primary(#[trigger] not_named(list, name)[i]) != name,
    decreases list.len(),
{
    if list.len() > 0 {
        let t = list.subrange(0, list.len() - 1);
        not_named_differ(t, name);
        let rest = not_named(t, name);
        let all = not_named(list, name);
        assert forall|i: int| 0 <= i < all.len() implies primary(#[trigger] all[i]) != name by {
            if i < rest.len() {
                assert(all[i] == rest[i]);
            }
        }
    }
}

/// Whether the login file, read back, holds the token that was to be written.
pub fn login_was_written(written: &Json, expected: &Json) -> (b: bool)
    ensures
        b == (json::value_or_null(get2(written@, "auth"@, "accessToken"@)) == json::value_or_null(
            get2(expected@, "auth"@, "accessToken"@),
        )),
{
    let a: Json = token_of(written);
    let b: Json = token_of(expected);
    a.same_value(&b)
}

/// What the text of a login file spells; nothing where there is none or it is no JSON.
pub open spec fn login_in(content: Option<Seq<char>>) -> Option<JsonV> {
    match content {
        Some(t) => match json::json_of_text(t) {
            Ok(v) => Some(v),
            Err(_) => None,
        },
        None => None,
    }
}

/// What the text of a login file spells.
pub fn read_auth_file(content: Option<&str>) -> (r: Option<Json>)
    ensures
        account::opt_json(r) == login_in(json::opt_text(content)),
{
    match content {
        Some(t) => match json::from_text(t) {
            Ok(v) => Some(v),
            Err(_) => None,
        },
        None => None,
    }
}

/// The login file as it is before a switch: an empty object where nothing is read.
pub open spec fn existing_in(content: Option<Seq<char>>) -> JsonV {
    match login_in(content) {
        Some(v) => v,
        None => JsonV::empty(),
    }
}

/// The login file as it is before a switch. `content` is its text, if there is one.
pub fn existing_login(content: Option<&str>) -> (r: Json)
    ensures
        r@ == existing_in(json::opt_text(content)),
{
    match read_auth_file(content) {
        Some(v) => v,
        None => Json::object(),
    }
}

/// What is said where the login file could not be written.
pub fn write_failure(denied: bool, reason: &str) -> (r: String)
    ensures
        r@ == (if denied {
            "无权限写入认证文件：请打开 系统设置→隐私与安全性→App 管理，允许本 App 控制 WorkBuddy 的数据（或为其开启『完全磁盘访问』后重试）"@
        } else {
            reason@
        }),
{
    if denied {
        "无权限写入认证文件：请打开 系统设置→隐私与安全性→App 管理，允许本 App 控制 WorkBuddy 的数据（或为其开启『完全磁盘访问』后重试）".to_owned()
    } else {
        reason.to_owned()
    }
}

/// Why what was read back after a switch is not what was to be written; none where it is.
pub open spec fn read_back_error(content: Seq<char>, expected: JsonV) -> Option<Seq<char>> {
    match json::json_of_text(content) {
        Ok(written) => if json::value_or_null(get2(written, "auth"@, "accessToken"@)) == json::value_or_null(
            get2(expected, "auth"@, "accessToken"@),
        ) {
            None
        } else {
            Some("认证文件写后校验失败，未写入目标账号"@)
        },
        Err(e) => Some(e),
    }
}

/// Holds the text of the login file, read back after a switch, against what was to be
/// written: its token has to be that of the account.
pub fn check_written_login(content: &str, expected: &Json) -> (r: Result<(), String>)
    ensures
        match r {
            Ok(_) => read_back_error(content@, expected@) is None,
            Err(e) => read_back_error(content@, expected@) == Some(e@),
        },
{
    match json::from_text(content) {
        Ok(written) => {
            if login_was_written(&written, expected) {
                Ok(())
            } else {
                Err("认证文件写后校验失败，未写入目标账号".to_owned())
            }
        },
        Err(e) => Err(e),
    }
}

/// A switch whose file reads as what was written passes the check that follows it.
pub proof fn faithful_write_is_accepted(content: Seq<char>, acc: JsonV, existing: JsonV, now: int)
    requires
        json::json_of_text(content) == Ok::<JsonV, Seq<char>>(login_session(acc, existing, now)),
    ensures
        read_back_error(content, login_session(acc, existing, now)) is None,
{
}

fn token_of(session: &Json) -> (r: Json)
    ensures
        r@ == json::value_or_null(get2(session@, "auth"@, "accessToken"@)),
{
    match session.get("auth") {
        Some(a) => Json::or_null(a.get("accessToken")),
        None => Json::Null,
    }
}

/// The first of two optional values that is there.
pub open spec fn or_value(a: Option<JsonV>, b: Option<JsonV>) -> Option<JsonV> {
    match a {
        Some(x) => Some(x),
        None => b,
    }
}

/// A text under one of several names in two objects.
pub open spec fn text_in(a: JsonV, k: Seq<char>, b: JsonV, l: Seq<char>) -> Option<Seq<char>> {
    account::first_of(account::str_of(a, k), account::str_of(b, l))
}

/// A secret under one of two names in two objects.
pub open spec fn secret_in(a: JsonV, b: JsonV, k: Seq<char>, l: Seq<char>) -> Option<JsonV> {
    or_value(
        account::secret(a, k),
        or_value(account::secret(a, l), or_value(account::secret(b, k), account::secret(b, l))),
    )
}

/// The account that a login file holds; none where it holds no access token.
pub open spec fn imported(root: JsonV, variant: WbVariant, id: Seq<char>, now: int) -> Option<JsonV> {
    let acc = object_or_empty(root.get("account"@));
    let auth = object_or_empty(root.get("auth"@));
    let nickname = or_value(
        account::secret(root, "nickname"@),
        or_value(
            account::secret(root, "name"@),
            or_value(account::secret(acc, "nickname"@), account::secret(acc, "label"@)),
        ),
    );
    let access = secret_in(auth, root, "accessToken"@, "access_token"@);
    let refresh = secret_in(auth, root, "refreshToken"@, "refresh_token"@);
    let kind = match text_in(auth, "tokenType"@, auth, "token_type"@) {
        Some(s) => s,
        None => "Bearer"@,
    };
    match access {
        None => None,
        Some(token) => Some(
            JsonV::empty().put("id"@, JsonV::Str(id)).put(
                "uid"@,
                json::text_or_null(
                    account::first_of(
                        account::str_of(root, "uid"@),
                        text_in(acc, "uid"@, acc, "id"@),
                    ),
                ),
            ).put("nickname"@, json::value_or_null(nickname)).put(
                "email"@,
                json::text_or_null(
                    account::first_of(account::str_of(root, "email"@), text_in(acc, "email"@, auth, "email"@)),
                ),
            ).put("variant"@, JsonV::Str(variant.name())).put(
                "enterpriseName"@,
                json::text_or_null(
                    account::first_of(
                        text_in(root, "enterpriseName"@, root, "enterprise_name"@),
                        text_in(acc, "enterpriseName"@, acc, "enterprise_name"@),
                    ),
                ),
            ).put(
                "enterpriseId"@,
                json::text_or_null(
                    account::first_of(
                        text_in(root, "enterpriseId"@, root, "enterprise_id"@),
                        text_in(acc, "enterpriseId"@, acc, "enterprise_id"@),
                    ),
                ),
            ).put("access_token"@, token).put("refresh_token"@, json::value_or_null(refresh)).put(
                "token_type"@,
                JsonV::Str(kind),
            ).put("domain"@, json::text_or_null(text_in(root, "domain"@, auth, "domain"@))).put(
                "expiresAt"@,
                json::int_or_null(
                    json::whole_of(or_value(root.get("expiresAt"@), auth.get("expiresAt"@))),
                ),
            ).put(
                "refreshExpiresAt"@,
                json::int_or_null(
                    json::whole_of(or_value(root.get("refreshExpiresAt"@), auth.get("refreshExpiresAt"@))),
                ),
            ).put("auth_raw"@, root).put("profile_raw"@, acc).put("createdAt"@, JsonV::Int(now)),
        ),
    }
}

fn first_text(a: Option<String>, b: Option<String>) -> (r: Option<String>)
    ensures
        json::opt_string(r) == account::first_of(json::opt_string(a), json::opt_string(b)),
{
    match a {
        Some(x) => Some(x),
        None => b,
    }
}

fn first_value(a: Option<Json>, b: Option<Json>) -> (r: Option<Json>)
    ensures
        account::opt_json(r) == or_value(account::opt_json(a), account::opt_json(b)),
{
    match a {
        Some(x) => Some(x),
        None => b,
    }
}

fn find_text(a: &Json, k: &str, b: &Json, l: &str) -> (r: Option<String>)
    ensures
        json::opt_string(r) == text_in(a@, k@, b@, l@),
{
    first_text(account::get_str(a, k), account::get_str(b, l))
}

fn find_secret(a: &Json, b: &Json, k: &str, l: &str) -> (r: Option<Json>)
    ensures
        account::opt_json(r) == secret_in(a@, b@, k@, l@),
{
    first_value(
        account::secret_value(a, k),
        first_value(
            account::secret_value(a, l),
            first_value(account::secret_value(b, k), account::secret_value(b, l)),
        ),
    )
}

fn json_or_null(o: Option<Json>) -> (r: Json)
    ensures
        r@ == json::value_or_null(account::opt_json(o)),
{
    match o {
        Some(v) => v,
        None => Json::Null,
    }
}

fn find_member<'a>(a: &'a Json, b: &'a Json, key: &str) -> (r: Option<&'a Json>)
    ensures
        json::opt_view(r) == or_value(a@.get(key@), b@.get(key@)),
{
    match a.get(key) {
        Some(v) => Some(v),
        None => b.get(key),
    }
}

/// The account that a login file holds, under a new id; none where it holds no
/// access token. Envelopes are kept unopened.
pub fn imported_account_from_root(root: &Json, variant: WbVariant, id: &str, now: i64) -> (r: Option<Json>)
    ensures
        account::opt_json(r) == imported(root@, variant, id@, now as int),
{
    let acc: Json = object_of(root.get("account"));
    let auth: Json = object_of(root.get("auth"));
    let uid: Option<String> = first_text(account::get_str(root, "uid"), find_text(&acc, "uid", &acc, "id"));
    let nickname: Option<Json> = first_value(
        account::secret_value(root, "nickname"),
        first_value(
            account::secret_value(root, "name"),
            first_value(account::secret_value(&acc, "nickname"), account::secret_value(&acc, "label")),
        ),
    );
    let email: Option<String> = first_text(
        account::get_str(root, "email"),
        find_text(&acc, "email", &auth, "email"),
    );
    let access: Option<Json> = find_secret(&auth, root, "accessToken", "access_token");
    let refresh: Option<Json> = find_secret(&auth, root, "refreshToken", "refresh_token");
    let kind: String = match find_text(&auth, "tokenType", &auth, "token_type") {
        Some(s) => s,
        None => "Bearer".to_owned(),
    };
    let enterprise_name: Option<String> = first_text(
        find_text(root, "enterpriseName", root, "enterprise_name"),
        find_text(&acc, "enterpriseName", &acc, "enterprise_name"),
    );
    let enterprise_id: Option<String> = first_text(
        find_text(root, "enterpriseId", root, "enterprise_id"),
        find_text(&acc, "enterpriseId", &acc, "enterprise_id"),
    );
    let domain: Option<String> = find_text(root, "domain", &auth, "domain");
    let expires_at: Option<i64> = json::whole(find_member(root, &auth, "expiresAt"));
    let refresh_expires_at: Option<i64> = json::whole(find_member(root, &auth, "refreshExpiresAt"));
    match access {
        None => None,
        Some(token) => Some(
            Json::object().put("id", Json::text(id)).put("uid", Json::opt_string(uid)).put(
                "nickname",
                json_or_null(nickname),
            ).put("email", Json::opt_string(email)).put("variant", Json::text(variant.as_str())).put(
                "enterpriseName",
                Json::opt_string(enterprise_name),
            ).put("enterpriseId", Json::opt_string(enterprise_id)).put("access_token", token).put(
                "refresh_token",
                json_or_null(refresh),
            ).put("token_type", Json::Str(kind)).put("domain", Json::opt_string(domain)).put(
                "expiresAt",
                Json::opt_int(expires_at),
            ).put("refreshExpiresAt", Json::opt_int(refresh_expires_at)).put("auth_raw", root.clone()).put(
                "profile_raw",
                acc,
            ).put("createdAt", Json::num(now)),
        ),
    }
}

/// The account that a login file holds, under a fresh identifier.
pub fn import_account_from_root(root: &Json, variant: WbVariant, now: i64) -> (r: Option<Json>)
    ensures
        exists|id: Seq<char>| #[trigger]
            ids::grouped_uuid(id) && account::opt_json(r) == imported(root@, variant, id, now as int),
{
    let id: String = ids::new_id();
    assert(ids::grouped_uuid(id@));
    imported_account_from_root(root, variant, id.as_str(), now)
}

/// The account that the text of a login file holds, under an id.
pub open spec fn imported_in(content: Option<Seq<char>>, variant: WbVariant, id: Seq<char>, now: int) -> Option<JsonV> {
    match login_in(content) {
        Some(root) => imported(root, variant, id, now),
        None => None,
    }
}

/// The account that the text of a login file holds, under a fresh identifier.
pub fn import_from_auth_file(content: Option<&str>, variant: WbVariant, now: i64) -> (r: Option<Json>)
    ensures
        exists|id: Seq<char>| #[trigger]
            ids::grouped_uuid(id) && account::opt_json(r) == imported_in(
                json::opt_text(content),
                variant,
                id,
                now as int,
            ),
{
    let id: String = ids::new_id();
    assert(ids::grouped_uuid(id@));
    match read_auth_file(content) {
        Some(root) => imported_account_from_root(&root, variant, id.as_str(), now),
        None => None,
    }
}

/// What a switch writes, an import reads back: the access token comes back as it
/// was, plain or as an envelope.
pub proof fn switch_then_import_keeps_token(
    acc: JsonV,
    existing: JsonV,
    now: int,
    variant: WbVariant,
    id: Seq<char>,
    later: int,
)
    requires
        account::secret(acc, "access_token"@) is Some,
    ensures
        imported(login_session(acc, existing, now), variant, id, later) is Some,
        imported(login_session(acc, existing, now), variant, id, later)->0.get("access_token"@) == account::secret(
            acc,
            "access_token"@,
        ),
{
    token_in_login(acc, now);
    let root = login_session(acc, existing, now);
    let auth = auth_obj(acc, now);
    assert(root.get("auth"@) == Some(auth)) by {
        reveal_strlit("account");
        reveal_strlit("auth");
        reveal_strlit("accounts");
        reveal_strlit("allAccounts");
        assert("account"@.len() == 7 && "auth"@.len() == 4 && "accounts"@.len() == 8 && "allAccounts"@.len() == 11);
    }
    assert(object_or_empty(root.get("auth"@)) == auth);
    let token = account::secret(acc, "access_token"@)->0;
    assert(account::secret(auth, "accessToken"@) == Some(token));
    assert(secret_in(auth, root, "accessToken"@, "access_token"@) == Some(token));
    reveal_strlit("access_token");
    reveal_strlit("refresh_token");
    reveal_strlit("token_type");
    reveal_strlit("domain");
    reveal_strlit("expiresAt");
    reveal_strlit("refreshExpiresAt");
    reveal_strlit("auth_raw");
    reveal_strlit("profile_raw");
    reveal_strlit("createdAt");
    assert("access_token"@.len() == 12 && "refresh_token"@.len() == 13 && "token_type"@.len() == 10);
    assert("domain"@.len() == 6 && "expiresAt"@.len() == 9 && "refreshExpiresAt"@.len() == 16);
    assert("auth_raw"@.len() == 8 && "profile_raw"@.len() == 11 && "createdAt"@.len() == 9);
}

/// The written login holds the account's access token.
proof fn token_in_login(acc: JsonV, now: int)
    requires
        account::secret(acc, "access_token"@) is Some,
    ensures
        auth_obj(acc, now) is Obj,
        auth_obj(acc, now).get("accessToken"@) == account::secret(acc, "access_token"@),
{
    reveal_strlit("accessToken");
    reveal_strlit("refreshToken");
    reveal_strlit("tokenType");
    reveal_strlit("domain");
    reveal_strlit("lastRefreshTime");
    reveal_strlit("scope");
    reveal_strlit("expiresAt");
    reveal_strlit("expiresIn");
    reveal_strlit("refreshExpiresAt");
    reveal_strlit("refreshExpiresIn");
    reveal_strlit("notBeforePolicy");
    reveal_strlit("sessionState");
    assert("accessToken"@.len() == 11 && "refreshToken"@.len() == 12 && "tokenType"@.len() == 9);
    assert("domain"@.len() == 6 && "lastRefreshTime"@.len() == 15 && "scope"@.len() == 5);
    assert("expiresAt"@.len() == 9 && "expiresIn"@.len() == 9 && "refreshExpiresAt"@.len() == 16);
    assert("refreshExpiresIn"@.len() == 16 && "notBeforePolicy"@.len() == 15 && "sessionState"@.len() == 12);
}

} // verus!
