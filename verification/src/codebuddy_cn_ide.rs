//! The account of the CodeBuddy CN editor: the session handed to it, the account
//! found in it, and the editor's files and processes.
use vstd::prelude::*;
use vstd::slice::slice_subrange;
use crate::account;
use crate::account::get_str;
use crate::codebuddy_cli;
use crate::codebuddy_cli::{borrowed, filled_text, System};
use crate::json;
use crate::json::{parse_json, Json, JsonV};
use crate::log_scan;
use crate::log_scan::lossy_text;
use crate::paths;
use crate::text;
use crate::text::same;
use crate::variant;

verus! {

/// The file that remembers the account, in the store.
pub const STATE_FILE: &'static str = "codebuddy_cn_ide.json";

/// The editor's bundle on macOS.
pub const MACOS_APP_NAME: &'static str = "CodeBuddy CN.app";

/// The file that remembers the account.
pub fn state_path(store: &str) -> (r: String)
    ensures
        r@ == paths::joined(store@, STATE_FILE@),
{
    paths::join(store, STATE_FILE)
}

/// What the file remembers; what is no JSON is nothing.
pub open spec fn state_in(content: Option<Seq<char>>) -> JsonV {
    match content {
        Some(t) => match json::json_of_text(t) {
            Ok(value) => value,
            Err(_) => JsonV::empty(),
        },
        None => JsonV::empty(),
    }
}

/// What the file remembers; what is no JSON is nothing.
pub fn load_state(content: Option<&str>) -> (r: Json)
    ensures
        r@ == state_in(json::opt_text(content)),
{
    match content {
        Some(t) => match parse_json(t) {
            Ok(value) => value,
            Err(_) => Json::object(),
        },
        None => Json::object(),
    }
}

/// The state that remembers an account; one that is no object stays as it is.
pub open spec fn remembering(state: JsonV, id: Seq<char>, now: int) -> JsonV {
    if state is Obj {
        state.put("activeAccountId"@, JsonV::Str(id)).put("updatedAt"@, JsonV::Int(now))
    } else {
        state
    }
}

/// The state that remembers an account; one that is no object stays as it is.
pub fn set_active_account_id(state: Json, account_id: &str, now: i64) -> (r: Json)
    ensures
        r@ == remembering(state@, account_id@, now as int),
{
    if state.is_obj() {
        state.put("activeAccountId", Json::text(account_id)).put("updatedAt", Json::num(now))
    } else {
        state
    }
}

/// The account that the state remembers.
pub open spec fn remembered(state: JsonV) -> Option<Seq<char>> {
    codebuddy_cli::filled(state.get_str("activeAccountId"@))
}

/// The account that the state remembers.
pub fn active_account_id_from_state(state: &Json) -> (r: Option<String>)
    ensures
        json::opt_string(r) == remembered(state@),
{
    filled_text(state.get_str("activeAccountId"))
}

/// What was remembered is found again.
pub proof fn remembering_is_read_back(state: JsonV, id: Seq<char>, now: int)
    requires
        state is Obj,
    ensures
        remembered(remembering(state, id, now)) == codebuddy_cli::filled(Some(id)),
{
    reveal_strlit("activeAccountId");
    reveal_strlit("updatedAt");
    assert("activeAccountId"@.len() != "updatedAt"@.len());
}

/// The member of an account under one of two names, or nothing.
pub open spec fn either(acc: JsonV, one: Seq<char>, other: Seq<char>) -> Seq<char> {
    account::or_empty(account::first_of(account::str_of(acc, one), account::str_of(acc, other)))
}

/// The member of an account, or nothing.
pub open spec fn member(acc: JsonV, key: Seq<char>) -> Seq<char> {
    account::or_empty(account::str_of(acc, key))
}

fn member_of(acc: &Json, key: &str) -> (r: String)
    ensures
        r@ == member(acc@, key@),
{
    match get_str(acc, key) {
        Some(s) => s,
        None => {
            let none: String = String::new();
            assert(none@ =~= Seq::empty());
            none
        },
    }
}

fn either_of(acc: &Json, one: &str, other: &str) -> (r: String)
    ensures
        r@ == either(acc@, one@, other@),
{
    match get_str(acc, one) {
        Some(s) => s,
        None => member_of(acc, other),
    }
}

/// When a token ends, 0 where that is not known.
pub open spec fn end_of(acc: JsonV) -> int {
    match acc.get_i64("expiresAt"@) {
        Some(n) => n,
        None => 0,
    }
}

/// How a token is used.
pub open spec fn token_type(acc: JsonV) -> Seq<char> {
    match account::str_of(acc, "token_type"@) {
        Some(t) => t,
        None => "Bearer"@,
    }
}

/// The account part of a session.
pub open spec fn session_account(acc: JsonV) -> JsonV {
    let uid = JsonV::Str(member(acc, "uid"@));
    let nickname = JsonV::Str(member(acc, "nickname"@));
    JsonV::empty().put("id"@, uid).put("uid"@, uid).put("label"@, nickname).put("nickname"@, nickname).put(
        "enterpriseId"@,
        JsonV::Str(either(acc, "enterpriseId"@, "enterprise_id"@)),
    ).put("enterpriseName"@, JsonV::Str(either(acc, "enterpriseName"@, "enterprise_name"@))).put(
        "pluginEnabled"@,
        JsonV::Bool(true),
    ).put("lastLogin"@, JsonV::Bool(true))
}

/// The token part of a session.
pub open spec fn session_auth(acc: JsonV, now: int) -> JsonV {
    JsonV::empty().put("accessToken"@, JsonV::Str(member(acc, "access_token"@))).put(
        "refreshToken"@,
        JsonV::Str(member(acc, "refresh_token"@)),
    ).put("tokenType"@, JsonV::Str(token_type(acc))).put("domain"@, JsonV::Str(member(acc, "domain"@))).put(
        "expiresAt"@,
        JsonV::Int(end_of(acc)),
    ).put("expiresIn"@, JsonV::Int(end_of(acc))).put("refreshExpiresIn"@, JsonV::Int(0)).put(
        "refreshExpiresAt"@,
        JsonV::Int(0),
    ).put("lastRefreshTime"@, JsonV::Int(now))
}

/// The session that the editor is handed for an account.
pub open spec fn session(acc: JsonV, now: int) -> JsonV {
    JsonV::empty().put("id"@, JsonV::Str("Tencent-Cloud.genie-ide-cn"@)).put(
        "token"@,
        JsonV::Str(member(acc, "access_token"@)),
    ).put("refreshToken"@, JsonV::Str(member(acc, "refresh_token"@))).put("expiresAt"@, JsonV::Int(end_of(acc))).put(
        "domain"@,
        JsonV::Str(member(acc, "domain"@)),
    ).put("accessToken"@, JsonV::Str(member(acc, "uid"@) + "+"@ + member(acc, "access_token"@))).put(
        "converted"@,
        JsonV::Bool(true),
    ).put("account"@, session_account(acc)).put("auth"@, session_auth(acc, now))
}

/// The session that the editor is handed for an account.
pub fn build_session_json(acc: &Json, now: i64) -> (r: Json)
    ensures
        r@ == session(acc@, now as int),
{
    let uid: String = member_of(acc, "uid");
    let nickname: String = member_of(acc, "nickname");
    let domain: String = member_of(acc, "domain");
    let refresh: String = member_of(acc, "refresh_token");
    let token: String = member_of(acc, "access_token");
    let kind: String = match get_str(acc, "token_type") {
        Some(t) => t,
        None => "Bearer".to_owned(),
    };
    let end: i64 = match acc.get_i64("expiresAt") {
        Some(n) => n,
        None => 0,
    };
    let owner: Json = Json::object().put("id", Json::text(uid.as_str())).put("uid", Json::text(uid.as_str())).put(
        "label",
        Json::text(nickname.as_str()),
    ).put("nickname", Json::text(nickname.as_str())).put(
        "enterpriseId",
        Json::Str(either_of(acc, "enterpriseId", "enterprise_id")),
    ).put("enterpriseName", Json::Str(either_of(acc, "enterpriseName", "enterprise_name"))).put(
        "pluginEnabled",
        Json::Bool(true),
    ).put("lastLogin", Json::Bool(true));
    let auth: Json = Json::object().put("accessToken", Json::text(token.as_str())).put(
        "refreshToken",
        Json::text(refresh.as_str()),
    ).put("tokenType", Json::Str(kind)).put("domain", Json::text(domain.as_str())).put("expiresAt", Json::num(end)).put(
        "expiresIn",
        Json::num(end),
    ).put("refreshExpiresIn", Json::num(0)).put("refreshExpiresAt", Json::num(0)).put("lastRefreshTime", Json::num(now));
    Json::object().put("id", Json::text("Tencent-Cloud.genie-ide-cn")).put("token", Json::text(token.as_str())).put(
        "refreshToken",
        Json::text(refresh.as_str()),
    ).put("expiresAt", Json::num(end)).put("domain", Json::text(domain.as_str())).put(
        "accessToken",
        Json::Str(text::concat3(uid.as_str(), "+", token.as_str())),
    ).put("converted", Json::Bool(true)).put("account", owner).put("auth", auth)
}

/// Where a plus stands first.
pub open spec fn plus_at(s: Seq<char>) -> int {
    text::until(s, |c: char| c == '+')
}

/// A secret or token of the form `uid+token`, taken apart where a token follows the
/// plus; a uid already known stays.
pub open spec fn taken_apart(s: Seq<char>, known: Option<Seq<char>>) -> (Option<Seq<char>>, Seq<char>) {
    let k = plus_at(s);
    if k < s.len() && text::trim(s.subrange(k + 1, s.len() as int)).len() > 0 {
        (
            if known.is_some() {
                known
            } else {
                codebuddy_cli::filled(Some(s.subrange(0, k)))
            },
            text::trim(s.subrange(k + 1, s.len() as int)),
        )
    } else {
        (known, s)
    }
}

/// The first of three members that is there.
pub open spec fn first_member(v: JsonV, a: Seq<char>, b: Seq<char>, c: Seq<char>) -> Option<JsonV> {
    if v.get(a).is_some() {
        v.get(a)
    } else if v.get(b).is_some() {
        v.get(b)
    } else {
        v.get(c)
    }
}

/// The text of a value that may be missing, where anything is left of it.
pub open spec fn text_in(o: Option<JsonV>) -> Option<Seq<char>> {
    match o {
        Some(v) => codebuddy_cli::filled(v.as_str()),
        None => None,
    }
}

/// The token in a session, on its own or in the token part.
pub open spec fn session_token(v: JsonV) -> Option<Seq<char>> {
    match text_in(first_member(v, "token"@, "access_token"@, "accessToken"@)) {
        Some(t) => Some(t),
        None => match v.get("auth"@) {
            Some(a) => text_in(first_member(a, "accessToken"@, "access_token"@, "access_token"@)),
            None => None,
        },
    }
}

/// The uid in a session, on its own or in the account part.
pub open spec fn session_uid(v: JsonV) -> Option<Seq<char>> {
    if v.get("uid"@).is_some() {
        text_in(v.get("uid"@))
    } else {
        match v.get("account"@) {
            Some(a) => text_in(first_member(a, "uid"@, "id"@, "id"@)),
            None => None,
        }
    }
}

/// The uid and the token in a session.
pub open spec fn read_session(v: JsonV) -> Option<(Option<Seq<char>>, Seq<char>)> {
    match session_token(v) {
        Some(t) => Some(taken_apart(t, session_uid(v))),
        None => None,
    }
}

/// The uid and the token in a secret: a session, `uid+token`, or a token alone.
pub open spec fn secret_parts(secret: Seq<char>) -> Option<(Option<Seq<char>>, Seq<char>)> {
    let t = text::trim(secret);
    if t.len() == 0 {
        None
    } else {
        match json::json_of_text(t) {
            Ok(v) => read_session(v),
            Err(_) => Some(taken_apart(t, None)),
        }
    }
}

/// A uid and a token.
pub open spec fn parts_view(o: Option<(Option<String>, String)>) -> Option<(Option<Seq<char>>, Seq<char>)> {
    match o {
        Some(p) => Some((json::opt_string(p.0), p.1@)),
        None => None,
    }
}

fn take_apart(s: &str, known: Option<String>) -> (r: (Option<String>, String))
    ensures
        (json::opt_string(r.0), r.1@) == taken_apart(s@, json::opt_string(known)),
{
    let chars: Vec<char> = text::chars_of(s);
    let all: &[char] = chars.as_slice();
    let k: usize = text::until_char(all, '+');
    proof {
        text::until_is_prefix(s@, |c: char| c == '+');
        assert(text::until(s@, |x: char| x == '+') == plus_at(s@));
    }
    if k < all.len() {
        let rest: &[char] = text::trim_slice(slice_subrange(all, k + 1, all.len()));
        if rest.len() > 0 {
            let uid: Option<String> = match known {
                Some(uid) => Some(uid),
                None => {
                    let head: String = text::text_of(slice_subrange(all, 0, k));
                    filled_text(Some(head.as_str()))
                },
            };
            return (uid, text::text_of(rest));
        }
    }
    (known, s.to_owned())
}

fn pick<'a>(v: &'a Json, a: &str, b: &str, c: &str) -> (r: Option<&'a Json>)
    ensures
        json::opt_view(r) == first_member(v@, a@, b@, c@),
{
    match v.get(a) {
        Some(x) => Some(x),
        None => match v.get(b) {
            Some(x) => Some(x),
            None => v.get(c),
        },
    }
}

fn text_of_value(o: Option<&Json>) -> (r: Option<String>)
    ensures
        json::opt_string(r) == text_in(json::opt_view(o)),
{
    match o {
        Some(v) => filled_text(v.as_str()),
        None => None,
    }
}

/// The uid and the token in a session.
pub fn parse_session(v: &Json) -> (r: Option<(Option<String>, String)>)
    ensures
        parts_view(r) == read_session(v@),
{
    let token: Option<String> = match text_of_value(pick(v, "token", "access_token", "accessToken")) {
        Some(t) => Some(t),
        None => match v.get("auth") {
            Some(a) => text_of_value(pick(a, "accessToken", "access_token", "access_token")),
            None => None,
        },
    };
    match token {
        Some(t) => {
            let uid: Option<String> = match v.get("uid") {
                Some(u) => text_of_value(Some(u)),
                None => match v.get("account") {
                    Some(a) => text_of_value(pick(a, "uid", "id", "id")),
                    None => None,
                },
            };
            Some(take_apart(t.as_str(), uid))
        },
        None => None,
    }
}

/// The uid and the token in a secret: a session, `uid+token`, or a token alone.
pub fn parse_token_from_secret(secret: &str) -> (r: Option<(Option<String>, String)>)
    ensures
        parts_view(r) == secret_parts(secret@),
{
    let t: String = text::trimmed(secret);
    if text::chars_of(t.as_str()).len() == 0 {
        return None;
    }
    match parse_json(t.as_str()) {
        Ok(v) => parse_session(&v),
        Err(_) => Some(take_apart(t.as_str(), None)),
    }
}

/// The first account, from the `i`th on, with a member of the given value.
pub open spec fn with_member(accounts: Seq<JsonV>, key: Seq<char>, value: Seq<char>, i: int) -> Option<JsonV>
    decreases accounts.len() - i,
{
    if i < 0 || i >= accounts.len() {
        None
    } else if account::str_of(accounts[i], key) == Some(value) {
        Some(accounts[i])
    } else {
        with_member(accounts, key, value, i + 1)
    }
}

/// The account of a uid, else that of a token.
pub open spec fn owner_of(accounts: Seq<JsonV>, uid: Option<Seq<char>>, token: Seq<char>) -> Option<JsonV> {
    if uid.is_some() && uid.unwrap().len() > 0 && with_member(accounts, "uid"@, uid.unwrap(), 0).is_some() {
        with_member(accounts, "uid"@, uid.unwrap(), 0)
    } else {
        with_member(accounts, "access_token"@, token, 0)
    }
}

fn find_with(accounts: &[Json], key: &str, value: &str) -> (r: Option<Json>)
    ensures
        account::opt_json(r) == with_member(json::list_view(accounts@), key@, value@, 0),
{
    let ghost all = json::list_view(accounts@);
    let mut i: usize = 0;
    while i < accounts.len()
        invariant
            i <= accounts@.len(),
            all == json::list_view(accounts@),
            with_member(all, key@, value@, 0) == with_member(all, key@, value@, i as int),
        decreases accounts@.len() - i,
    {
        assert(all[i as int] == accounts@[i as int]@);
        let fits: bool = match get_str(&accounts[i], key) {
            Some(s) => same(s.as_str(), value),
            None => false,
        };
        if fits {
            return Some(accounts[i].clone());
        }
        i += 1;
    }
    None
}

/// The account of a uid, else that of a token.
pub fn match_account_for_token(accounts: &[Json], uid: Option<&str>, token: &str) -> (r: Option<Json>)
    ensures
        account::opt_json(r) == owner_of(json::list_view(accounts@), json::opt_text(uid), token@),
{
    match uid {
        Some(uid) => {
            if text::chars_of(uid).len() > 0 {
                let found: Option<Json> = find_with(accounts, "uid", uid);
                if found.is_some() {
                    return found;
                }
            }
        },
        None => {},
    }
    find_with(accounts, "access_token", token)
}

/// Reading a session gives back the account's uid and token, where no plus stands in
/// the token.
pub proof fn session_is_read_back(acc: JsonV, token: Seq<char>, now: int)
    requires
        account::str_of(acc, "access_token"@) == Some(token),
        forall|i: int| 0 <= i < token.len() ==> #[trigger] token[i] != '+',
    ensures
        read_session(session(acc, now)) == Some((account::str_of(acc, "uid"@), token)),
{
    let v = session(acc, now);
    let a = session_account(acc);
    reveal_strlit("id");
    reveal_strlit("token");
    reveal_strlit("refreshToken");
    reveal_strlit("expiresAt");
    reveal_strlit("domain");
    reveal_strlit("accessToken");
    reveal_strlit("converted");
    reveal_strlit("account");
    reveal_strlit("auth");
    reveal_strlit("uid");
    reveal_strlit("label");
    reveal_strlit("nickname");
    reveal_strlit("enterpriseId");
    reveal_strlit("enterpriseName");
    reveal_strlit("pluginEnabled");
    reveal_strlit("lastLogin");
    assert("id"@.len() == 2);
    assert("token"@.len() == 5);
    assert("refreshToken"@.len() == 12);
    assert("expiresAt"@.len() == 9);
    assert("domain"@.len() == 6);
    assert("accessToken"@.len() == 11);
    assert("converted"@.len() == 9);
    assert("account"@.len() == 7);
    assert("auth"@.len() == 4);
    assert("uid"@.len() == 3);
    assert("label"@.len() == 5);
    assert("nickname"@.len() == 8);
    assert("enterpriseId"@.len() == 12);
    assert("enterpriseName"@.len() == 14);
    assert("pluginEnabled"@.len() == 13);
    assert("lastLogin"@.len() == 9);
    assert(v.get("token"@) == Some(JsonV::Str(token)));
    assert(v.get("uid"@).is_none());
    assert(v.get("account"@) == Some(a));
    assert(a.get("uid"@) == Some(JsonV::Str(member(acc, "uid"@))));
    text::trim_settles(acc.get_str("access_token"@).unwrap());
    assert(text::trim(token) == token);
    text::until_is_prefix(token, |c: char| c == '+');
    assert(plus_at(token) >= token.len());
    match acc.get_str("uid"@) {
        Some(u) => text::trim_settles(u),
        None => {},
    }
    let none = Seq::<char>::empty();
    assert(text::trim(none) =~= none);
    assert(session_uid(v) == account::str_of(acc, "uid"@));
}

/// A separator of either kind.
pub open spec fn separator(c: char) -> bool {
    c == '\\' || c == '/'
}

/// Where the last part of a path begins, with separators of either kind.
pub open spec fn part_start(s: Seq<char>) -> int
    decreases s.len(),
{
    if s.len() == 0 {
        0
    } else if separator(s[s.len() - 1]) {
        s.len() as int
    } else {
        part_start(s.subrange(0, s.len() - 1))
    }
}

/// The last part of a path, with separators of either kind.
pub open spec fn file_part(s: Seq<char>) -> Seq<char> {
    text::trim(s.subrange(part_start(s), s.len() as int))
}

/// The name of a program without `.exe`, whatever the case of its letters.
pub open spec fn without_exe(s: Seq<char>) -> Seq<char> {
    if text::ends_with(text::lower(s), ".exe"@) {
        text::trim(s.subrange(0, s.len() - 4))
    } else {
        s
    }
}

/// The name of the program at a path, without `.exe`.
pub open spec fn image_stem(s: Seq<char>) -> Seq<char> {
    without_exe(file_part(s))
}

fn part_start_of(s: &[char]) -> (r: usize)
    ensures
        r == part_start(s@),
        r <= s@.len(),
{
    let mut n: usize = s.len();
    assert(s@.subrange(0, n as int) =~= s@);
    while n > 0
        invariant
            n <= s@.len(),
            part_start(s@) == part_start(s@.subrange(0, n as int)),
        decreases n,
    {
        if s[n - 1] == '\\' || s[n - 1] == '/' {
            return n;
        }
        assert(s@.subrange(0, n as int).subrange(0, n - 1) =~= s@.subrange(0, n - 1));
        n -= 1;
    }
    0
}

fn file_part_of(path: &str) -> (r: String)
    ensures
        r@ == file_part(path@),
{
    let chars: Vec<char> = text::chars_of(path);
    let all: &[char] = chars.as_slice();
    let n: usize = part_start_of(all);
    text::text_of(text::trim_slice(slice_subrange(all, n, all.len())))
}

/// The name of the program at a path, without `.exe`.
pub fn windows_image_stem(name: &str) -> (r: String)
    ensures
        r@ == image_stem(name@),
{
    let file: String = file_part_of(name);
    let lower: String = text::to_lower(file.as_str());
    if text::text_ends_with(lower.as_str(), ".exe") {
        let chars: Vec<char> = text::chars_of(file.as_str());
        proof {
            reveal_strlit(".exe");
            assert(text::lower(file@).len() == file@.len());
        }
        text::text_of(text::trim_slice(slice_subrange(chars.as_slice(), 0, chars.len() - 4)))
    } else {
        file
    }
}

fn alike(a: &str, b: &str) -> (r: bool)
    ensures
        r == (text::lower(a@) == text::lower(b@)),
{
    same(text::to_lower(a).as_str(), text::to_lower(b).as_str())
}

/// The program is `CodeBuddy CN`.
pub open spec fn cn_image(name: Seq<char>) -> bool {
    text::lower(image_stem(name)) == text::lower("CodeBuddy CN"@)
}

/// Whether the program is `CodeBuddy CN`, whatever stands before its name.
pub fn is_codebuddy_cn_image_name(name: &str) -> (b: bool)
    ensures
        b == cn_image(name@),
{
    alike(windows_image_stem(name).as_str(), "CodeBuddy CN")
}

/// The program is `CodeBuddy`.
pub open spec fn plain_image(name: Seq<char>) -> bool {
    text::lower(image_stem(name)) == text::lower("CodeBuddy"@)
}

/// Whether the program is `CodeBuddy`, whatever stands before its name.
pub fn is_plain_codebuddy_image_name(name: &str) -> (b: bool)
    ensures
        b == plain_image(name@),
{
    alike(windows_image_stem(name).as_str(), "CodeBuddy")
}

/// A part of a path: from a beginning or separator to a separator or the end, none between.
pub open spec fn part_at(s: Seq<char>, i: int, j: int) -> bool {
    &&& 0 <= i <= j <= s.len()
    &&& i == 0 || separator(s[i - 1])
    &&& j == s.len() || separator(s[j])
    &&& forall|k: int| i <= k < j ==> !separator(#[trigger] s[k])
}

/// A part of a path is `CodeBuddy CN`.
pub open spec fn in_cn_dir(path: Seq<char>) -> bool {
    exists|i: int, j: int| #[trigger]
        part_at(path, i, j) && text::lower(path.subrange(i, j)) == text::lower("CodeBuddy CN"@)
}

/// Whether a part of a path is `CodeBuddy CN`.
pub fn path_contains_codebuddy_cn_dir(path: &str) -> (b: bool)
    ensures
        b == in_cn_dir(path@),
{
    let chars: Vec<char> = text::chars_of(path);
    let all: &[char] = chars.as_slice();
    let mut i: usize = 0;
    let mut j: usize = 0;
    loop
        invariant
            0 <= i <= j <= all@.len(),
            all@ == path@,
            i == 0 || separator(path@[i - 1]),
            forall|k: int| i <= k < j ==> !separator(#[trigger] path@[k]),
            forall|a: int, c: int| #[trigger]
                part_at(path@, a, c) && a < i ==> text::lower(path@.subrange(a, c)) != text::lower("CodeBuddy CN"@),
        decreases all@.len() - j,
    {
        if j == all.len() || all[j] == '\\' || all[j] == '/' {
            let part: String = text::text_of(slice_subrange(all, i, j));
            assert(part_at(path@, i as int, j as int));
            if alike(part.as_str(), "CodeBuddy CN") {
                return true;
            }
            assert forall|a: int, c: int| #[trigger] part_at(path@, a, c) && a <= j implies text::lower(
                path@.subrange(a, c),
            ) != text::lower("CodeBuddy CN"@) by {
                if a >= i {
                    if a > i {
                        assert(separator(path@[a - 1]));
                    }
                    if c < j {
                        assert(separator(path@[c]));
                    }
                    if c > j {
                        assert(!separator(path@[j as int]));
                    }
                }
            }
            if j == all.len() {
                return false;
            }
            j += 1;
            i = j;
        } else {
            j += 1;
        }
    }
}

/// The program is the editor's: `CodeBuddy CN`, or `CodeBuddy` in a directory of
/// that name.
pub open spec fn cn_exe(path: Seq<char>) -> bool {
    cn_image(path) || (plain_image(path) && in_cn_dir(path))
}

/// Whether a program is the editor's: `CodeBuddy CN`, or `CodeBuddy` in a directory
/// of that name. The international editor is not.
pub fn is_codebuddy_cn_windows_exe(path: &str) -> (b: bool)
    ensures
        b == cn_exe(path@),
{
    is_codebuddy_cn_image_name(path) || (is_plain_codebuddy_image_name(path) && path_contains_codebuddy_cn_dir(path))
}

/// The two places where the editor may be on macOS.
pub fn macos_cn_app_candidates(home: &str) -> (r: Vec<String>)
    ensures
        variant::strings(r@) == seq![
            paths::joined("/Applications"@, MACOS_APP_NAME@),
            paths::joined(paths::joined(home@, "Applications"@), MACOS_APP_NAME@),
        ],
{
    let r: Vec<String> = vec![
        paths::join("/Applications", MACOS_APP_NAME),
        paths::join(paths::join(home, "Applications").as_str(), MACOS_APP_NAME),
    ];
    assert(variant::strings(r@) =~= seq![
        paths::joined("/Applications"@, MACOS_APP_NAME@),
        paths::joined(paths::joined(home@, "Applications"@), MACOS_APP_NAME@),
    ]);
    r
}

/// What stands in the command line of the editor's main process on macOS.
pub open spec fn main_pattern(app: Option<Seq<char>>) -> Seq<char> {
    match app {
        Some(app) => app + "/Contents/MacOS"@,
        None => "CodeBuddy CN.app/Contents/MacOS"@,
    }
}

/// What stands in the command line of the editor's main process on macOS.
pub fn macos_cn_main_patterns(resolved_app: Option<&str>) -> (r: Vec<String>)
    ensures
        variant::strings(r@) == seq![main_pattern(json::opt_text(resolved_app))],
{
    let r: Vec<String> = vec![
        match resolved_app {
            Some(app) => text::concat(app, "/Contents/MacOS"),
            None => "CodeBuddy CN.app/Contents/MacOS".to_owned(),
        },
    ];
    assert(variant::strings(r@) =~= seq![main_pattern(json::opt_text(resolved_app))]);
    r
}

/// What stands in the command line of each of the editor's processes on macOS.
pub open spec fn bundle_pattern(app: Option<Seq<char>>) -> Seq<char> {
    match app {
        Some(app) => app,
        None => "CodeBuddy CN.app"@,
    }
}

/// What stands in the command line of each of the editor's processes on macOS.
pub fn macos_cn_bundle_patterns(resolved_app: Option<&str>) -> (r: Vec<String>)
    ensures
        variant::strings(r@) == seq![bundle_pattern(json::opt_text(resolved_app))],
{
    let r: Vec<String> = vec![
        match resolved_app {
            Some(app) => app.to_owned(),
            None => "CodeBuddy CN.app".to_owned(),
        },
    ];
    assert(variant::strings(r@) =~= seq![bundle_pattern(json::opt_text(resolved_app))]);
    r
}

/// The list with the two names that the editor may have in a base directory.
pub open spec fn install_in(list: Seq<Seq<char>>, base: Seq<char>, windows: bool) -> Seq<Seq<char>> {
    let dir = paths::joined_on(base, "CodeBuddy CN"@, windows);
    paths::listing(
        paths::listing(list, paths::joined_on(dir, "CodeBuddy CN.exe"@, windows), windows),
        paths::joined_on(dir, "CodeBuddy.exe"@, windows),
        windows,
    )
}

/// The list with the names in a base directory, where there is one.
pub open spec fn install_if(list: Seq<Seq<char>>, base: Option<Seq<char>>, windows: bool) -> Seq<Seq<char>> {
    match base {
        Some(b) => install_in(list, b, windows),
        None => list,
    }
}

/// An upper-case letter for a drive letter; any other character unchanged.
pub open spec fn upper_char(c: char) -> char {
    if 'a' <= c <= 'z' {
        (c as int - 32) as char
    } else {
        c
    }
}

/// The directory of a user's programs on a drive.
pub open spec fn user_programs(root: Seq<char>, user: Seq<char>, windows: bool) -> Seq<char> {
    let own = paths::joined_on(paths::joined_on(root, "Users"@, windows), user, windows);
    let local = paths::joined_on(paths::joined_on(own, "AppData"@, windows), "Local"@, windows);
    paths::joined_on(local, "Programs"@, windows)
}

/// The list with the places on a drive.
pub open spec fn install_on(
    list: Seq<Seq<char>>,
    drive: char,
    user: Option<Seq<char>>,
    windows: bool,
) -> Seq<Seq<char>> {
    let letter = upper_char(drive);
    if 'A' <= letter <= 'Z' {
        let root = seq![letter, ':'];
        let more = match user {
            Some(u) => install_in(list, user_programs(root, u, windows), windows),
            None => list,
        };
        install_in(more, paths::joined_on(root, "Program Files"@, windows), windows)
    } else {
        list
    }
}

/// The list with the places on the drives.
pub open spec fn install_on_all(
    list: Seq<Seq<char>>,
    drives: Seq<char>,
    user: Option<Seq<char>>,
    windows: bool,
) -> Seq<Seq<char>>
    decreases drives.len(),
{
    if drives.len() == 0 {
        list
    } else {
        let n = drives.len() - 1;
        install_on(install_on_all(list, drives.subrange(0, n), user, windows), drives[n], user, windows)
    }
}

/// The places where the editor may be on Windows.
pub open spec fn windows_places(
    local: Option<Seq<char>>,
    programs: Option<Seq<char>>,
    programs_x86: Option<Seq<char>>,
    user: Option<Seq<char>>,
    drives: Seq<char>,
    windows: bool,
) -> Seq<Seq<char>> {
    let first = match codebuddy_cli::filled(local) {
        Some(l) => install_in(Seq::empty(), paths::joined_on(l, "Programs"@, windows), windows),
        None => Seq::empty(),
    };
    let second = install_if(first, codebuddy_cli::filled(programs), windows);
    let third = install_if(second, codebuddy_cli::filled(programs_x86), windows);
    install_on_all(third, drives, codebuddy_cli::filled(user), windows)
}

fn list_install(list: &mut Vec<String>, base: &str, windows: bool)
    ensures
        variant::strings(final(list)@) == install_in(variant::strings(old(list)@), base@, windows),
{
    let dir: String = paths::join_on(base, "CodeBuddy CN", windows);
    paths::list_place(list, paths::join_on(dir.as_str(), "CodeBuddy CN.exe", windows), windows);
    paths::list_place(list, paths::join_on(dir.as_str(), "CodeBuddy.exe", windows), windows);
}

fn drive_letter(c: char) -> (r: char)
    ensures
        r == upper_char(c),
{
    let n: u32 = c as u32;
    if 97 <= n && n <= 122 {
        (n as u8 - 32u8) as char
    } else {
        c
    }
}

/// The places where the editor may be on Windows; no place is listed twice. `windows`
/// says whether the paths are put together and compared as Windows does.
pub fn windows_cn_fallback_exe_candidates(
    local_appdata: Option<&str>,
    program_files: Option<&str>,
    program_files_x86: Option<&str>,
    username: Option<&str>,
    drives: &[char],
    windows: bool,
) -> (r: Vec<String>)
    ensures
        variant::strings(r@) == windows_places(
            json::opt_text(local_appdata),
            json::opt_text(program_files),
            json::opt_text(program_files_x86),
            json::opt_text(username),
            drives@,
            windows,
        ),
{
    let mut out: Vec<String> = Vec::new();
    assert(variant::strings(out@) =~= Seq::empty());
    match filled_text(local_appdata) {
        Some(local) => list_install(&mut out, paths::join_on(local.as_str(), "Programs", windows).as_str(), windows),
        None => {},
    }
    match filled_text(program_files) {
        Some(dir) => list_install(&mut out, dir.as_str(), windows),
        None => {},
    }
    match filled_text(program_files_x86) {
        Some(dir) => list_install(&mut out, dir.as_str(), windows),
        None => {},
    }
    let user: Option<String> = filled_text(username);
    let ghost start = variant::strings(out@);
    let ghost whose = json::opt_string(user);
    let mut i: usize = 0;
    assert(drives@.subrange(0, 0) =~= Seq::empty());
    while i < drives.len()
        invariant
            i <= drives@.len(),
            whose == json::opt_string(user),
            variant::strings(out@) == install_on_all(start, drives@.subrange(0, i as int), whose, windows),
        decreases drives@.len() - i,
    {
        assert(drives@.subrange(0, i + 1).subrange(0, i as int) =~= drives@.subrange(0, i as int));
        let letter: char = drive_letter(drives[i]);
        if 'A' <= letter && letter <= 'Z' {
            let pair: Vec<char> = vec![letter, ':'];
            let root: String = text::text_of(pair.as_slice());
            assert(root@ =~= seq![letter, ':']);
            match &user {
                Some(user) => {
                    let a: String = paths::join_on(root.as_str(), "Users", windows);
                    let b: String = paths::join_on(a.as_str(), user.as_str(), windows);
                    let c: String = paths::join_on(b.as_str(), "AppData", windows);
                    let d: String = paths::join_on(c.as_str(), "Local", windows);
                    list_install(&mut out, paths::join_on(d.as_str(), "Programs", windows).as_str(), windows);
                },
                None => {},
            }
            list_install(&mut out, paths::join_on(root.as_str(), "Program Files", windows).as_str(), windows);
        }
        i += 1;
    }
    assert(drives@.subrange(0, drives@.len() as int) =~= drives@);
    out
}

/// A process as Windows lists it.
pub struct WindowsProcessRow {
    pub pid: u32,
    pub name: String,
    pub exe_path: Option<String>,
}

/// A process as Windows lists it.
#[verifier::ext_equal]
pub struct WindowsRowV {
    pub pid: u32,
    pub name: Seq<char>,
    pub exe_path: Option<Seq<char>>,
}

impl WindowsProcessRow {
    pub open spec fn view(&self) -> WindowsRowV {
        WindowsRowV { pid: self.pid, name: self.name@, exe_path: json::opt_string(self.exe_path) }
    }
}

/// Processes as Windows lists them.
pub open spec fn windows_rows(s: Seq<WindowsProcessRow>) -> Seq<WindowsRowV> {
    s.map_values(|r: WindowsProcessRow| r@)
}

/// The process that a line of the form `pid|name|path` tells of.
pub open spec fn windows_row(line: Seq<char>) -> Option<WindowsRowV> {
    let a = text::until(line, |c: char| c == '|');
    if a >= line.len() {
        None
    } else {
        let rest = line.subrange(a + 1, line.len() as int);
        let b = text::until(rest, |c: char| c == '|');
        let pid = text::u64_of_text(text::trim(line.subrange(0, a)));
        if pid.is_none() || pid.unwrap() > u32::MAX || b >= rest.len() {
            None
        } else {
            Some(
                WindowsRowV {
                    pid: pid.unwrap() as u32,
                    name: text::trim(rest.subrange(0, b)),
                    exe_path: codebuddy_cli::filled(Some(rest.subrange(b + 1, rest.len() as int))),
                },
            )
        }
    }
}

/// The processes that the first `n` lines tell of.
pub open spec fn rows_of_lines(lines: Seq<Seq<char>>, n: int) -> Seq<WindowsRowV>
    decreases n,
{
    if n <= 0 {
        Seq::empty()
    } else {
        let earlier = rows_of_lines(lines, n - 1);
        match windows_row(lines[n - 1]) {
            Some(r) => earlier.push(r),
            None => earlier,
        }
    }
}

fn read_windows_row(line: &[char]) -> (r: Option<WindowsProcessRow>)
    ensures
        match r {
            Some(x) => windows_row(line@) == Some(x@),
            None => windows_row(line@).is_none(),
        },
{
    let a: usize = text::until_char(line, '|');
    proof {
        text::until_is_prefix(line@, |c: char| c == '|');
        assert(text::until(line@, |x: char| x == '|') == text::until(line@, |c: char| c == '|'));
    }
    if a >= line.len() {
        return None;
    }
    let rest: &[char] = slice_subrange(line, a + 1, line.len());
    let b: usize = text::until_char(rest, '|');
    proof {
        text::until_is_prefix(rest@, |c: char| c == '|');
        assert(text::until(rest@, |x: char| x == '|') == text::until(rest@, |c: char| c == '|'));
    }
    let pid: u64 = match text::parse_u64(text::trim_slice(slice_subrange(line, 0, a))) {
        Some(n) => n,
        None => {
            return None;
        },
    };
    if pid > 0xffff_ffff || b >= rest.len() {
        return None;
    }
    let path: String = text::text_of(slice_subrange(rest, b + 1, rest.len()));
    Some(
        WindowsProcessRow {
            pid: pid as u32,
            name: text::text_of(text::trim_slice(slice_subrange(rest, 0, b))),
            exe_path: filled_text(Some(path.as_str())),
        },
    )
}

/// The processes that lines of the form `pid|name|path` tell of; others are passed over.
pub fn parse_windows_process_rows(stdout: &str) -> (r: Vec<WindowsProcessRow>)
    ensures
        windows_rows(r@) == rows_of_lines(text::lines(stdout@), text::lines(stdout@).len() as int),
{
    let chars: Vec<char> = text::chars_of(stdout);
    let ranges: Vec<(usize, usize)> = text::line_ranges(chars.as_slice());
    let ghost all = text::lines(stdout@);
    let mut out: Vec<WindowsProcessRow> = Vec::new();
    let mut i: usize = 0;
    assert(windows_rows(out@) =~= Seq::empty());
    while i < ranges.len()
        invariant
            i <= ranges@.len(),
            chars@ == stdout@,
            all == text::lines(stdout@),
            ranges@.len() == all.len(),
            text::ranges_of_lines(chars@, ranges@),
            windows_rows(out@) == rows_of_lines(all, i as int),
        decreases ranges@.len() - i,
    {
        let range: (usize, usize) = ranges[i];
        let ghost held = out@;
        match read_windows_row(slice_subrange(chars.as_slice(), range.0, range.1)) {
            Some(row) => {
                let ghost one = row@;
                out.push(row);
                assert(windows_rows(out@) =~= windows_rows(held).push(one));
            },
            None => {},
        }
        i += 1;
    }
    out
}

/// A program is this tool.
pub open spec fn own_image(name: Seq<char>) -> bool {
    text::lower(image_stem(name)) == "wb-switch"@ || text::lower(image_stem(name)) == "workbuddy-switch"@
}

/// A program reports crashes.
pub open spec fn crash_image(name: Seq<char>) -> bool {
    text::has(text::lower(image_stem(name)), "crashpad"@)
}

/// A process is the editor's.
pub open spec fn cn_row(row: WindowsRowV) -> bool {
    let path = account::or_empty(row.exe_path);
    let file = file_part(path);
    &&& !own_image(row.name) && !own_image(file)
    &&& !crash_image(row.name) && !crash_image(file)
    &&& cn_exe(row.name) || cn_exe(file) || (path.len() > 0 && cn_exe(path))
}

fn is_self_image_name(name: &str) -> (b: bool)
    ensures
        b == own_image(name@),
{
    let stem: String = text::to_lower(windows_image_stem(name).as_str());
    same(stem.as_str(), "wb-switch") || same(stem.as_str(), "workbuddy-switch")
}

fn is_crashpad_helper_name(name: &str) -> (b: bool)
    ensures
        b == crash_image(name@),
{
    text::contains_text(text::to_lower(windows_image_stem(name).as_str()).as_str(), "crashpad")
}

/// Whether a process is the editor's, by its name and its program.
pub fn keep_windows_cn_row(row: &WindowsProcessRow) -> (b: bool)
    ensures
        b == cn_row(row@),
{
    let path: &str = match &row.exe_path {
        Some(p) => p.as_str(),
        None => {
            let none: &str = "";
            proof {
                reveal_strlit("");
            }
            assert(none@ =~= Seq::empty());
            none
        },
    };
    let file: String = file_part_of(path);
    if is_self_image_name(row.name.as_str()) || is_self_image_name(file.as_str()) {
        return false;
    }
    if is_crashpad_helper_name(row.name.as_str()) || is_crashpad_helper_name(file.as_str()) {
        return false;
    }
    is_codebuddy_cn_windows_exe(row.name.as_str()) || is_codebuddy_cn_windows_exe(file.as_str()) || (
    text::chars_of(path).len() > 0 && is_codebuddy_cn_windows_exe(path))
}

/// A command line is the editor's on Linux.
pub open spec fn linux_line(line: Seq<char>) -> bool {
    let l = text::lower(line);
    &&& !text::has(l, "wb-switch"@) && !text::has(l, "workbuddy-switch"@)
    &&& !text::has(l, "crashpad"@) && !text::has(l, "--type="@)
    &&& text::has(line, "CodeBuddy CN"@) || text::has(l, "codebuddy-cn"@) || text::has(l, "codebuddycn"@)
}

/// Whether a command line is the editor's on Linux.
pub fn linux_cmdline_is_codebuddy_cn(cmdline: &str) -> (b: bool)
    ensures
        b == linux_line(cmdline@),
{
    let lower: String = text::to_lower(cmdline);
    let l: &str = lower.as_str();
    if text::contains_text(l, "wb-switch") || text::contains_text(l, "workbuddy-switch") {
        return false;
    }
    if text::contains_text(l, "crashpad") || text::contains_text(l, "--type=") {
        return false;
    }
    text::contains_text(cmdline, "CodeBuddy CN") || text::contains_text(l, "codebuddy-cn") || text::contains_text(
        l,
        "codebuddycn",
    )
}

/// A program is the editor on Linux.
pub open spec fn linux_exe(path: Seq<char>) -> bool {
    let name = text::trim(paths::last_part(paths::bare(path, false)));
    ||| text::lower(name) == text::lower("codebuddy-cn"@)
    ||| text::lower(name) == text::lower("codebuddycn"@)
    ||| cn_image(name)
}

/// Whether a program is the editor on Linux.
pub fn linux_exe_is_codebuddy_cn(exe: &str) -> (b: bool)
    ensures
        b == linux_exe(exe@),
{
    let chars: Vec<char> = text::chars_of(exe);
    let part: &[char] = paths::last_part_of(paths::bare_of(chars.as_slice(), false));
    let name: String = text::text_of(text::trim_slice(part));
    alike(name.as_str(), "codebuddy-cn") || alike(name.as_str(), "codebuddycn") || is_codebuddy_cn_image_name(
        name.as_str(),
    )
}

/// The processes that run.
pub enum Processes {
    /// On macOS, each with its command line, and the editor's bundle where it is known.
    Mac(Vec<(u32, String)>, Option<String>),
    /// On Windows.
    Windows(Vec<WindowsProcessRow>),
    /// On Linux, each with its program, where that can be told, and its command line.
    Linux(Vec<(u32, Option<String>, String)>),
}

/// A process on macOS has a pattern in its command line and is not this tool's.
pub open spec fn mac_line(line: Seq<char>, pattern: Seq<char>) -> bool {
    text::has(line, pattern) && !text::has(line, "wb-switch"@) && !text::has(line, "workbuddy-switch"@)
}

fn is_mac_line(line: &str, pattern: &str) -> (b: bool)
    ensures
        b == mac_line(line@, pattern@),
{
    text::contains_text(line, pattern) && !text::contains_text(line, "wb-switch") && !text::contains_text(
        line,
        "workbuddy-switch",
    )
}

impl Processes {
    /// How many there are.
    pub open spec fn size(self) -> nat {
        match self {
            Processes::Mac(rows, _) => rows@.len(),
            Processes::Windows(rows) => rows@.len(),
            Processes::Linux(rows) => rows@.len(),
        }
    }

    /// The number of the `i`th.
    pub open spec fn pid(self, i: int) -> u32 {
        match self {
            Processes::Mac(rows, _) => rows@[i].0,
            Processes::Windows(rows) => rows@[i].pid,
            Processes::Linux(rows) => rows@[i].0,
        }
    }

    /// The `i`th is the editor's; of macOS's only the main process where `main`.
    pub open spec fn editor(self, i: int, main: bool) -> bool {
        match self {
            Processes::Mac(rows, app) => mac_line(
                rows@[i].1@,
                if main {
                    main_pattern(json::opt_string(app))
                } else {
                    bundle_pattern(json::opt_string(app))
                },
            ),
            Processes::Windows(rows) => cn_row(rows@[i]@),
            Processes::Linux(rows) => match rows@[i].1 {
                Some(exe) => linux_exe(exe@) || linux_line(rows@[i].2@),
                None => linux_line(rows@[i].2@),
            },
        }
    }

    /// The numbers of the editor's processes among the first `n`, this one left out.
    pub open spec fn editors(self, own: u32, main: bool, n: int) -> Seq<u32>
        decreases n,
    {
        if n <= 0 {
            Seq::empty()
        } else if self.pid(n - 1) != own && self.editor(n - 1, main) {
            self.editors(own, main, n - 1).push(self.pid(n - 1))
        } else {
            self.editors(own, main, n - 1)
        }
    }

    fn is_editor(&self, i: usize, main: bool) -> (b: bool)
        requires
            i < self.size(),
        ensures
            b == self.editor(i as int, main),
    {
        match self {
            Processes::Mac(rows, app) => {
                let patterns: Vec<String> = if main {
                    macos_cn_main_patterns(borrowed(app))
                } else {
                    macos_cn_bundle_patterns(borrowed(app))
                };
                assert(variant::strings(patterns@).len() == patterns@.len());
                assert(variant::strings(patterns@).len() == 1);
                assert(variant::strings(patterns@)[0] == patterns@[0]@);
                is_mac_line(rows[i].1.as_str(), patterns[0].as_str())
            },
            Processes::Windows(rows) => keep_windows_cn_row(&rows[i]),
            Processes::Linux(rows) => match &rows[i].1 {
                Some(exe) => linux_exe_is_codebuddy_cn(exe.as_str()) || linux_cmdline_is_codebuddy_cn(
                    rows[i].2.as_str(),
                ),
                None => linux_cmdline_is_codebuddy_cn(rows[i].2.as_str()),
            },
        }
    }

    /// The numbers of the editor's processes, this one left out; of macOS's only the
    /// main process where `main`.
    pub fn codebuddy_cn_pids(&self, own: u32, main: bool) -> (r: Vec<u32>)
        ensures
            r@ == self.editors(own, main, self.size() as int),
    {
        let n: usize = match self {
            Processes::Mac(rows, _) => rows.len(),
            Processes::Windows(rows) => rows.len(),
            Processes::Linux(rows) => rows.len(),
        };
        let mut out: Vec<u32> = Vec::new();
        let mut i: usize = 0;
        while i < n
            invariant
                i <= n,
                n == self.size(),
                out@ == self.editors(own, main, i as int),
            decreases n - i,
        {
            let pid: u32 = match self {
                Processes::Mac(rows, _) => rows[i].0,
                Processes::Windows(rows) => rows[i].pid,
                Processes::Linux(rows) => rows[i].0,
            };
            if pid != own && self.is_editor(i, main) {
                out.push(pid);
            }
            i += 1;
        }
        out
    }
}

/// Whether the editor runs, by its main process.
pub fn is_codebuddy_cn_running(processes: &Processes, own: u32) -> (b: bool)
    ensures
        b == (processes.editors(own, true, processes.size() as int).len() > 0),
{
    processes.codebuddy_cn_pids(own, true).len() > 0
}

/// The bundle that a command line on macOS names: its text up to the first `.app`.
pub open spec fn bundle_in(line: Seq<char>) -> Option<Seq<char>> {
    match text::find(line, ".app"@) {
        Some(i) => Some(line.subrange(0, i + 4)),
        None => None,
    }
}

/// The bundles that the command lines of the first `n` processes with the editor's
/// pattern name.
pub open spec fn running_bundles(rows: Seq<(u32, Seq<char>)>, n: int) -> Seq<Seq<char>>
    decreases n,
{
    if n <= 0 {
        Seq::empty()
    } else {
        let earlier = running_bundles(rows, n - 1);
        match bundle_in(rows[n - 1].1) {
            Some(path) => if mac_line(rows[n - 1].1, main_pattern(None)) {
                earlier.push(path)
            } else {
                earlier
            },
            None => earlier,
        }
    }
}

fn find_bundle(line: &str) -> (r: Option<String>)
    ensures
        json::opt_string(r) == bundle_in(line@),
{
    let chars: Vec<char> = text::chars_of(line);
    let mark: Vec<char> = text::chars_of(".app");
    match text::find_slice(chars.as_slice(), mark.as_slice()) {
        Some(i) => {
            proof {
                reveal_strlit(".app");
                assert(mark@.len() == 4);
            }
            Some(text::text_of(slice_subrange(chars.as_slice(), 0, i + 4)))
        },
        None => None,
    }
}

/// The bundles of the editor that run on macOS, by the processes with their command lines.
pub fn macos_cn_running_apps(rows: &[(u32, String)]) -> (r: Vec<String>)
    ensures
        variant::strings(r@) == running_bundles(codebuddy_cli::rows_view(rows@), rows@.len() as int),
{
    let ghost all = codebuddy_cli::rows_view(rows@);
    let mut out: Vec<String> = Vec::new();
    let mut i: usize = 0;
    assert(variant::strings(out@) =~= Seq::empty());
    while i < rows.len()
        invariant
            i <= rows@.len(),
            all == codebuddy_cli::rows_view(rows@),
            variant::strings(out@) == running_bundles(all, i as int),
        decreases rows@.len() - i,
    {
        assert(all[i as int] == (rows@[i as int].0, rows@[i as int].1@));
        let ghost held = out@;
        match find_bundle(rows[i].1.as_str()) {
            Some(path) => {
                if is_mac_line(rows[i].1.as_str(), "CodeBuddy CN.app/Contents/MacOS") {
                    let ghost one = path@;
                    out.push(path);
                    assert(variant::strings(out@) =~= variant::strings(held).push(one));
                }
            },
            None => {},
        }
        i += 1;
    }
    out
}

/// The first of the lines from `i` on that is not blank, trimmed.
pub open spec fn filled_line(lines: Seq<Seq<char>>, i: int) -> Option<Seq<char>>
    decreases lines.len() - i,
{
    if i < 0 || i >= lines.len() {
        None
    } else if text::trim(lines[i]).len() > 0 {
        Some(text::trim(lines[i]))
    } else {
        filled_line(lines, i + 1)
    }
}

/// The first line that is not blank, trimmed: the place that a search of the system names.
pub fn macos_cn_mdfind_app_path(stdout: &str) -> (r: Option<String>)
    ensures
        json::opt_string(r) == filled_line(text::lines(stdout@), 0),
{
    let chars: Vec<char> = text::chars_of(stdout);
    let ranges: Vec<(usize, usize)> = text::line_ranges(chars.as_slice());
    let ghost all = text::lines(stdout@);
    let mut i: usize = 0;
    while i < ranges.len()
        invariant
            i <= ranges@.len(),
            chars@ == stdout@,
            all == text::lines(stdout@),
            ranges@.len() == all.len(),
            text::ranges_of_lines(chars@, ranges@),
            filled_line(all, 0) == filled_line(all, i as int),
        decreases ranges@.len() - i,
    {
        let range: (usize, usize) = ranges[i];
        let line: &[char] = text::trim_slice(slice_subrange(chars.as_slice(), range.0, range.1));
        if line.len() > 0 {
            return Some(text::text_of(line));
        }
        i += 1;
    }
    None
}

/// A text without the number of an icon behind a comma at its end.
pub open spec fn without_icon_number(s: Seq<char>) -> Seq<char> {
    let k = paths::last_of(s, ',');
    if k >= 0 && text::i64_of_text(text::trim(s.subrange(k + 1, s.len() as int))).is_some() {
        s.subrange(0, k)
    } else {
        s
    }
}

/// A text without the quotes around it.
pub open spec fn unquoted(s: Seq<char>) -> Seq<char> {
    if s.len() >= 2 && s[0] == '"' && s[s.len() - 1] == '"' {
        s.subrange(1, s.len() - 1)
    } else {
        s
    }
}

/// The program that an entry of the registry names: it may stand in quotes and have
/// the number of an icon behind it.
pub open spec fn registry_path(line: Seq<char>) -> Option<Seq<char>> {
    codebuddy_cli::filled(Some(unquoted(text::trim(without_icon_number(text::trim(line))))))
}

/// The programs of the editor among the first `n` entries, none listed twice.
pub open spec fn registry_places(lines: Seq<Seq<char>>, n: int) -> Seq<Seq<char>>
    decreases n,
{
    if n <= 0 {
        Seq::empty()
    } else {
        let earlier = registry_places(lines, n - 1);
        match registry_path(lines[n - 1]) {
            Some(path) => if !own_image(path) && cn_exe(path) {
                paths::listing(earlier, path, true)
            } else {
                earlier
            },
            None => earlier,
        }
    }
}

fn read_registry_path(line: &[char]) -> (r: Option<String>)
    ensures
        json::opt_string(r) == registry_path(line@),
{
    let t: &[char] = text::trim_slice(line);
    let k: usize = paths::after_last(t, ',');
    let front: &[char] = if k > 0 && text::parse_i64(text::trim_slice(slice_subrange(t, k, t.len()))).is_some() {
        slice_subrange(t, 0, k - 1)
    } else {
        t
    };
    assert(front@ =~= without_icon_number(t@));
    let bare: &[char] = text::trim_slice(front);
    let n: usize = bare.len();
    let path: &[char] = if n >= 2 && bare[0] == '"' && bare[n - 1] == '"' {
        slice_subrange(bare, 1, n - 1)
    } else {
        bare
    };
    assert(path@ =~= unquoted(bare@));
    filled_text(Some(text::text_of(path).as_str()))
}

/// The programs of the editor that the registry of Windows names, a line for each entry.
pub fn windows_cn_registry_exe_candidates(stdout: &str) -> (r: Vec<String>)
    ensures
        variant::strings(r@) == registry_places(text::lines(stdout@), text::lines(stdout@).len() as int),
{
    let chars: Vec<char> = text::chars_of(stdout);
    let ranges: Vec<(usize, usize)> = text::line_ranges(chars.as_slice());
    let ghost all = text::lines(stdout@);
    let mut out: Vec<String> = Vec::new();
    let mut i: usize = 0;
    assert(variant::strings(out@) =~= Seq::empty());
    while i < ranges.len()
        invariant
            i <= ranges@.len(),
            chars@ == stdout@,
            all == text::lines(stdout@),
            ranges@.len() == all.len(),
            text::ranges_of_lines(chars@, ranges@),
            variant::strings(out@) == registry_places(all, i as int),
        decreases ranges@.len() - i,
    {
        let range: (usize, usize) = ranges[i];
        match read_registry_path(slice_subrange(chars.as_slice(), range.0, range.1)) {
            Some(path) => {
                if !is_self_image_name(path.as_str()) && is_codebuddy_cn_windows_exe(path.as_str()) {
                    paths::list_place(&mut out, path, true);
                }
            },
            None => {},
        }
        i += 1;
    }
    out
}

/// What becomes of the remembered path of the editor.
pub enum PathMemory {
    /// It stays.
    Keep,
    /// It goes.
    Clear,
    /// The path found takes its place.
    Save,
}

/// The path of the editor, as far as it is found, and what becomes of the remembered one.
pub struct AppPath {
    pub path: Option<String>,
    pub memory: PathMemory,
}

/// The first place, from the `i`th on, where the editor is.
pub open spec fn found_place(places: Seq<(String, bool)>, i: int) -> Option<Seq<char>>
    decreases places.len() - i,
{
    if i < 0 || i >= places.len() {
        None
    } else if places[i].1 {
        Some(places[i].0@)
    } else {
        found_place(places, i + 1)
    }
}

/// The path of the editor and what becomes of the remembered one: that of the
/// running one, else the remembered one where it is still good, else the first place
/// where it is.
pub open spec fn app_path_of(
    running: Option<Seq<char>>,
    remembered: Option<Seq<char>>,
    good: bool,
    places: Seq<(String, bool)>,
    windows: bool,
) -> (Option<Seq<char>>, PathMemory) {
    if running.is_some() {
        (
            running,
            if remembered.is_some() && paths::same_place(remembered.unwrap(), running.unwrap(), windows) {
                PathMemory::Keep
            } else {
                PathMemory::Save
            },
        )
    } else if remembered.is_some() && good {
        (remembered, PathMemory::Keep)
    } else if found_place(places, 0).is_some() {
        (found_place(places, 0), PathMemory::Save)
    } else if remembered.is_some() {
        (None, PathMemory::Clear)
    } else {
        (None, PathMemory::Keep)
    }
}

/// Finds the editor: `running` is the path of the running one, `remembered` the one
/// kept from before and `good` whether it is still the editor's, `places` where else
/// to look and whether the editor is there; `windows` says whether paths are compared
/// as Windows does.
pub fn codebuddy_cn_app_path(
    running: Option<&str>,
    remembered: Option<&str>,
    good: bool,
    places: &[(String, bool)],
    windows: bool,
) -> (r: AppPath)
    ensures
        (json::opt_string(r.path), r.memory) == app_path_of(
            json::opt_text(running),
            json::opt_text(remembered),
            good,
            places@,
            windows,
        ),
{
    match running {
        Some(path) => {
            let kept: bool = match remembered {
                Some(old) => paths::is_same_place(old, path, windows),
                None => false,
            };
            return AppPath {
                path: Some(path.to_owned()),
                memory: if kept {
                    PathMemory::Keep
                } else {
                    PathMemory::Save
                },
            };
        },
        None => {},
    }
    match remembered {
        Some(path) => {
            if good {
                return AppPath { path: Some(path.to_owned()), memory: PathMemory::Keep };
            }
        },
        None => {},
    }
    let mut i: usize = 0;
    while i < places.len()
        invariant
            i <= places@.len(),
            found_place(places@, 0) == found_place(places@, i as int),
            json::opt_text(running).is_none(),
            json::opt_text(remembered).is_none() || !good,
        decreases places@.len() - i,
    {
        if places[i].1 {
            return AppPath { path: Some(places[i].0.clone()), memory: PathMemory::Save };
        }
        i += 1;
    }
    AppPath {
        path: None,
        memory: if remembered.is_some() {
            PathMemory::Clear
        } else {
            PathMemory::Keep
        },
    }
}

/// The places where the editor may be on Linux.
pub fn linux_cn_candidates() -> (r: Vec<&'static str>)
    ensures
        r@.len() == 3,
        r@[0]@ == "/usr/bin/codebuddy-cn"@,
        r@[1]@ == "/usr/local/bin/codebuddy-cn"@,
        r@[2]@ == "/opt/codebuddy-cn/codebuddy-cn"@,
{
    vec!["/usr/bin/codebuddy-cn", "/usr/local/bin/codebuddy-cn", "/opt/codebuddy-cn/codebuddy-cn"]
}

/// A step of closing the editor.
pub enum CloseStep {
    /// Ask these processes to end; on macOS the application is asked instead.
    Ask(Vec<u32>),
    /// End these processes.
    Force(Vec<u32>),
    /// Nothing of it runs.
    Done,
    /// Something of it still runs.
    Failed(String),
}

/// A step of closing the editor.
#[verifier::ext_equal]
pub enum CloseStepV {
    Ask(Seq<u32>),
    Force(Seq<u32>),
    Done,
    Failed(Seq<char>),
}

impl CloseStep {
    pub open spec fn view(&self) -> CloseStepV {
        match self {
            CloseStep::Ask(v) => CloseStepV::Ask(v@),
            CloseStep::Force(v) => CloseStepV::Force(v@),
            CloseStep::Done => CloseStepV::Done,
            CloseStep::Failed(e) => CloseStepV::Failed(e@),
        }
    }
}

/// A step that may not have begun.
pub open spec fn opt_step(o: Option<CloseStep>) -> Option<CloseStepV> {
    match o {
        Some(s) => Some(s@),
        None => None,
    }
}

/// Process numbers with a mark between each two.
pub open spec fn pid_list(pids: Seq<u32>, mark: Seq<char>) -> Seq<char>
    decreases pids.len(),
{
    if pids.len() == 0 {
        Seq::empty()
    } else if pids.len() == 1 {
        text::int_text(pids[0] as int)
    } else {
        pid_list(pids.subrange(0, pids.len() - 1), mark) + mark + text::int_text(pids[pids.len() - 1] as int)
    }
}

fn list_pids(pids: &[u32], mark: &str) -> (r: String)
    ensures
        r@ == pid_list(pids@, mark@),
{
    let mut out: String = String::new();
    assert(out@ =~= Seq::empty());
    assert(pids@.subrange(0, 0) =~= Seq::empty());
    let mut i: usize = 0;
    while i < pids.len()
        invariant
            i <= pids@.len(),
            out@ == pid_list(pids@.subrange(0, i as int), mark@),
        decreases pids@.len() - i,
    {
        let number: String = text::text_of_i64(pids[i] as i64);
        assert(pids@.subrange(0, i + 1).subrange(0, i as int) =~= pids@.subrange(0, i as int));
        if i == 0 {
            assert(pids@.subrange(0, 1)[0] == pids@[0]);
            out = number;
        } else {
            out = text::concat3(out.as_str(), mark, number.as_str());
        }
        i += 1;
    }
    assert(pids@.subrange(0, pids@.len() as int) =~= pids@);
    out
}

/// What is said where something of the editor still runs.
pub open spec fn close_error(system: System, left: Seq<u32>) -> Seq<char> {
    match system {
        System::Windows => "CodeBuddy CN 进程无法关闭，请手动结束 CodeBuddy CN 进程"@,
        System::Mac => "CodeBuddy CN 进程无法完全关闭（残留进程: "@ + pid_list(left, ", "@)
            + "）。请手动执行: kill -9 "@ + pid_list(left, " "@),
        System::Linux => "CodeBuddy CN 进程无法关闭（残留进程: "@ + pid_list(left, ", "@)
            + "）。请手动执行: kill -9 "@ + pid_list(left, " "@),
    }
}

/// What comes after a step of closing the editor, by its processes that run then;
/// before the first step there is none. On macOS the application is asked even where
/// none is seen.
pub open spec fn close_next(system: System, step: Option<CloseStepV>, alive: Seq<u32>) -> CloseStepV {
    match step {
        None => if system == System::Mac {
            CloseStepV::Ask(Seq::empty())
        } else if alive.len() == 0 {
            CloseStepV::Done
        } else {
            CloseStepV::Ask(alive)
        },
        Some(CloseStepV::Ask(_)) => if system != System::Mac && alive.len() == 0 {
            CloseStepV::Done
        } else {
            CloseStepV::Force(alive)
        },
        Some(CloseStepV::Force(_)) => if alive.len() == 0 {
            CloseStepV::Done
        } else {
            CloseStepV::Failed(close_error(system, alive))
        },
        Some(other) => other,
    }
}

/// What comes after a step of closing the editor, by its processes that run then.
pub fn close_codebuddy_cn(system: System, step: Option<CloseStep>, alive: Vec<u32>) -> (r: CloseStep)
    ensures
        r@ == close_next(system, opt_step(step), alive@),
{
    match step {
        None => {
            if system == System::Mac {
                let none: Vec<u32> = Vec::new();
                assert(none@ =~= Seq::empty());
                CloseStep::Ask(none)
            } else if alive.len() == 0 {
                CloseStep::Done
            } else {
                CloseStep::Ask(alive)
            }
        },
        Some(CloseStep::Ask(_)) => {
            if system != System::Mac && alive.len() == 0 {
                CloseStep::Done
            } else {
                CloseStep::Force(alive)
            }
        },
        Some(CloseStep::Force(_)) => {
            if alive.len() == 0 {
                return CloseStep::Done;
            }
            let error: String = match system {
                System::Windows => "CodeBuddy CN 进程无法关闭，请手动结束 CodeBuddy CN 进程".to_owned(),
                System::Mac => text::concat(
                    text::concat3(
                        "CodeBuddy CN 进程无法完全关闭（残留进程: ",
                        list_pids(alive.as_slice(), ", ").as_str(),
                        "）。请手动执行: kill -9 ",
                    ).as_str(),
                    list_pids(alive.as_slice(), " ").as_str(),
                ),
                System::Linux => text::concat(
                    text::concat3(
                        "CodeBuddy CN 进程无法关闭（残留进程: ",
                        list_pids(alive.as_slice(), ", ").as_str(),
                        "）。请手动执行: kill -9 ",
                    ).as_str(),
                    list_pids(alive.as_slice(), " ").as_str(),
                ),
            };
            CloseStep::Failed(error)
        },
        Some(CloseStep::Done) => CloseStep::Done,
        Some(CloseStep::Failed(e)) => CloseStep::Failed(e),
    }
}

/// Closing is said to be done only where nothing of the editor runs any more, and
/// takes at most three steps.
pub proof fn closing_ends(system: System, first: Seq<u32>, second: Seq<u32>, third: Seq<u32>)
    ensures
        ({
            let one = close_next(system, None, first);
            let two = close_next(system, Some(one), second);
            let three = close_next(system, Some(two), third);
            &&& one is Done ==> first.len() == 0
            &&& two is Done && !(one is Done) ==> second.len() == 0
            &&& three is Done && !(two is Done) ==> third.len() == 0
            &&& three is Done || three is Failed
            &&& three is Failed ==> third.len() > 0
        }),
{
}

/// The whole time for closing, in milliseconds: at least a second.
pub open spec fn close_budget(timeout_secs: int) -> int {
    if timeout_secs < 1 {
        1000
    } else {
        timeout_secs * 1000
    }
}

/// The time left, in milliseconds, but not less than a least time.
pub open spec fn time_left(budget: int, elapsed: int, least: int) -> int {
    if budget - elapsed < least {
        least
    } else {
        budget - elapsed
    }
}

/// How long the editor is given to end by itself, in milliseconds: eight seconds at
/// most.
pub open spec fn grace(system: System, timeout_secs: int, elapsed: int) -> int {
    let room = if system == System::Mac {
        time_left(close_budget(timeout_secs), elapsed, 100)
    } else {
        close_budget(timeout_secs)
    };
    if room < 8000 {
        room
    } else {
        8000
    }
}

/// How long ended processes are waited for, in milliseconds.
pub open spec fn last_wait(system: System, timeout_secs: int, elapsed: int) -> int {
    match system {
        System::Mac => time_left(close_budget(timeout_secs), elapsed, 100),
        System::Windows => time_left(close_budget(timeout_secs), elapsed, 1000),
        System::Linux => time_left(
            close_budget(timeout_secs),
            grace(system, timeout_secs, elapsed),
            1000,
        ),
    }
}

fn budget_of(timeout_secs: i64) -> (r: i128)
    ensures
        r == close_budget(timeout_secs as int),
        1000 <= r <= 0x7fff_ffff_ffff_ffff * 1000,
{
    if timeout_secs < 1 {
        1000
    } else {
        (timeout_secs as i128) * 1000
    }
}

fn left_of(budget: i128, elapsed: i128, least: i128) -> (r: i128)
    requires
        0 <= budget <= 0x7fff_ffff_ffff_ffff * 1000,
        0 <= elapsed <= 0xffff_ffff_ffff_ffff,
    ensures
        r == time_left(budget as int, elapsed as int, least as int),
{
    if budget - elapsed < least {
        least
    } else {
        budget - elapsed
    }
}

/// How long the editor is given to end by itself, in milliseconds; `elapsed` is the
/// time since closing began.
pub fn graceful_wait_ms(system: System, timeout_secs: i64, elapsed: u64) -> (r: i128)
    ensures
        r == grace(system, timeout_secs as int, elapsed as int),
        0 <= r <= 8000,
{
    let budget: i128 = budget_of(timeout_secs);
    let room: i128 = if system == System::Mac {
        left_of(budget, elapsed as i128, 100)
    } else {
        budget
    };
    if room < 8000 {
        room
    } else {
        8000
    }
}

/// How long ended processes are waited for, in milliseconds; `elapsed` is the time
/// since closing began.
pub fn final_wait_ms(system: System, timeout_secs: i64, elapsed: u64) -> (r: i128)
    ensures
        r == last_wait(system, timeout_secs as int, elapsed as int),
{
    let budget: i128 = budget_of(timeout_secs);
    match system {
        System::Mac => left_of(budget, elapsed as i128, 100),
        System::Windows => left_of(budget, elapsed as i128, 1000),
        System::Linux => {
            let used: i128 = graceful_wait_ms(system, timeout_secs, elapsed);
            left_of(budget, used, 1000)
        },
    }
}

/// What watching the editor start shows.
pub enum Startup {
    /// Not yet clear; it has been seen since that time, where it has.
    Watch(Option<u64>),
    /// It runs.
    Up,
    /// It does not.
    Failed(String),
}

/// What watching the editor start shows.
#[verifier::ext_equal]
pub enum StartupV {
    Watch(Option<u64>),
    Up,
    Failed(Seq<char>),
}

impl Startup {
    pub open spec fn view(&self) -> StartupV {
        match self {
            Startup::Watch(o) => StartupV::Watch(*o),
            Startup::Up => StartupV::Up,
            Startup::Failed(e) => StartupV::Failed(e@),
        }
    }
}

/// What the editor's start shows after a time, in milliseconds: it runs once it has
/// been seen for ten seconds; it failed where it was seen and is gone, or where half
/// a minute is over.
pub open spec fn startup_next(app: Seq<char>, seen: Option<u64>, elapsed: u64, alive: bool) -> StartupV {
    if elapsed >= 30000 {
        StartupV::Failed(
            "启动 CodeBuddy CN 超时，未能确认运行（路径: "@ + app + "）。请先手动打开一次 CodeBuddy CN。"@,
        )
    } else if alive {
        match seen {
            Some(start) => if elapsed - start >= 10000 {
                StartupV::Up
            } else {
                StartupV::Watch(seen)
            },
            None => StartupV::Watch(Some(elapsed)),
        }
    } else if seen.is_some() {
        StartupV::Failed(
            "CodeBuddy CN 启动后立即退出（疑似残留单例锁）。请先手动打开一次 CodeBuddy CN（路径: "@ + app
                + "）"@,
        )
    } else {
        StartupV::Watch(None)
    }
}

/// What the editor's start shows after a time, in milliseconds.
pub fn validate_macos_cn_startup(app: &str, seen: Option<u64>, elapsed: u64, alive: bool) -> (r: Startup)
    requires
        match seen {
            Some(start) => start <= elapsed,
            None => true,
        },
    ensures
        r@ == startup_next(app@, seen, elapsed, alive),
{
    if elapsed >= 30000 {
        return Startup::Failed(
            text::concat3(
                "启动 CodeBuddy CN 超时，未能确认运行（路径: ",
                app,
                "）。请先手动打开一次 CodeBuddy CN。",
            ),
        );
    }
    if alive {
        match seen {
            Some(start) => {
                if elapsed - start >= 10000 {
                    Startup::Up
                } else {
                    Startup::Watch(seen)
                }
            },
            None => Startup::Watch(Some(elapsed)),
        }
    } else if seen.is_some() {
        Startup::Failed(
            text::concat3(
                "CodeBuddy CN 启动后立即退出（疑似残留单例锁）。请先手动打开一次 CodeBuddy CN（路径: ",
                app,
                "）",
            ),
        )
    } else {
        Startup::Watch(None)
    }
}

/// What is said where the editor is not found.
pub open spec fn missing_error(system: System, path: Option<Seq<char>>) -> Seq<char> {
    match system {
        System::Mac => "未找到 CodeBuddy CN 应用（尝试路径: "@ + (match path {
            Some(p) => p,
            None => "/Applications/CodeBuddy CN.app"@,
        }) + "）。请先手动打开一次 CodeBuddy CN 后重试。"@,
        System::Windows => "未找到 CodeBuddy CN 程序（尝试路径: "@ + (match path {
            Some(p) => p,
            None => "%LOCALAPPDATA%\\Programs\\CodeBuddy CN\\CodeBuddy CN.exe"@,
        }) + "）。请在 Windows 上打开 CodeBuddy CN 后重试。"@,
        System::Linux => "未找到 CodeBuddy CN 可执行文件（尝试路径: "@ + (match path {
            Some(p) => p,
            None => "/usr/bin/codebuddy-cn"@,
        }) + "）。请先手动打开一次。"@,
    }
}

/// What is said where the editor is not found, at a path where one was looked at.
pub fn launch_missing_error(system: System, path: Option<&str>) -> (r: String)
    ensures
        r@ == missing_error(system, json::opt_text(path)),
{
    match system {
        System::Mac => text::concat3(
            "未找到 CodeBuddy CN 应用（尝试路径: ",
            match path {
                Some(p) => p,
                None => "/Applications/CodeBuddy CN.app",
            },
            "）。请先手动打开一次 CodeBuddy CN 后重试。",
        ),
        System::Windows => text::concat3(
            "未找到 CodeBuddy CN 程序（尝试路径: ",
            match path {
                Some(p) => p,
                None => "%LOCALAPPDATA%\\Programs\\CodeBuddy CN\\CodeBuddy CN.exe",
            },
            "）。请在 Windows 上打开 CodeBuddy CN 后重试。",
        ),
        System::Linux => text::concat3(
            "未找到 CodeBuddy CN 可执行文件（尝试路径: ",
            match path {
                Some(p) => p,
                None => "/usr/bin/codebuddy-cn",
            },
            "）。请先手动打开一次。",
        ),
    }
}

/// What is said where the editor could not be started.
pub open spec fn start_error(reason: Seq<char>, path: Seq<char>) -> Seq<char> {
    "启动 CodeBuddy CN 失败: "@ + reason + "（路径: "@ + path + "）"@
}

/// What is said where the editor could not be started.
pub fn launch_error(reason: &str, path: &str) -> (r: String)
    ensures
        r@ == start_error(reason@, path@),
{
    text::concat3(text::concat3("启动 CodeBuddy CN 失败: ", reason, "（路径: ").as_str(), path, "）")
}

/// Why `open` failed: what it said, else its exit code.
pub open spec fn open_reason(code: Option<i32>, said: Seq<char>) -> Seq<char> {
    if text::trim(said).len() > 0 {
        text::trim(said)
    } else {
        "open 退出码 "@ + text::int_text(
            match code {
                Some(n) => n as int,
                None => -1,
            },
        )
    }
}

/// What came of `open`, with the bytes it wrote to its error stream; nothing where
/// it took too long.
pub fn launch_codebuddy_cn(app: &str, run: Option<(bool, Option<i32>, Vec<u8>)>) -> (r: Result<(), String>)
    ensures
        codebuddy_cli::outcome(r) == (match run {
            Some(x) => if x.0 {
                Ok(())
            } else {
                Err(start_error(open_reason(x.1, log_scan::lossy_text_of(x.2@)), app@))
            },
            None => Err(start_error("open 超时"@, app@)),
        }),
{
    match run {
        Some((success, code, stderr)) => {
            if success {
                return Ok(());
            }
            let said: String = lossy_text(stderr.as_slice());
            let chars: Vec<char> = text::chars_of(said.as_str());
            let t: &[char] = text::trim_slice(chars.as_slice());
            let reason: String = if t.len() > 0 {
                text::text_of(t)
            } else {
                let n: i64 = match code {
                    Some(n) => n as i64,
                    None => -1,
                };
                text::concat("open 退出码 ", text::text_of_i64(n).as_str())
            };
            Err(launch_error(reason.as_str(), app))
        },
        None => Err(launch_error("open 超时", app)),
    }
}

/// What the machine shows of the editor.
pub struct IdeFacts {
    /// The directory of the editor's data, where it can be told, and whether it is there.
    pub data_dir: Option<(String, bool)>,
    /// The editor's database, where it can be told, and whether it is there.
    pub db_path: Option<(String, bool)>,
    /// The editor.
    pub app_path: Option<String>,
    /// Whether it runs.
    pub running: bool,
    /// The file that remembers the account.
    pub state_path: String,
}

/// A path that may not be told, as it is shown.
pub open spec fn place_value(o: Option<(String, bool)>) -> JsonV {
    match o {
        Some(p) => JsonV::Str(p.0@),
        None => JsonV::Null,
    }
}

/// A path is told and there.
pub open spec fn place_there(o: Option<(String, bool)>) -> bool {
    match o {
        Some(p) => p.1,
        None => false,
    }
}

/// The remembered account, where the store still has it.
pub open spec fn known_account(state: JsonV, accounts: Seq<JsonV>) -> Option<(Seq<char>, JsonV)> {
    match remembered(state) {
        Some(id) => match account::found_from(accounts, id, 0) {
            Some(acc) => Some((id, acc)),
            None => None,
        },
        None => None,
    }
}

/// The editor as it is shown.
pub open spec fn ide_status(facts: IdeFacts, state: JsonV, accounts: Seq<JsonV>) -> JsonV {
    let known = known_account(state, accounts);
    JsonV::empty().put(
        "installed"@,
        JsonV::Bool(facts.app_path.is_some() || place_there(facts.data_dir)),
    ).put("running"@, JsonV::Bool(facts.running)).put("dataDir"@, place_value(facts.data_dir)).put(
        "dbPath"@,
        place_value(facts.db_path),
    ).put("dbExists"@, JsonV::Bool(place_there(facts.db_path))).put(
        "appPath"@,
        json::text_or_null(json::opt_string(facts.app_path)),
    ).put(
        "activeAccountId"@,
        match known {
            Some(k) => JsonV::Str(k.0),
            None => JsonV::Null,
        },
    ).put(
        "activeAccountName"@,
        match known {
            Some(k) => JsonV::Str(account::display_name(k.1)),
            None => JsonV::Null,
        },
    ).put("detectedFrom"@, JsonV::Str("state"@)).put("statePath"@, JsonV::Str(facts.state_path@))
}

fn place_json(o: &Option<(String, bool)>) -> (r: Json)
    ensures
        r@ == place_value(*o),
{
    match o {
        Some(p) => Json::text(p.0.as_str()),
        None => Json::Null,
    }
}

fn is_there(o: &Option<(String, bool)>) -> (b: bool)
    ensures
        b == place_there(*o),
{
    match o {
        Some(p) => p.1,
        None => false,
    }
}

/// The editor as it is shown. An account that is remembered but gone from the store
/// is not shown.
pub fn status(facts: &IdeFacts, state: &Json, accounts: &[Json]) -> (r: Json)
    ensures
        r@ == ide_status(*facts, state@, json::list_view(accounts@)),
{
    let (id, name): (Json, Json) = match active_account_id_from_state(state) {
        Some(id) => match account::find_account_in(accounts, id.as_str()) {
            Some(acc) => (Json::Str(id), Json::Str(account::account_display_name(&acc))),
            None => (Json::Null, Json::Null),
        },
        None => (Json::Null, Json::Null),
    };
    Json::object().put("installed", Json::Bool(facts.app_path.is_some() || is_there(&facts.data_dir))).put(
        "running",
        Json::Bool(facts.running),
    ).put("dataDir", place_json(&facts.data_dir)).put("dbPath", place_json(&facts.db_path)).put(
        "dbExists",
        Json::Bool(is_there(&facts.db_path)),
    ).put("appPath", Json::opt_text(borrowed(&facts.app_path))).put("activeAccountId", id).put(
        "activeAccountName",
        name,
    ).put("detectedFrom", Json::text("state")).put("statePath", Json::text(facts.state_path.as_str()))
}

/// The account to hand to the editor, or why it cannot be.
pub open spec fn handed_account(
    accounts: Seq<JsonV>,
    id: Seq<char>,
    data_dir: Option<(String, bool)>,
) -> Result<JsonV, Seq<char>> {
    match account::found_from(accounts, id, 0) {
        Some(acc) => if account::str_of(acc, "access_token"@).is_none() {
            Err("账号缺少 access_token，无法注入 CodeBuddy CN"@)
        } else {
            match data_dir {
                Some(d) => if d.1 {
                    Ok(acc)
                } else {
                    Err(
                        "未找到 CodeBuddy CN 用户数据目录（"@ + d.0@
                            + "）。请先手动打开 CodeBuddy CN 并登录一次。"@,
                    )
                },
                None => Err("无法定位 CodeBuddy CN 数据目录"@),
            }
        },
        None => Err("账号不存在: "@ + id),
    }
}

/// Begins handing an account to the editor: all that can be refused is refused here,
/// before the editor is closed. `data_dir` is the directory of its data and whether
/// that is there.
pub fn switch_account(accounts: &[Json], account_id: &str, data_dir: &Option<(String, bool)>) -> (r: Result<
    Json,
    String,
>)
    ensures
        json::parse_view(r) == handed_account(json::list_view(accounts@), account_id@, *data_dir),
{
    let acc: Json = match account::find_account_in(accounts, account_id) {
        Some(acc) => acc,
        None => {
            return Err(text::concat("账号不存在: ", account_id));
        },
    };
    if get_str(&acc, "access_token").is_none() {
        return Err("账号缺少 access_token，无法注入 CodeBuddy CN".to_owned());
    }
    match data_dir {
        Some(d) => {
            if d.1 {
                Ok(acc)
            } else {
                Err(
                    text::concat3(
                        "未找到 CodeBuddy CN 用户数据目录（",
                        d.0.as_str(),
                        "）。请先手动打开 CodeBuddy CN 并登录一次。",
                    ),
                )
            }
        },
        None => Err("无法定位 CodeBuddy CN 数据目录".to_owned()),
    }
}

/// A step of handing an account to the editor.
pub enum IdeStep {
    /// Close the editor.
    Close,
    /// Write the session into it.
    Inject,
    /// Remember the account.
    Remember,
    /// Start the editor.
    Launch,
    /// The account is handed over.
    Done,
    /// It is not.
    Failed(String),
}

/// A step of handing an account to the editor.
#[verifier::ext_equal]
pub enum IdeStepV {
    Close,
    Inject,
    Remember,
    Launch,
    Done,
    Failed(Seq<char>),
}

impl IdeStep {
    pub open spec fn view(&self) -> IdeStepV {
        match self {
            IdeStep::Close => IdeStepV::Close,
            IdeStep::Inject => IdeStepV::Inject,
            IdeStep::Remember => IdeStepV::Remember,
            IdeStep::Launch => IdeStepV::Launch,
            IdeStep::Done => IdeStepV::Done,
            IdeStep::Failed(e) => IdeStepV::Failed(e@),
        }
    }
}

/// The first step.
pub fn first_step(restart: bool) -> (r: IdeStep)
    ensures
        r@ == (if restart {
            IdeStepV::Close
        } else {
            IdeStepV::Inject
        }),
{
    if restart {
        IdeStep::Close
    } else {
        IdeStep::Inject
    }
}

/// What is said where the session could not be written.
pub open spec fn inject_error(said: Seq<char>) -> Seq<char> {
    if text::has(said, "Safe Storage"@) || text::has(said, "Keychain"@) {
        "注入登录状态失败："@ + said
            + "\n\n请先手动打开 CodeBuddy CN 并登录一次，确保 Keychain 中存在「CodeBuddy CN Safe Storage」条目后再试。"@
    } else {
        said
    }
}

/// What comes after a step of handing an account over.
pub open spec fn ide_next(step: IdeStepV, restart: bool, report: Result<(), Seq<char>>) -> IdeStepV {
    match report {
        Err(said) => match step {
            IdeStepV::Inject => IdeStepV::Failed(inject_error(said)),
            IdeStepV::Done => IdeStepV::Done,
            IdeStepV::Failed(e) => IdeStepV::Failed(e),
            _ => IdeStepV::Failed(said),
        },
        Ok(_) => match step {
            IdeStepV::Close => IdeStepV::Inject,
            IdeStepV::Inject => IdeStepV::Remember,
            IdeStepV::Remember => if restart {
                IdeStepV::Launch
            } else {
                IdeStepV::Done
            },
            IdeStepV::Launch => IdeStepV::Done,
            _ => step,
        },
    }
}

/// What comes after a step of handing an account over.
pub fn switch_account_next(step: IdeStep, restart: bool, report: Result<(), String>) -> (r: IdeStep)
    ensures
        r@ == ide_next(step@, restart, codebuddy_cli::outcome(report)),
{
    match report {
        Err(said) => match step {
            IdeStep::Inject => {
                if text::contains_text(said.as_str(), "Safe Storage") || text::contains_text(said.as_str(), "Keychain") {
                    IdeStep::Failed(
                        text::concat3(
                            "注入登录状态失败：",
                            said.as_str(),
                            "\n\n请先手动打开 CodeBuddy CN 并登录一次，确保 Keychain 中存在「CodeBuddy CN Safe Storage」条目后再试。",
                        ),
                    )
                } else {
                    IdeStep::Failed(said)
                }
            },
            IdeStep::Done => IdeStep::Done,
            IdeStep::Failed(e) => IdeStep::Failed(e),
            _ => IdeStep::Failed(said),
        },
        Ok(_) => match step {
            IdeStep::Close => IdeStep::Inject,
            IdeStep::Inject => IdeStep::Remember,
            IdeStep::Remember => {
                if restart {
                    IdeStep::Launch
                } else {
                    IdeStep::Done
                }
            },
            IdeStep::Launch => IdeStep::Done,
            IdeStep::Done => IdeStep::Done,
            IdeStep::Failed(e) => IdeStep::Failed(e),
        },
    }
}

/// An account is remembered only after its session was written, and the editor is
/// started only where it was closed.
pub proof fn session_is_written_first(step: IdeStepV, restart: bool, report: Result<(), Seq<char>>)
    ensures
        ide_next(step, restart, report) is Remember ==> step is Inject && report is Ok,
        ide_next(step, restart, report) is Launch ==> restart && step is Remember && report is Ok,
        ide_next(step, restart, report) is Close ==> false,
{
}

/// The answer after handing an account over.
pub open spec fn switch_answer_of(acc: JsonV, id: Seq<char>, db: Seq<char>, restart: bool) -> JsonV {
    let name = account::display_name(acc);
    JsonV::empty().put("ok"@, JsonV::Bool(true)).put("account"@, JsonV::Str(name)).put(
        "accountId"@,
        JsonV::Str(id),
    ).put("dbPath"@, JsonV::Str(db)).put("restarted"@, JsonV::Bool(restart)).put(
        "message"@,
        JsonV::Str(
            if restart {
                "已切换 CodeBuddy IDE 到 "@ + name + " 并重启"@
            } else {
                "已写入 CodeBuddy IDE 凭证（"@ + name + "）；请手动重启 CodeBuddy CN 生效"@
            },
        ),
    )
}

/// The answer after handing an account over; `db_path` is where its session was written.
pub fn switch_answer(acc: &Json, account_id: &str, db_path: &str, restart: bool) -> (r: Json)
    ensures
        r@ == switch_answer_of(acc@, account_id@, db_path@, restart),
{
    let name: String = account::account_display_name(acc);
    let message: String = if restart {
        text::concat3("已切换 CodeBuddy IDE 到 ", name.as_str(), " 并重启")
    } else {
        text::concat3("已写入 CodeBuddy IDE 凭证（", name.as_str(), "）；请手动重启 CodeBuddy CN 生效")
    };
    Json::object().put("ok", Json::Bool(true)).put("account", Json::text(name.as_str())).put(
        "accountId",
        Json::text(account_id),
    ).put("dbPath", Json::text(db_path)).put("restarted", Json::Bool(restart)).put("message", Json::Str(message))
}

/// What the editor's secret shows: the answer, and the account to remember.
pub open spec fn detected(uid: Option<Seq<char>>, owner: Option<JsonV>) -> (JsonV, Option<Seq<char>>) {
    let base = JsonV::empty().put("ok"@, JsonV::Bool(true)).put("found"@, JsonV::Bool(true));
    match owner {
        Some(acc) => {
            let id = member(acc, "id"@);
            (
                base.put("matched"@, JsonV::Bool(true)).put("accountId"@, JsonV::Str(id)).put(
                    "account"@,
                    account::meta(acc),
                ).put("uid"@, json::text_or_null(uid)),
                Some(id),
            )
        },
        None => (
            base.put("matched"@, JsonV::Bool(false)).put("uid"@, json::text_or_null(uid)).put(
                "message"@,
                JsonV::Str(
                    "本机已登录 CodeBuddy CN，但账号库中无匹配账号；可先用「从本机导入」或扫码登录同步账号后再切换。"@,
                ),
            ),
            None,
        ),
    }
}

/// What a secret shows.
pub open spec fn detection(parts: Option<(Option<Seq<char>>, Seq<char>)>, accounts: Seq<JsonV>) -> Result<
    (JsonV, Option<Seq<char>>),
    Seq<char>,
> {
    match parts {
        Some(p) => Ok(detected(p.0, owner_of(accounts, p.0, p.1))),
        None => Err("本地 CodeBuddy CN 登录信息解析失败"@),
    }
}

/// What is shown where the editor has no secret.
pub open spec fn no_secret() -> JsonV {
    JsonV::empty().put("ok"@, JsonV::Bool(true)).put("found"@, JsonV::Bool(false)).put(
        "message"@,
        JsonV::Str("本机 CodeBuddy CN 未找到登录 secret"@),
    )
}

/// What a secret was found to show.
pub open spec fn detection_view(r: Result<(Json, Option<String>), String>) -> Result<
    (JsonV, Option<Seq<char>>),
    Seq<char>,
> {
    match r {
        Ok(p) => Ok((p.0@, json::opt_string(p.1))),
        Err(e) => Err(e@),
    }
}

/// What the uid and token of a secret show: the answer, and the account to remember.
pub fn detect_account(parts: &Option<(Option<String>, String)>, accounts: &[Json]) -> (r: Result<
    (Json, Option<String>),
    String,
>)
    ensures
        detection_view(r) == detection(parts_view(*parts), json::list_view(accounts@)),
{
    let (uid, token): (Option<&str>, &str) = match parts {
        Some(p) => (borrowed(&p.0), p.1.as_str()),
        None => {
            return Err("本地 CodeBuddy CN 登录信息解析失败".to_owned());
        },
    };
    let base: Json = Json::object().put("ok", Json::Bool(true)).put("found", Json::Bool(true));
    match match_account_for_token(accounts, uid, token) {
        Some(acc) => {
            let id: String = member_of(&acc, "id");
            let answer: Json = base.put("matched", Json::Bool(true)).put("accountId", Json::text(id.as_str())).put(
                "account",
                account::account_meta(&acc),
            ).put("uid", Json::opt_text(uid));
            Ok((answer, Some(id)))
        },
        None => {
            let answer: Json = base.put("matched", Json::Bool(false)).put("uid", Json::opt_text(uid)).put(
                "message",
                Json::text(
                    "本机已登录 CodeBuddy CN，但账号库中无匹配账号；可先用「从本机导入」或扫码登录同步账号后再切换。",
                ),
            );
            Ok((answer, None))
        },
    }
}

/// What the editor's secret, where it has one, shows: the answer, and the account to
/// remember.
pub fn detect_current_account(secret: Option<&str>, accounts: &[Json]) -> (r: Result<(Json, Option<String>), String>)
    ensures
        detection_view(r) == (match json::opt_text(secret) {
            Some(s) => detection(secret_parts(s), json::list_view(accounts@)),
            None => Ok((no_secret(), None)),
        }),
{
    match secret {
        Some(s) => detect_account(&parse_token_from_secret(s), accounts),
        None => {
            let answer: Json = Json::object().put("ok", Json::Bool(true)).put("found", Json::Bool(false)).put(
                "message",
                Json::text("本机 CodeBuddy CN 未找到登录 secret"),
            );
            Ok((answer, None))
        },
    }
}

} // verus!
