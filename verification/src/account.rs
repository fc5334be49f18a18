//! The account store: finding, collecting, deleting and showing accounts.
//!
//! An account is a JSON object. Its tokens are plain strings or, since WorkBuddy
//! 5.6, envelopes that only the client can open; an envelope is an object with a
//! member `$wbEncrypted`.
use vstd::prelude::*;
use crate::auth_file;
use crate::ids;
use crate::json;
use crate::json::{Json, JsonV};
use crate::paths;
use crate::text;
use crate::textmap::TextMap;
use crate::variant;
use crate::variant::WbVariant;

verus! {

/// The trimmed string under `key`; a blank one counts as none.
pub open spec fn str_of(v: JsonV, key: Seq<char>) -> Option<Seq<char>> {
    match v.get_str(key) {
        Some(s) => if text::trim(s).len() > 0 {
            Some(text::trim(s))
        } else {
            None
        },
        None => None,
    }
}

/// The trimmed string under `key`; a blank one counts as none.
pub fn get_str(v: &Json, key: &str) -> (r: Option<String>)
    ensures
        json::opt_string(r) == str_of(v@, key@),
{
    match v.get_str(key) {
        Some(s) => {
            let t: String = text::trimmed(s);
            if t.as_str().is_empty() {
                None
            } else {
                Some(t)
            }
        },
        None => None,
    }
}

/// The member is an envelope.
pub open spec fn envelope(v: JsonV, key: Seq<char>) -> bool {
    match v.get(key) {
        Some(JsonV::Obj(m)) => m.contains_key("$wbEncrypted"@),
        _ => false,
    }
}

pub fn is_envelope(v: &Json, key: &str) -> (b: bool)
    ensures
        b == envelope(v@, key@),
{
    match v.get(key) {
        Some(j) => j.is_obj() && j.get("$wbEncrypted").is_some(),
        None => false,
    }
}

/// The account has a plain access token that is not expired at `now`; without
/// an expiry time it counts as valid.
pub open spec fn plain_token(acc: JsonV, now: int) -> bool {
    match acc.get_str("access_token"@) {
        Some(s) => text::trim(s).len() > 0 && (match acc.get_i64("expiresAt"@) {
            Some(exp) => exp > now,
            None => true,
        }),
        None => false,
    }
}

pub fn has_unexpired_plain_token(acc: &Json, now: i64) -> (b: bool)
    ensures
        b == plain_token(acc@, now as int),
{
    match acc.get_str("access_token") {
        Some(s) => {
            if text::trimmed(s).as_str().is_empty() {
                return false;
            }
            match acc.get_i64("expiresAt") {
                Some(exp) => exp > now,
                None => true,
            }
        },
        None => false,
    }
}

/// The account bears that id or that uid.
pub open spec fn answers_to(acc: JsonV, key: Seq<char>) -> bool {
    acc.get_str("id"@) == Some(key) || acc.get_str("uid"@) == Some(key)
}

/// The first account from `i` on that bears that id or uid.
pub open spec fn found_from(accounts: Seq<JsonV>, key: Seq<char>, i: int) -> Option<JsonV>
    decreases accounts.len() - i,
{
    if i < 0 || i >= accounts.len() {
        None
    } else if answers_to(accounts[i], key) {
        Some(accounts[i])
    } else {
        found_from(accounts, key, i + 1)
    }
}

fn text_is(o: Option<&str>, t: &str) -> (b: bool)
    ensures
        b == (json::opt_text(o) == Some(t@)),
{
    match o {
        Some(s) => text::same(s, t),
        None => false,
    }
}

/// The value of an optional JSON value.
pub open spec fn opt_json(o: Option<Json>) -> Option<JsonV> {
    match o {
        Some(j) => Some(j@),
        None => None,
    }
}

/// The first account that bears the given id or uid.
pub fn find_account_in(accounts: &[Json], account_id: &str) -> (r: Option<Json>)
    ensures
        opt_json(r) == found_from(json::list_view(accounts@), account_id@, 0),
{
    let ghost all = json::list_view(accounts@);
    let mut i: usize = 0;
    while i < accounts.len()
        invariant
            i <= accounts@.len(),
            all == json::list_view(accounts@),
            found_from(all, account_id@, 0) == found_from(all, account_id@, i as int),
        decreases accounts@.len() - i,
    {
        if text_is(accounts[i].get_str("id"), account_id) || text_is(accounts[i].get_str("uid"), account_id) {
            return Some(accounts[i].clone());
        }
        i += 1;
    }
    None
}

/// The accounts whose id is not the given one.
pub open spec fn without_id(accounts: Seq<JsonV>, id: Seq<char>) -> Seq<JsonV>
    decreases accounts.len(),
{
    if accounts.len() == 0 {
        Seq::empty()
    } else {
        let rest = without_id(accounts.subrange(0, accounts.len() - 1), id);
        if accounts[accounts.len() - 1].get_str("id"@) == Some(id) {
            rest
        } else {
            rest.push(accounts[accounts.len() - 1])
        }
    }
}

proof fn without_id_len(accounts: Seq<JsonV>, id: Seq<char>)
    ensures
        without_id(accounts, id).len() <= accounts.len(),
        without_id(accounts, id).len() == accounts.len() <==> forall|i: int|
            0 <= i < accounts.len() ==> (#[trigger] accounts[i]).get_str("id"@) != Some(id),
    decreases accounts.len(),
{
    if accounts.len() > 0 {
        let n = accounts.len() - 1;
        let t = accounts.subrange(0, n);
        without_id_len(t, id);
        if forall|i: int| 0 <= i < accounts.len() ==> (#[trigger] accounts[i]).get_str("id"@) != Some(id) {
            assert forall|i: int| 0 <= i < t.len() implies (#[trigger] t[i]).get_str("id"@) != Some(id) by {
                assert(t[i] == accounts[i]);
            }
        }
        if without_id(accounts, id).len() == accounts.len() {
            assert forall|i: int| 0 <= i < accounts.len() implies (#[trigger] accounts[i]).get_str("id"@) != Some(
                id,
            ) by {
                if i < n {
                    assert(t[i] == accounts[i]);
                }
            }
        }
    }
}

/// After a deletion no account bears the id, and the accounts with other ids
/// are those that were there.
pub proof fn delete_removes_id(accounts: Seq<JsonV>, id: Seq<char>)
    ensures
        forall|i: int|
            0 <= i < without_id(accounts, id).len() ==> (#[trigger] without_id(accounts, id)[i]).get_str("id"@)
                != Some(id),
        forall|a: JsonV|
            a.get_str("id"@) != Some(id) ==> (without_id(accounts, id).contains(a) <==> accounts.contains(a)),
    decreases accounts.len(),
{
    if accounts.len() > 0 {
        let n = accounts.len() - 1;
        let t = accounts.subrange(0, n);
        let kept = without_id(accounts, id);
        let rest = without_id(t, id);
        delete_removes_id(t, id);
        assert forall|a: JsonV| a.get_str("id"@) != Some(id) implies (kept.contains(a) <==> accounts.contains(a)) by {
            if accounts.contains(a) {
                let k = choose|k: int| 0 <= k < accounts.len() && accounts[k] == a;
                if k < n {
                    assert(t[k] == a);
                    assert(t.contains(a));
                    let m = choose|m: int| 0 <= m < rest.len() && rest[m] == a;
                    assert(kept[m] == a);
                } else {
                    assert(kept[rest.len() as int] == a);
                }
            }
            if kept.contains(a) {
                let m = choose|m: int| 0 <= m < kept.len() && kept[m] == a;
                if m < rest.len() {
                    assert(rest[m] == a);
                    assert(rest.contains(a));
                    assert(t.contains(a));
                    let k = choose|k: int| 0 <= k < t.len() && t[k] == a;
                    assert(accounts[k] == a);
                } else {
                    assert(accounts[n] == a);
                }
            }
        }
        assert forall|i: int| 0 <= i < kept.len() implies (#[trigger] kept[i]).get_str("id"@) != Some(id) by {
            if i < rest.len() {
                assert(kept[i] == rest[i]);
            }
        }
    }
}

/// Deletes the accounts with the given id; an error where there is none.
pub fn delete_account(accounts: &[Json], account_id: &str) -> (r: Result<Vec<Json>, String>)
    ensures
        match r {
            Ok(kept) => json::list_view(kept@) == without_id(json::list_view(accounts@), account_id@) && exists|i: int|
                0 <= i < accounts@.len() && (#[trigger] accounts@[i])@.get_str("id"@) == Some(account_id@),
            Err(e) => e@ == "账号不存在"@ && forall|i: int|
                0 <= i < accounts@.len() ==> (#[trigger] accounts@[i])@.get_str("id"@) != Some(account_id@),
        },
{
    let ghost all = json::list_view(accounts@);
    let mut kept: Vec<Json> = Vec::new();
    let mut i: usize = 0;
    assert(json::list_view(kept@) =~= without_id(all.subrange(0, 0), account_id@));
    while i < accounts.len()
        invariant
            i <= accounts@.len(),
            all == json::list_view(accounts@),
            kept@.len() <= i,
            json::list_view(kept@) == without_id(all.subrange(0, i as int), account_id@),
        decreases accounts@.len() - i,
    {
        assert(all.subrange(0, i + 1).subrange(0, i as int) =~= all.subrange(0, i as int));
        if !text_is(accounts[i].get_str("id"), account_id) {
            let ghost held = kept@;
            kept.push(accounts[i].clone());
            assert(json::list_view(kept@) =~= json::list_view(held).push(all[i as int]));
        }
        i += 1;
    }
    assert(all.subrange(0, all.len() as int) =~= all);
    proof {
        without_id_len(all, account_id@);
        assert(json::list_view(kept@).len() == kept@.len());
        assert(forall|k: int| 0 <= k < accounts@.len() ==> all[k] == (#[trigger] accounts@[k])@);
    }
    if kept.len() == accounts.len() {
        proof {
            assert forall|k: int| 0 <= k < accounts@.len() implies (#[trigger] accounts@[k])@.get_str("id"@) != Some(
                account_id@,
            ) by {
                assert(all[k].get_str("id"@) != Some(account_id@));
            }
        }
        Err("账号不存在".to_owned())
    } else {
        Ok(kept)
    }
}

/// The path of the account store under a root directory.
pub fn accounts_file_in(store_root: &str) -> (r: String)
    ensures
        r@ == paths::joined(store_root@, "accounts.json"@),
{
    paths::join(store_root, "accounts.json")
}

/// The first of two optional texts that is there.
pub open spec fn first_of(a: Option<Seq<char>>, b: Option<Seq<char>>) -> Option<Seq<char>> {
    match a {
        Some(x) => Some(x),
        None => b,
    }
}

/// The name by which an account is shown.
pub open spec fn display_name(acc: JsonV) -> Seq<char> {
    match first_of(str_of(acc, "email"@), first_of(str_of(acc, "nickname"@), str_of(acc, "uid"@))) {
        Some(s) => s,
        None => "unknown"@,
    }
}

/// The name by which an account is shown: e-mail, else nickname, else uid.
pub fn account_display_name(acc: &Json) -> (r: String)
    ensures
        r@ == display_name(acc@),
{
    match get_str(acc, "email") {
        Some(s) => s,
        None => match get_str(acc, "nickname") {
            Some(s) => s,
            None => match get_str(acc, "uid") {
                Some(s) => s,
                None => "unknown".to_owned(),
            },
        },
    }
}

/// A member that may be shown: a scalar as it is, anything else as `Null`.
pub open spec fn shown(acc: JsonV, key: Seq<char>) -> JsonV {
    match acc.get(key) {
        Some(JsonV::Obj(_)) => JsonV::Null,
        Some(JsonV::Arr(_)) => JsonV::Null,
        Some(v) => v,
        None => JsonV::Null,
    }
}

/// A member that may be shown: a scalar as it is, anything else (such as an
/// envelope) as `Null`.
pub fn display_value(acc: &Json, key: &str) -> (r: Json)
    ensures
        r@ == shown(acc@, key@),
{
    match acc.get(key) {
        Some(Json::Obj(_)) => Json::Null,
        Some(Json::Arr(_)) => Json::Null,
        Some(v) => v.clone(),
        None => Json::Null,
    }
}

/// A secret: a string that is not blank, or an envelope.
pub open spec fn secret(v: JsonV, key: Seq<char>) -> Option<JsonV> {
    match v.get(key) {
        Some(JsonV::Str(s)) => if text::trim(s).len() > 0 {
            Some(JsonV::Str(s))
        } else {
            None
        },
        Some(JsonV::Obj(m)) => if m.contains_key("$wbEncrypted"@) {
            Some(JsonV::Obj(m))
        } else {
            None
        },
        _ => None,
    }
}

/// A secret as it stands: a string that is not blank, or an envelope, which
/// must be passed on unopened.
pub fn secret_value(v: &Json, key: &str) -> (r: Option<Json>)
    ensures
        opt_json(r) == secret(v@, key@),
{
    match v.get(key) {
        Some(j) => match j {
            Json::Str(s) => {
                if text::trimmed(s.as_str()).as_str().is_empty() {
                    None
                } else {
                    Some(j.clone())
                }
            },
            Json::Obj(_) => {
                if j.get("$wbEncrypted").is_some() {
                    Some(j.clone())
                } else {
                    None
                }
            },
            _ => None,
        },
        None => None,
    }
}

/// The edition of an account.
pub fn variant_of(acc: &Json) -> (v: WbVariant)
    ensures
        v == variant::variant_in(acc@),
{
    WbVariant::from_account(acc)
}

/// What may be shown of an account.
pub open spec fn meta(acc: JsonV) -> JsonV {
    JsonV::empty().put("id"@, shown(acc, "id"@)).put("uid"@, shown(acc, "uid"@)).put(
        "email"@,
        shown(acc, "email"@),
    ).put("nickname"@, shown(acc, "nickname"@)).put("enterpriseName"@, shown(acc, "enterpriseName"@)).put(
        "expiresAt"@,
        shown(acc, "expiresAt"@),
    ).put("refreshExpiresAt"@, shown(acc, "refreshExpiresAt"@)).put(
        "refreshedAt"@,
        shown(acc, "refreshedAt"@),
    ).put("createdAt"@, shown(acc, "createdAt"@)).put(
        "needsRelogin"@,
        JsonV::Bool(acc.get_bool("needs_relogin"@) == Some(true)),
    ).put("needsReloginReason"@, shown(acc, "needs_relogin_reason"@)).put(
        "variant"@,
        JsonV::Str(variant::variant_in(acc).name()),
    )
}

/// What may be shown of an account: no token, and no member that is not a scalar.
pub fn account_meta(acc: &Json) -> (r: Json)
    ensures
        r@ == meta(acc@),
{
    let relogin: bool = match acc.get_bool("needs_relogin") {
        Some(b) => b,
        None => false,
    };
    Json::object().put("id", display_value(acc, "id")).put("uid", display_value(acc, "uid")).put(
        "email",
        display_value(acc, "email"),
    ).put("nickname", display_value(acc, "nickname")).put("enterpriseName", display_value(acc, "enterpriseName")).put(
        "expiresAt",
        display_value(acc, "expiresAt"),
    ).put("refreshExpiresAt", display_value(acc, "refreshExpiresAt")).put(
        "refreshedAt",
        display_value(acc, "refreshedAt"),
    ).put("createdAt", display_value(acc, "createdAt")).put("needsRelogin", Json::Bool(relogin)).put(
        "needsReloginReason",
        display_value(acc, "needs_relogin_reason"),
    ).put("variant", Json::text(variant_of(acc).as_str()))
}

/// What is shown of an account holds neither token, and no object or array.
pub proof fn meta_shows_no_token(acc: JsonV)
    ensures
        meta(acc).get("access_token"@) is None,
        meta(acc).get("refresh_token"@) is None,
        meta(acc).get("auth_raw"@) is None,
        forall|key: Seq<char>| #[trigger]
            meta(acc).get(key) is Some ==> !(meta(acc).get(key)->0 is Obj) && !(meta(acc).get(key)->0 is Arr),
{
    reveal_strlit("access_token");
    reveal_strlit("refresh_token");
    reveal_strlit("auth_raw");
    reveal_strlit("id");
    reveal_strlit("uid");
    reveal_strlit("email");
    reveal_strlit("nickname");
    reveal_strlit("enterpriseName");
    reveal_strlit("expiresAt");
    reveal_strlit("refreshExpiresAt");
    reveal_strlit("refreshedAt");
    reveal_strlit("createdAt");
    reveal_strlit("needsRelogin");
    reveal_strlit("needsReloginReason");
    reveal_strlit("variant");
    assert("access_token"@[0] != "needsRelogin"@[0]);
    assert("auth_raw"@[0] != "nickname"@[0]);
    assert("refresh_token"@.len() == 13);
    assert("id"@.len() == 2 && "uid"@.len() == 3 && "email"@.len() == 5 && "nickname"@.len() == 8);
    assert("enterpriseName"@.len() == 14 && "expiresAt"@.len() == 9 && "refreshExpiresAt"@.len() == 16);
    assert("refreshedAt"@.len() == 11 && "createdAt"@.len() == 9 && "needsRelogin"@.len() == 12);
    assert("needsReloginReason"@.len() == 18 && "variant"@.len() == 7);
}

/// The collected account with the edition of the stored one, where it has none itself.
pub open spec fn with_variant(existing: JsonV, collected: JsonV) -> JsonV {
    match (str_of(collected, "variant"@), str_of(existing, "variant"@)) {
        (None, Some(v)) => collected.put("variant"@, JsonV::Str(v)),
        _ => collected,
    }
}

/// The collected account can take what edition it gets from the stored one.
pub open spec fn takes_variant(existing: JsonV, collected: JsonV) -> bool {
    collected is Obj || collected is Null || str_of(existing, "variant"@) is None
}

/// The collected account with the edition of the stored one, where it has none itself.
fn inherit_existing_variant(existing: &Json, collected: Json) -> (r: Json)
    requires
        takes_variant(existing@, collected@),
    ensures
        r@ == with_variant(existing@, collected@),
{
    match (get_str(&collected, "variant"), get_str(existing, "variant")) {
        (None, Some(v)) => collected.put("variant", Json::Str(v)),
        _ => collected,
    }
}

/// An e-mail address that may identify an account: it has an `@`, and is
/// neither a placeholder nor the account's own nickname or uid.
pub open spec fn identity_of(acc: JsonV) -> Option<Seq<char>> {
    match str_of(acc, "email"@) {
        None => None,
        Some(e) => if !text::has(e, "@"@) || text::lower(e) == "unknown"@ || e == "手动添加"@ || str_of(
            acc,
            "nickname"@,
        ) == Some(e) || str_of(acc, "uid"@) == Some(e) {
            None
        } else {
            Some(text::lower(e))
        },
    }
}

fn string_is(o: &Option<String>, t: &str) -> (b: bool)
    ensures
        b == (json::opt_string(*o) == Some(t@)),
{
    match o {
        Some(s) => text::same(s.as_str(), t),
        None => false,
    }
}

/// An e-mail address that may identify an account, in lower case.
pub fn identity_email(acc: &Json) -> (r: Option<String>)
    ensures
        json::opt_string(r) == identity_of(acc@),
{
    match get_str(acc, "email") {
        None => None,
        Some(e) => {
            let lower: String = text::to_lower(e.as_str());
            if !text::contains_text(e.as_str(), "@") || text::same(lower.as_str(), "unknown") || text::same(
                e.as_str(),
                "手动添加",
            ) || string_is(&get_str(acc, "nickname"), e.as_str()) || string_is(&get_str(acc, "uid"), e.as_str()) {
                None
            } else {
                Some(lower)
            }
        },
    }
}

/// A stored account is the collected one: it has the same uid or, where the
/// collected account has none, the same e-mail address.
pub open spec fn same_identity(existing: JsonV, collected: JsonV) -> bool {
    match str_of(collected, "uid"@) {
        Some(uid) => str_of(existing, "uid"@) == Some(uid),
        None => identity_of(collected) is Some && identity_of(existing) == identity_of(collected),
    }
}

fn is_same_identity(existing: &Json, collected: &Json) -> (b: bool)
    ensures
        b == same_identity(existing@, collected@),
{
    match get_str(collected, "uid") {
        Some(uid) => string_is(&get_str(existing, "uid"), uid.as_str()),
        None => match identity_email(collected) {
            Some(email) => string_is(&identity_email(existing), email.as_str()),
            None => false,
        },
    }
}

/// The first stored account from `i` on that is the collected one.
pub open spec fn match_from(accounts: Seq<JsonV>, collected: JsonV, i: int) -> Option<int>
    decreases accounts.len() - i,
{
    if i < 0 || i >= accounts.len() {
        None
    } else if same_identity(accounts[i], collected) {
        Some(i)
    } else {
        match_from(accounts, collected, i + 1)
    }
}

/// A shown member that was collected as an envelope keeps its stored value.
pub open spec fn keep_shown(existing: JsonV, collected: JsonV, key: Seq<char>) -> JsonV {
    match existing.get(key) {
        Some(v) => if envelope(collected, key) {
            collected.put(key, v)
        } else {
            collected
        },
        None => collected,
    }
}

/// A member is taken from the stored account, where it has it.
pub open spec fn keep_stored(existing: JsonV, collected: JsonV, key: Seq<char>) -> JsonV {
    match existing.get(key) {
        Some(v) => collected.put(key, v),
        None => collected,
    }
}

/// The collected account in place of the stored one: the stored id, creation
/// time and edition stay, and a uid where none was collected.
pub open spec fn recollected(existing: JsonV, collected: JsonV) -> JsonV {
    let c = keep_shown(existing, collected, "nickname"@);
    let c = keep_shown(existing, c, "email"@);
    let c = keep_shown(existing, c, "enterpriseName"@);
    let c = keep_stored(existing, c, "id"@);
    let c = if str_of(c, "uid"@) is None {
        keep_stored(existing, c, "uid"@)
    } else {
        c
    };
    let c = keep_stored(existing, c, "createdAt"@);
    with_variant(existing, c)
}

/// The accounts that are not the collected one.
pub open spec fn others(accounts: Seq<JsonV>, collected: JsonV) -> Seq<JsonV>
    decreases accounts.len(),
{
    if accounts.len() == 0 {
        Seq::empty()
    } else {
        let rest = others(accounts.subrange(0, accounts.len() - 1), collected);
        if same_identity(accounts[accounts.len() - 1], collected) {
            rest
        } else {
            rest.push(accounts[accounts.len() - 1])
        }
    }
}

/// A collected envelope must not replace a plain token that is still valid.
pub open spec fn protected(existing: JsonV, collected: JsonV, now: int) -> bool {
    envelope(collected, "access_token"@) && plain_token(existing, now)
}

/// The accounts and the account as stored, after one was collected.
pub open spec fn upserted(accounts: Seq<JsonV>, collected: JsonV, now: int) -> (Seq<JsonV>, JsonV) {
    match match_from(accounts, collected, 0) {
        None => (accounts.push(collected), collected),
        Some(i) => if protected(accounts[i], collected, now) {
            (accounts, accounts[i])
        } else {
            let c = recollected(accounts[i], collected);
            (
                accounts.subrange(0, i).push(c) + others(
                    accounts.subrange(i + 1, accounts.len() as int),
                    collected,
                ),
                c,
            )
        },
    }
}

fn keep_shown_member(existing: &Json, collected: Json, key: &str) -> (r: Json)
    requires
        collected@ is Obj,
    ensures
        r@ == keep_shown(existing@, collected@, key@),
        r@ is Obj,
{
    match existing.get(key) {
        Some(v) => {
            if is_envelope(&collected, key) {
                collected.put(key, v.clone())
            } else {
                collected
            }
        },
        None => collected,
    }
}

fn keep_stored_member(existing: &Json, collected: Json, key: &str) -> (r: Json)
    requires
        collected@ is Obj,
    ensures
        r@ == keep_stored(existing@, collected@, key@),
        r@ is Obj,
{
    match existing.get(key) {
        Some(v) => collected.put(key, v.clone()),
        None => collected,
    }
}

fn recollect(existing: &Json, collected: Json) -> (r: Json)
    requires
        collected@ is Obj,
    ensures
        r@ == recollected(existing@, collected@),
{
    let c: Json = keep_shown_member(existing, collected, "nickname");
    let c: Json = keep_shown_member(existing, c, "email");
    let c: Json = keep_shown_member(existing, c, "enterpriseName");
    let c: Json = keep_stored_member(existing, c, "id");
    let c: Json = if get_str(&c, "uid").is_none() {
        keep_stored_member(existing, c, "uid")
    } else {
        c
    };
    let c: Json = keep_stored_member(existing, c, "createdAt");
    inherit_existing_variant(existing, c)
}

/// Puts a collected account into the list and returns it as stored.
///
/// An account is recognised by its uid or, where the collected account has
/// none, by its e-mail address. Duplicates of it go. A collected envelope does
/// not replace a plain token that is valid at `now`.
pub fn upsert_collected_account(accounts: &mut Vec<Json>, collected: Json, now: i64) -> (r: Json)
    ensures
        (json::list_view(final(accounts)@), r@) == upserted(
            json::list_view(old(accounts)@),
            collected@,
            now as int,
        ),
{
    let ghost all = json::list_view(accounts@);
    let ghost held = accounts@;
    let ghost who = collected@;
    let mut first: usize = 0;
    while first < accounts.len() && !is_same_identity(&accounts[first], &collected)
        invariant
            first <= accounts@.len(),
            accounts@ == held,
            all == json::list_view(held),
            who == collected@,
            match_from(all, who, 0) == match_from(all, who, first as int),
        decreases accounts@.len() - first,
    {
        first += 1;
    }
    if first == accounts.len() {
        accounts.push(collected.clone());
        assert(json::list_view(accounts@) =~= all.push(who));
        return collected;
    }
    assert(all[first as int] == held[first as int]@);
    if is_envelope(&collected, "access_token") && has_unexpired_plain_token(&accounts[first], now) {
        return accounts[first].clone();
    }
    let stored: Json = recollect(&accounts[first], collected.clone());
    let mut next: Vec<Json> = Vec::new();
    let mut i: usize = 0;
    while i < first
        invariant
            i <= first < accounts@.len(),
            accounts@ == held,
            all == json::list_view(held),
            json::list_view(next@) =~= all.subrange(0, i as int),
        decreases first - i,
    {
        let ghost before = next@;
        next.push(accounts[i].clone());
        assert(json::list_view(next@) =~= json::list_view(before).push(all[i as int]));
        assert(all.subrange(0, i + 1) =~= all.subrange(0, i as int).push(all[i as int]));
        i += 1;
    }
    let ghost before = next@;
    next.push(stored.clone());
    assert(json::list_view(next@) =~= json::list_view(before).push(stored@));
    i = first + 1;
    let ghost head = all.subrange(0, first as int).push(stored@);
    let ghost tail = all.subrange(first + 1, all.len() as int);
    assert(json::list_view(next@) =~= head + others(tail.subrange(0, 0), who));
    while i < accounts.len()
        invariant
            first < i <= accounts@.len(),
            accounts@ == held,
            all == json::list_view(held),
            who == collected@,
            tail == all.subrange(first + 1, all.len() as int),
            json::list_view(next@) == head + others(tail.subrange(0, i - first - 1), who),
        decreases accounts@.len() - i,
    {
        let ghost k = i - first - 1;
        assert(tail.subrange(0, k + 1).subrange(0, k) =~= tail.subrange(0, k));
        assert(tail[k] == held[i as int]@);
        if !is_same_identity(&accounts[i], &collected) {
            let ghost before = next@;
            next.push(accounts[i].clone());
            assert(json::list_view(next@) =~= json::list_view(before).push(tail[k]));
            assert(json::list_view(next@) =~= head + others(tail.subrange(0, k + 1), who));
        }
        i += 1;
    }
    assert(tail.subrange(0, tail.len() as int) =~= tail);
    *accounts = next;
    stored
}

/// An account with a uid is kept once: whatever was stored under that uid
/// before, after collecting it the list holds it in one place only, unless a
/// protected token left the list as it was.
pub proof fn collecting_leaves_one(accounts: Seq<JsonV>, collected: JsonV, now: int, i: int, j: int)
    requires
        str_of(collected, "uid"@) is Some,
        0 <= i < j < upserted(accounts, collected, now).0.len(),
        match_from(accounts, collected, 0) matches Some(k) ==> !protected(accounts[k], collected, now),
    ensures
        !(same_identity(upserted(accounts, collected, now).0[i], collected) && same_identity(
            upserted(accounts, collected, now).0[j],
            collected,
        )),
{
    match_is_first(accounts, collected, 0);
    match match_from(accounts, collected, 0) {
        None => {},
        Some(k) => {
            let tail = accounts.subrange(k + 1, accounts.len() as int);
            others_differ(tail, collected);
            let head = accounts.subrange(0, k).push(recollected(accounts[k], collected));
            let all = head + others(tail, collected);
            assert(all[j] == if j < head.len() {
                head[j]
            } else {
                others(tail, collected)[j - head.len()]
            });
            assert(all[i] == if i < head.len() {
                head[i]
            } else {
                others(tail, collected)[i - head.len()]
            });
        },
    }
}

proof fn match_is_first(accounts: Seq<JsonV>, collected: JsonV, from: int)
    requires
        0 <= from,
    ensures
        match match_from(accounts, collected, from) {
            Some(k) => from <= k < accounts.len() && same_identity(accounts[k], collected) && forall|j: int|
                from <= j < k ==> !same_identity(#[trigger] accounts[j], collected),
            None => forall|j: int| from <= j < accounts.len() ==> !same_identity(#[trigger] accounts[j], collected),
        },
    decreases accounts.len() - from,
{
    if from < accounts.len() && !same_identity(accounts[from], collected) {
        match_is_first(accounts, collected, from + 1);
    }
}

proof fn others_differ(accounts: Seq<JsonV>, collected: JsonV)
    ensures
        forall|j: int|
            0 <= j < others(accounts, collected).len() ==> !same_identity(
                #[trigger] others(accounts, collected)[j],
                collected,
            ),
    decreases accounts.len(),
{
    if accounts.len() > 0 {
        let t = accounts.subrange(0, accounts.len() - 1);
        others_differ(t, collected);
        let rest = others(t, collected);
        let all = others(accounts, collected);
        assert forall|j: int| 0 <= j < all.len() implies !same_identity(#[trigger] all[j], collected) by {
            if j < rest.len() {
                assert(all[j] == rest[j]);
            }
        }
    }
}

/// Collecting an account again keeps its local id, its creation time and its
/// edition, so that what refers to the account still finds it.
pub proof fn recollecting_keeps_identity(existing: JsonV, collected: JsonV)
    requires
        collected is Obj,
    ensures
        existing.get("id"@) is Some ==> recollected(existing, collected).get("id"@) == existing.get("id"@),
        existing.get("createdAt"@) is Some ==> recollected(existing, collected).get("createdAt"@) == existing.get(
            "createdAt"@,
        ),
        str_of(collected, "variant"@) is None && str_of(existing, "variant"@) is Some ==> recollected(
            existing,
            collected,
        ).get("variant"@) == Some(JsonV::Str(str_of(existing, "variant"@)->0)),
{
    reveal_strlit("id");
    reveal_strlit("uid");
    reveal_strlit("createdAt");
    reveal_strlit("variant");
    reveal_strlit("nickname");
    reveal_strlit("email");
    reveal_strlit("enterpriseName");
    assert("id"@.len() == 2 && "uid"@.len() == 3 && "createdAt"@.len() == 9 && "variant"@.len() == 7);
    assert("nickname"@.len() == 8 && "email"@.len() == 5 && "enterpriseName"@.len() == 14);
}

/// The accounts with one replaced: the first with the id of `updated`, which
/// keeps its edition; without one the account is added.
pub open spec fn replaced(accounts: Seq<JsonV>, updated: JsonV, id: Seq<char>, i: int) -> Seq<JsonV>
    decreases accounts.len() - i,
{
    if i < 0 || i >= accounts.len() {
        accounts.push(updated)
    } else if accounts[i].get_str("id"@) == Some(id) {
        accounts.update(i, with_variant(accounts[i], updated))
    } else {
        replaced(accounts, updated, id, i + 1)
    }
}

/// The id by which an update finds its account.
pub open spec fn update_id(updated: JsonV) -> Seq<char> {
    match updated.get_str("id"@) {
        Some(s) => s,
        None => ""@,
    }
}

/// Replaces the account with the same id, which keeps its edition, or adds it.
pub fn upsert_account_in(accounts: &mut Vec<Json>, updated: &Json)
    requires
        forall|i: int|
            0 <= i < old(accounts)@.len() && (#[trigger] old(accounts)@[i])@.get_str("id"@) == Some(update_id(updated@))
                ==> takes_variant(old(accounts)@[i]@, updated@),
    ensures
        json::list_view(final(accounts)@) == replaced(
            json::list_view(old(accounts)@),
            updated@,
            update_id(updated@),
            0,
        ),
{
    let ghost all = json::list_view(accounts@);
    let ghost held = accounts@;
    let id: String = match updated.get_str("id") {
        Some(s) => s.to_owned(),
        None => "".to_owned(),
    };
    let mut i: usize = 0;
    while i < accounts.len()
        invariant
            i <= accounts@.len(),
            accounts@ == held,
            all == json::list_view(held),
            held == old(accounts)@,
            forall|k: int|
                0 <= k < held.len() && (#[trigger] held[k])@.get_str("id"@) == Some(update_id(updated@))
                    ==> takes_variant(held[k]@, updated@),
            id@ == update_id(updated@),
            all == json::list_view(old(accounts)@),
            replaced(all, updated@, id@, 0) == replaced(all, updated@, id@, i as int),
        decreases accounts@.len() - i,
    {
        assert(all[i as int] == held[i as int]@);
        if text_is(accounts[i].get_str("id"), id.as_str()) {
            let next: Json = inherit_existing_variant(&accounts[i], updated.clone());
            accounts.set(i, next);
            assert(json::list_view(accounts@) =~= all.update(i as int, next@));
            return;
        }
        i += 1;
    }
    accounts.push(updated.clone());
    assert(json::list_view(accounts@) =~= all.push(updated@));
}

/// A header, where it has a value.
pub open spec fn with_header(
    m: Map<Seq<char>, Seq<char>>,
    name: Seq<char>,
    value: Option<Seq<char>>,
) -> Map<Seq<char>, Seq<char>> {
    match value {
        Some(v) => m.insert(name, v),
        None => m,
    }
}

/// The text, or none at all.
pub open spec fn or_empty(o: Option<Seq<char>>) -> Seq<char> {
    match o {
        Some(s) => s,
        None => Seq::empty(),
    }
}

/// The headers of a request made for an account.
pub open spec fn auth_headers(acc: JsonV) -> Map<Seq<char>, Seq<char>> {
    let enterprise = first_of(str_of(acc, "enterpriseId"@), str_of(acc, "enterprise_id"@));
    let m = Map::<Seq<char>, Seq<char>>::empty().insert(
        "Authorization"@,
        "Bearer "@ + or_empty(str_of(acc, "access_token"@)),
    ).insert("Accept"@, "application/json"@).insert("Content-Type"@, "application/json"@);
    let m = with_header(m, "X-User-Id"@, str_of(acc, "uid"@));
    let m = with_header(m, "X-Enterprise-Id"@, enterprise);
    let m = with_header(m, "X-Tenant-Id"@, enterprise);
    with_header(m, "X-Domain"@, str_of(acc, "domain"@))
}

/// The headers of a request made for an account.
pub fn build_auth_headers(acc: &Json) -> (m: TextMap)
    ensures
        m@ == auth_headers(acc@),
{
    let mut m: TextMap = TextMap::new();
    let token: String = match get_str(acc, "access_token") {
        Some(t) => t,
        None => String::new(),
    };
    m.insert("Authorization".to_owned(), text::concat("Bearer ", token.as_str()));
    m.insert("Accept".to_owned(), "application/json".to_owned());
    m.insert("Content-Type".to_owned(), "application/json".to_owned());
    match get_str(acc, "uid") {
        Some(uid) => {
            m.insert("X-User-Id".to_owned(), uid);
        },
        None => {},
    }
    let enterprise: Option<String> = match get_str(acc, "enterpriseId") {
        Some(e) => Some(e),
        None => get_str(acc, "enterprise_id"),
    };
    match enterprise {
        Some(e) => {
            m.insert("X-Enterprise-Id".to_owned(), e.clone());
            m.insert("X-Tenant-Id".to_owned(), e);
        },
        None => {},
    }
    match get_str(acc, "domain") {
        Some(d) => {
            m.insert("X-Domain".to_owned(), d);
        },
        None => {},
    }
    m
}

/// Why no request can be made with an account whose access token is an envelope.
pub const ENVELOPE_TOKEN_ERROR: &'static str = "账号凭据是加密信封，无法用于请求，请重新扫码登录";

/// The reason why no request can be made for an account: its access token is an
/// envelope, which only the client can open.
pub fn envelope_token_error(acc: &Json) -> (r: Option<String>)
    ensures
        json::opt_string(r) == (if envelope(acc@, "access_token"@) {
            Some(ENVELOPE_TOKEN_ERROR@)
        } else {
            None
        }),
{
    if is_envelope(acc, "access_token") {
        Some(ENVELOPE_TOKEN_ERROR.to_owned())
    } else {
        None
    }
}

/// The store after a found account was taken over, and what is shown of it as it is
/// stored; the message where none was found.
pub open spec fn taken_over(accounts: Seq<JsonV>, found: Option<JsonV>, now: int) -> (
    Seq<JsonV>,
    Result<JsonV, Seq<char>>,
) {
    match found {
        Some(acc) => (upserted(accounts, acc, now).0, Ok(meta(upserted(accounts, acc, now).1))),
        None => (accounts, Err("未读取到本地 WorkBuddy 登录信息"@)),
    }
}

/// Takes over an account that was found in the client's login file.
pub fn take_over(accounts: &mut Vec<Json>, found: Option<Json>, now: i64) -> (r: Result<Json, String>)
    ensures
        (json::list_view(final(accounts)@), json::parse_view(r)) == taken_over(
            json::list_view(old(accounts)@),
            opt_json(found),
            now as int,
        ),
{
    match found {
        Some(acc) => {
            let saved: Json = upsert_collected_account(accounts, acc, now);
            Ok(account_meta(&saved))
        },
        None => Err("未读取到本地 WorkBuddy 登录信息".to_owned()),
    }
}

/// Takes over the account that the client is logged in with, under a fresh identifier
/// where it is new. `content` is the text of the login file, if there is one.
pub fn import_local(accounts: &mut Vec<Json>, content: Option<&str>, v: WbVariant, now: i64) -> (r: Result<Json, String>)
    ensures
        exists|id: Seq<char>| #[trigger]
            ids::grouped_uuid(id) && (json::list_view(final(accounts)@), json::parse_view(r)) == taken_over(
                json::list_view(old(accounts)@),
                auth_file::imported_in(json::opt_text(content), v, id, now as int),
                now as int,
            ),
{
    let found: Option<Json> = auth_file::import_from_auth_file(content, v, now);
    take_over(accounts, found, now)
}

/// Taking over an account shows no token of it.
pub proof fn taking_over_shows_no_token(accounts: Seq<JsonV>, found: Option<JsonV>, now: int)
    ensures
        taken_over(accounts, found, now).1 matches Ok(shown) ==> shown.get("access_token"@) is None && shown.get(
            "refresh_token"@,
        ) is None,
{
    match found {
        Some(acc) => {
            meta_shows_no_token(upserted(accounts, acc, now).1);
        },
        None => {},
    }
}

/// A token that can still be used is not lost to an envelope: where an account
/// with an unexpired plain token is collected again and only an envelope is found,
/// the store stays as it is, whatever else was collected.
pub proof fn plain_token_is_protected(accounts: Seq<JsonV>, collected: JsonV, now: int, i: int)
    requires
        match_from(accounts, collected, 0) == Some(i),
        plain_token(accounts[i], now),
        envelope(collected, "access_token"@),
    ensures
        upserted(accounts, collected, now) == (accounts, accounts[i]),
{
}

} // verus!
