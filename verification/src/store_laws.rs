//! What the store of accounts, its settings and its files promise.
use vstd::prelude::*;
use crate::account;
use crate::config;
use crate::export_import;
use crate::export_import::{ImportV, MergeOutcome};
use crate::json;
use crate::json::JsonV;
use crate::text;
use crate::variant;
use crate::variant::WbVariant;

verus! {

proof fn account_names()
    ensures
        "id"@ != "uid"@,
        "id"@ != "email"@,
        "id"@ != "nickname"@,
        "id"@ != "enterpriseName"@,
        "id"@ != "createdAt"@,
        "id"@ != "variant"@,
        "id"@ != "access_token"@,
        "id"@ != "refresh_token"@,
        "id"@ != "expiresAt"@,
        "id"@ != "refreshExpiresAt"@,
        "uid"@ != "email"@,
        "uid"@ != "nickname"@,
        "uid"@ != "enterpriseName"@,
        "uid"@ != "createdAt"@,
        "uid"@ != "variant"@,
        "uid"@ != "access_token"@,
        "uid"@ != "refresh_token"@,
        "uid"@ != "expiresAt"@,
        "uid"@ != "refreshExpiresAt"@,
        "email"@ != "nickname"@,
        "email"@ != "enterpriseName"@,
        "email"@ != "createdAt"@,
        "email"@ != "variant"@,
        "email"@ != "access_token"@,
        "email"@ != "refresh_token"@,
        "email"@ != "expiresAt"@,
        "email"@ != "refreshExpiresAt"@,
        "nickname"@ != "enterpriseName"@,
        "nickname"@ != "createdAt"@,
        "nickname"@ != "variant"@,
        "nickname"@ != "access_token"@,
        "nickname"@ != "refresh_token"@,
        "nickname"@ != "expiresAt"@,
        "nickname"@ != "refreshExpiresAt"@,
        "enterpriseName"@ != "createdAt"@,
        "enterpriseName"@ != "variant"@,
        "enterpriseName"@ != "access_token"@,
        "enterpriseName"@ != "refresh_token"@,
        "enterpriseName"@ != "expiresAt"@,
        "enterpriseName"@ != "refreshExpiresAt"@,
        "createdAt"@ != "variant"@,
        "createdAt"@ != "access_token"@,
        "createdAt"@ != "refresh_token"@,
        "createdAt"@ != "expiresAt"@,
        "createdAt"@ != "refreshExpiresAt"@,
        "variant"@ != "access_token"@,
        "variant"@ != "refresh_token"@,
        "variant"@ != "expiresAt"@,
        "variant"@ != "refreshExpiresAt"@,
        "access_token"@ != "refresh_token"@,
        "access_token"@ != "expiresAt"@,
        "access_token"@ != "refreshExpiresAt"@,
        "refresh_token"@ != "expiresAt"@,
        "refresh_token"@ != "refreshExpiresAt"@,
        "expiresAt"@ != "refreshExpiresAt"@,
{
    reveal_strlit("id");
    reveal_strlit("uid");
    reveal_strlit("email");
    reveal_strlit("nickname");
    reveal_strlit("enterpriseName");
    reveal_strlit("createdAt");
    reveal_strlit("variant");
    reveal_strlit("access_token");
    reveal_strlit("refresh_token");
    reveal_strlit("expiresAt");
    reveal_strlit("refreshExpiresAt");
    assert("id"@.len() == 2);
    assert("uid"@.len() == 3);
    assert("email"@.len() == 5);
    assert("nickname"@.len() == 8);
    assert("enterpriseName"@.len() == 14);
    assert("createdAt"@.len() == 9);
    assert("variant"@.len() == 7);
    assert("access_token"@.len() == 12);
    assert("refresh_token"@.len() == 13);
    assert("expiresAt"@.len() == 9);
    assert("refreshExpiresAt"@.len() == 16);
    assert("createdAt"@[0] != "expiresAt"@[0]);
}

proof fn meta_names()
    ensures
        "id"@ != "uid"@,
        "id"@ != "email"@,
        "id"@ != "nickname"@,
        "id"@ != "enterpriseName"@,
        "id"@ != "expiresAt"@,
        "id"@ != "refreshExpiresAt"@,
        "id"@ != "refreshedAt"@,
        "id"@ != "createdAt"@,
        "id"@ != "needsRelogin"@,
        "id"@ != "needsReloginReason"@,
        "id"@ != "variant"@,
        "uid"@ != "email"@,
        "uid"@ != "nickname"@,
        "uid"@ != "enterpriseName"@,
        "uid"@ != "expiresAt"@,
        "uid"@ != "refreshExpiresAt"@,
        "uid"@ != "refreshedAt"@,
        "uid"@ != "createdAt"@,
        "uid"@ != "needsRelogin"@,
        "uid"@ != "needsReloginReason"@,
        "uid"@ != "variant"@,
        "email"@ != "nickname"@,
        "email"@ != "enterpriseName"@,
        "email"@ != "expiresAt"@,
        "email"@ != "refreshExpiresAt"@,
        "email"@ != "refreshedAt"@,
        "email"@ != "createdAt"@,
        "email"@ != "needsRelogin"@,
        "email"@ != "needsReloginReason"@,
        "email"@ != "variant"@,
        "nickname"@ != "enterpriseName"@,
        "nickname"@ != "expiresAt"@,
        "nickname"@ != "refreshExpiresAt"@,
        "nickname"@ != "refreshedAt"@,
        "nickname"@ != "createdAt"@,
        "nickname"@ != "needsRelogin"@,
        "nickname"@ != "needsReloginReason"@,
        "nickname"@ != "variant"@,
        "enterpriseName"@ != "expiresAt"@,
        "enterpriseName"@ != "refreshExpiresAt"@,
        "enterpriseName"@ != "refreshedAt"@,
        "enterpriseName"@ != "createdAt"@,
        "enterpriseName"@ != "needsRelogin"@,
        "enterpriseName"@ != "needsReloginReason"@,
        "enterpriseName"@ != "variant"@,
        "expiresAt"@ != "refreshExpiresAt"@,
        "expiresAt"@ != "refreshedAt"@,
        "expiresAt"@ != "createdAt"@,
        "expiresAt"@ != "needsRelogin"@,
        "expiresAt"@ != "needsReloginReason"@,
        "expiresAt"@ != "variant"@,
        "refreshExpiresAt"@ != "refreshedAt"@,
        "refreshExpiresAt"@ != "createdAt"@,
        "refreshExpiresAt"@ != "needsRelogin"@,
        "refreshExpiresAt"@ != "needsReloginReason"@,
        "refreshExpiresAt"@ != "variant"@,
        "refreshedAt"@ != "createdAt"@,
        "refreshedAt"@ != "needsRelogin"@,
        "refreshedAt"@ != "needsReloginReason"@,
        "refreshedAt"@ != "variant"@,
        "createdAt"@ != "needsRelogin"@,
        "createdAt"@ != "needsReloginReason"@,
        "createdAt"@ != "variant"@,
        "needsRelogin"@ != "needsReloginReason"@,
        "needsRelogin"@ != "variant"@,
        "needsReloginReason"@ != "variant"@,
{
    reveal_strlit("id");
    reveal_strlit("uid");
    reveal_strlit("email");
    reveal_strlit("nickname");
    reveal_strlit("enterpriseName");
    reveal_strlit("expiresAt");
    reveal_strlit("refreshExpiresAt");
    reveal_strlit("refreshedAt");
    reveal_strlit("createdAt");
    reveal_strlit("needsRelogin");
    reveal_strlit("needsReloginReason");
    reveal_strlit("variant");
    assert("id"@.len() == 2);
    assert("uid"@.len() == 3);
    assert("email"@.len() == 5);
    assert("nickname"@.len() == 8);
    assert("enterpriseName"@.len() == 14);
    assert("expiresAt"@.len() == 9);
    assert("refreshExpiresAt"@.len() == 16);
    assert("refreshedAt"@.len() == 11);
    assert("createdAt"@.len() == 9);
    assert("needsRelogin"@.len() == 12);
    assert("needsReloginReason"@.len() == 18);
    assert("variant"@.len() == 7);
    assert("expiresAt"@[0] != "createdAt"@[0]);
}

proof fn header_names()
    ensures
        "Authorization"@ != "Accept"@,
        "Authorization"@ != "Content-Type"@,
        "Authorization"@ != "X-User-Id"@,
        "Authorization"@ != "X-Enterprise-Id"@,
        "Authorization"@ != "X-Tenant-Id"@,
        "Authorization"@ != "X-Domain"@,
        "Accept"@ != "Content-Type"@,
        "Accept"@ != "X-User-Id"@,
        "Accept"@ != "X-Enterprise-Id"@,
        "Accept"@ != "X-Tenant-Id"@,
        "Accept"@ != "X-Domain"@,
        "Content-Type"@ != "X-User-Id"@,
        "Content-Type"@ != "X-Enterprise-Id"@,
        "Content-Type"@ != "X-Tenant-Id"@,
        "Content-Type"@ != "X-Domain"@,
        "X-User-Id"@ != "X-Enterprise-Id"@,
        "X-User-Id"@ != "X-Tenant-Id"@,
        "X-User-Id"@ != "X-Domain"@,
        "X-Enterprise-Id"@ != "X-Tenant-Id"@,
        "X-Enterprise-Id"@ != "X-Domain"@,
        "X-Tenant-Id"@ != "X-Domain"@,
{
    reveal_strlit("Authorization");
    reveal_strlit("Accept");
    reveal_strlit("Content-Type");
    reveal_strlit("X-User-Id");
    reveal_strlit("X-Enterprise-Id");
    reveal_strlit("X-Tenant-Id");
    reveal_strlit("X-Domain");
    assert("Authorization"@.len() == 13);
    assert("Accept"@.len() == 6);
    assert("Content-Type"@.len() == 12);
    assert("X-User-Id"@.len() == 9);
    assert("X-Enterprise-Id"@.len() == 15);
    assert("X-Tenant-Id"@.len() == 11);
    assert("X-Domain"@.len() == 8);
}

proof fn checkin_names()
    ensures
        "enabled"@ != "start_hour"@,
        "enabled"@ != "end_hour"@,
        "enabled"@ != "keepalive_days"@,
        "enabled"@ != "lazy_refresh_hours"@,
        "start_hour"@ != "end_hour"@,
        "start_hour"@ != "keepalive_days"@,
        "start_hour"@ != "lazy_refresh_hours"@,
        "end_hour"@ != "keepalive_days"@,
        "end_hour"@ != "lazy_refresh_hours"@,
        "keepalive_days"@ != "lazy_refresh_hours"@,
{
    reveal_strlit("enabled");
    reveal_strlit("start_hour");
    reveal_strlit("end_hour");
    reveal_strlit("keepalive_days");
    reveal_strlit("lazy_refresh_hours");
    assert("enabled"@.len() == 7);
    assert("start_hour"@.len() == 10);
    assert("end_hour"@.len() == 8);
    assert("keepalive_days"@.len() == 14);
    assert("lazy_refresh_hours"@.len() == 18);
}

proof fn rotate_names()
    ensures
        "enabled"@ != "check_interval_minutes"@,
        "enabled"@ != "cooldown_minutes"@,
        "enabled"@ != "min_gap_hours"@,
        "enabled"@ != "min_urgency_hours"@,
        "enabled"@ != "active_guard_minutes"@,
        "enabled"@ != "min_remaining_credits"@,
        "check_interval_minutes"@ != "cooldown_minutes"@,
        "check_interval_minutes"@ != "min_gap_hours"@,
        "check_interval_minutes"@ != "min_urgency_hours"@,
        "check_interval_minutes"@ != "active_guard_minutes"@,
        "check_interval_minutes"@ != "min_remaining_credits"@,
        "cooldown_minutes"@ != "min_gap_hours"@,
        "cooldown_minutes"@ != "min_urgency_hours"@,
        "cooldown_minutes"@ != "active_guard_minutes"@,
        "cooldown_minutes"@ != "min_remaining_credits"@,
        "min_gap_hours"@ != "min_urgency_hours"@,
        "min_gap_hours"@ != "active_guard_minutes"@,
        "min_gap_hours"@ != "min_remaining_credits"@,
        "min_urgency_hours"@ != "active_guard_minutes"@,
        "min_urgency_hours"@ != "min_remaining_credits"@,
        "active_guard_minutes"@ != "min_remaining_credits"@,
{
    reveal_strlit("enabled");
    reveal_strlit("check_interval_minutes");
    reveal_strlit("cooldown_minutes");
    reveal_strlit("min_gap_hours");
    reveal_strlit("min_urgency_hours");
    reveal_strlit("active_guard_minutes");
    reveal_strlit("min_remaining_credits");
    assert("enabled"@.len() == 7);
    assert("check_interval_minutes"@.len() == 22);
    assert("cooldown_minutes"@.len() == 16);
    assert("min_gap_hours"@.len() == 13);
    assert("min_urgency_hours"@.len() == 17);
    assert("active_guard_minutes"@.len() == 20);
    assert("min_remaining_credits"@.len() == 21);
}

proof fn travel_names()
    ensures
        "enabled"@ != "depart_time"@,
        "enabled"@ != "claim_time"@,
        "depart_time"@ != "claim_time"@,
{
    reveal_strlit("enabled");
    reveal_strlit("depart_time");
    reveal_strlit("claim_time");
    assert("enabled"@.len() == 7);
    assert("depart_time"@.len() == 11);
    assert("claim_time"@.len() == 10);
}

proof fn preview_names()
    ensures
        "index"@ != "uid"@,
        "index"@ != "nickname"@,
        "index"@ != "email"@,
        "index"@ != "hasToken"@,
        "uid"@ != "nickname"@,
        "uid"@ != "email"@,
        "uid"@ != "hasToken"@,
        "nickname"@ != "email"@,
        "nickname"@ != "hasToken"@,
        "email"@ != "hasToken"@,
{
    reveal_strlit("index");
    reveal_strlit("uid");
    reveal_strlit("nickname");
    reveal_strlit("email");
    reveal_strlit("hasToken");
    assert("index"@.len() == 5);
    assert("uid"@.len() == 3);
    assert("nickname"@.len() == 8);
    assert("email"@.len() == 5);
    assert("hasToken"@.len() == 8);
    assert("index"@[0] != "email"@[0]);
    assert("nickname"@[0] != "hasToken"@[0]);
}

/// An account is called by its email, without one by its nickname, without that by its
/// uid, and else it is not known; a name that is blank is none.
pub proof fn accounts_are_called_by_their_email(acc: JsonV, e: Seq<char>, n: Seq<char>, u: Seq<char>)
    ensures
        acc.get("email"@) == Some(JsonV::Str(e)) && text::trim(e).len() > 0 ==> account::display_name(acc) == text::trim(
            e,
        ),
        (acc.get("email"@) is None || (acc.get("email"@) == Some(JsonV::Str(e)) && text::trim(e).len() == 0)) && acc.get(
            "nickname"@,
        ) == Some(JsonV::Str(n)) && text::trim(n).len() > 0 ==> account::display_name(acc) == text::trim(n),
        acc.get("email"@) is None && acc.get("nickname"@) is None && acc.get("uid"@) == Some(JsonV::Str(u))
            && text::trim(u).len() > 0 ==> account::display_name(acc) == text::trim(u),
        acc.get("email"@) is None && acc.get("nickname"@) is None && acc.get("uid"@) is None ==> account::display_name(
            acc,
        ) == "unknown"@,
{
}

proof fn found_is(accounts: Seq<JsonV>, key: Seq<char>, from: int, k: int)
    requires
        0 <= from <= k < accounts.len(),
        account::answers_to(accounts[k], key),
        forall|j: int| from <= j < k ==> !account::answers_to(#[trigger] accounts[j], key),
    ensures
        account::found_from(accounts, key, from) == Some(accounts[k]),
    decreases k - from,
{
    if from < k {
        found_is(accounts, key, from + 1, k);
    }
}

proof fn found_is_none(accounts: Seq<JsonV>, key: Seq<char>, from: int)
    requires
        0 <= from,
        forall|j: int| from <= j < accounts.len() ==> !account::answers_to(#[trigger] accounts[j], key),
    ensures
        account::found_from(accounts, key, from) is None,
    decreases accounts.len() - from,
{
    if from < accounts.len() {
        found_is_none(accounts, key, from + 1);
    }
}

/// Looking up an account finds the first that bears the name as its id or its uid, and
/// nothing only where none does.
pub proof fn lookups_find_the_first(accounts: Seq<JsonV>, key: Seq<char>, k: int)
    ensures
        0 <= k < accounts.len() && (accounts[k].get("id"@) == Some(JsonV::Str(key)) || accounts[k].get("uid"@) == Some(
            JsonV::Str(key),
        )) && (forall|j: int|
            0 <= j < k ==> (#[trigger] accounts[j]).get("id"@) != Some(JsonV::Str(key)) && accounts[j].get("uid"@)
                != Some(JsonV::Str(key))) ==> account::found_from(accounts, key, 0) == Some(accounts[k]),
        (forall|j: int|
            0 <= j < accounts.len() ==> (#[trigger] accounts[j]).get("id"@) != Some(JsonV::Str(key))
                && accounts[j].get("uid"@) != Some(JsonV::Str(key))) ==> account::found_from(accounts, key, 0) is None,
{
    if 0 <= k < accounts.len() && account::answers_to(accounts[k], key) && (forall|j: int|
        0 <= j < k ==> (#[trigger] accounts[j]).get("id"@) != Some(JsonV::Str(key)) && accounts[j].get("uid"@) != Some(
            JsonV::Str(key),
        )) {
        found_is(accounts, key, 0, k);
    }
    if forall|j: int|
        0 <= j < accounts.len() ==> (#[trigger] accounts[j]).get("id"@) != Some(JsonV::Str(key)) && accounts[j].get(
            "uid"@,
        ) != Some(JsonV::Str(key)) {
        found_is_none(accounts, key, 0);
    }
}

/// Deleting an account leaves all others, in their order.
pub proof fn deleting_leaves_the_others(accounts: Seq<JsonV>, id: Seq<char>)
    ensures
        account::without_id(accounts, id) == accounts.filter(|a: JsonV| a.get("id"@) != Some(JsonV::Str(id))),
    decreases accounts.len(),
{
    reveal(Seq::filter);
    if accounts.len() > 0 {
        assert(accounts.subrange(0, accounts.len() - 1) =~= accounts.drop_last());
        deleting_leaves_the_others(accounts.subrange(0, accounts.len() - 1), id);
    }
}

/// What is shown of an account is what it holds.
pub proof fn accounts_are_shown_as_they_are(acc: JsonV, s: Seq<char>, t: int)
    ensures
        acc.get("id"@) == Some(JsonV::Str(s)) ==> account::meta(acc).get("id"@) == Some(JsonV::Str(s)),
        acc.get("uid"@) == Some(JsonV::Str(s)) ==> account::meta(acc).get("uid"@) == Some(JsonV::Str(s)),
        acc.get("email"@) == Some(JsonV::Str(s)) ==> account::meta(acc).get("email"@) == Some(JsonV::Str(s)),
        acc.get("nickname"@) == Some(JsonV::Str(s)) ==> account::meta(acc).get("nickname"@) == Some(JsonV::Str(s)),
        acc.get("enterpriseName"@) == Some(JsonV::Str(s)) ==> account::meta(acc).get("enterpriseName"@) == Some(
            JsonV::Str(s),
        ),
        acc.get("expiresAt"@) == Some(JsonV::Int(t)) ==> account::meta(acc).get("expiresAt"@) == Some(JsonV::Int(t)),
        acc.get("refreshExpiresAt"@) == Some(JsonV::Int(t)) ==> account::meta(acc).get("refreshExpiresAt"@) == Some(
            JsonV::Int(t),
        ),
        acc.get("refreshedAt"@) == Some(JsonV::Int(t)) ==> account::meta(acc).get("refreshedAt"@) == Some(
            JsonV::Int(t),
        ),
        acc.get("createdAt"@) == Some(JsonV::Int(t)) ==> account::meta(acc).get("createdAt"@) == Some(JsonV::Int(t)),
        account::meta(acc).get("needsRelogin"@) == Some(
            JsonV::Bool(acc.get("needs_relogin"@) == Some(JsonV::Bool(true))),
        ),
        acc.get("needs_relogin_reason"@) == Some(JsonV::Str(s)) ==> account::meta(acc).get("needsReloginReason"@)
            == Some(JsonV::Str(s)),
{
    meta_names();
}

/// Two accounts are the same where they have the same uid; where the collected one has
/// none, where they have the same email, whatever its case.
pub proof fn accounts_are_the_same_by_uid(a: JsonV, c: JsonV, u: Seq<char>, w: Seq<char>)
    requires
        c.get("uid"@) == Some(JsonV::Str(u)),
        text::trim(u) == u && u.len() > 0,
    ensures
        a.get("uid"@) == Some(JsonV::Str(w)) && text::trim(w) == w ==> account::same_identity(a, c) == (u == w),
        a.get("uid"@) is None ==> !account::same_identity(a, c),
{
}

proof fn match_is(accounts: Seq<JsonV>, c: JsonV, from: int, k: int)
    requires
        0 <= from <= k < accounts.len(),
        account::same_identity(accounts[k], c),
        forall|j: int| from <= j < k ==> !account::same_identity(#[trigger] accounts[j], c),
    ensures
        account::match_from(accounts, c, from) == Some(k),
    decreases k - from,
{
    if from < k {
        match_is(accounts, c, from + 1, k);
    }
}

proof fn match_is_none(accounts: Seq<JsonV>, c: JsonV, from: int)
    requires
        0 <= from,
        forall|j: int| from <= j < accounts.len() ==> !account::same_identity(#[trigger] accounts[j], c),
    ensures
        account::match_from(accounts, c, from) is None,
    decreases accounts.len() - from,
{
    if from < accounts.len() {
        match_is_none(accounts, c, from + 1);
    }
}

proof fn others_are(accounts: Seq<JsonV>, c: JsonV)
    ensures
        account::others(accounts, c) == accounts.filter(|a: JsonV| !account::same_identity(a, c)),
    decreases accounts.len(),
{
    reveal(Seq::filter);
    if accounts.len() > 0 {
        assert(accounts.subrange(0, accounts.len() - 1) =~= accounts.drop_last());
        others_are(accounts.subrange(0, accounts.len() - 1), c);
    }
}

/// Collecting an account that is not stored adds it at the end; one that is stored is
/// replaced where it stands, and its doubles behind it go. No other account changes.
pub proof fn collecting_replaces_in_place(accounts: Seq<JsonV>, c: JsonV, now: int, k: int)
    ensures
        (forall|j: int| 0 <= j < accounts.len() ==> !account::same_identity(#[trigger] accounts[j], c))
            ==> account::upserted(accounts, c, now) == (accounts.push(c), c),
        0 <= k < accounts.len() && account::same_identity(accounts[k], c) && (forall|j: int|
            0 <= j < k ==> !account::same_identity(#[trigger] accounts[j], c)) && (c.get("access_token"@) matches Some(
            JsonV::Str(_),
        )) ==> account::upserted(accounts, c, now) == (
            accounts.take(k).push(account::recollected(accounts[k], c)) + accounts.skip(k + 1).filter(
                |a: JsonV| !account::same_identity(a, c),
            ),
            account::recollected(accounts[k], c),
        ),
{
    if forall|j: int| 0 <= j < accounts.len() ==> !account::same_identity(#[trigger] accounts[j], c) {
        match_is_none(accounts, c, 0);
    }
    if 0 <= k < accounts.len() && account::same_identity(accounts[k], c) && (forall|j: int|
        0 <= j < k ==> !account::same_identity(#[trigger] accounts[j], c)) {
        match_is(accounts, c, 0, k);
        others_are(accounts.subrange(k + 1, accounts.len() as int), c);
        assert(accounts.take(k) =~= accounts.subrange(0, k));
        assert(accounts.skip(k + 1) =~= accounts.subrange(k + 1, accounts.len() as int));
    }
}

/// Collecting an account again takes over what was collected, its tokens and their times
/// above all; names that were collected as an envelope are kept as they were stored.
pub proof fn recollecting_takes_over(a: JsonV, c: JsonV, key: Seq<char>, name: JsonV)
    requires
        a is Obj,
        c is Obj,
    ensures
        key != "id"@ && key != "uid"@ && key != "createdAt"@ && key != "variant"@ && !account::envelope(c, key)
            ==> account::recollected(a, c).get(key) == c.get(key),
        c.get("uid"@) matches Some(JsonV::Str(u)) ==> (text::trim(u).len() > 0 ==> account::recollected(a, c).get("uid"@)
            == c.get("uid"@)),
        account::envelope(c, "email"@) && a.get("email"@) == Some(name) ==> account::recollected(a, c).get("email"@)
            == Some(name),
        account::envelope(c, "nickname"@) && a.get("nickname"@) == Some(name) ==> account::recollected(a, c).get(
            "nickname"@,
        ) == Some(name),
        account::envelope(c, "enterpriseName"@) && a.get("enterpriseName"@) == Some(name) ==> account::recollected(
            a,
            c,
        ).get("enterpriseName"@) == Some(name),
{
    account_names();
}

proof fn replaced_is(accounts: Seq<JsonV>, updated: JsonV, id: Seq<char>, from: int, k: int)
    requires
        0 <= from <= k < accounts.len(),
        accounts[k].get("id"@) == Some(JsonV::Str(id)),
        forall|j: int| from <= j < k ==> (#[trigger] accounts[j]).get("id"@) != Some(JsonV::Str(id)),
    ensures
        account::replaced(accounts, updated, id, from) == accounts.update(
            k,
            account::with_variant(accounts[k], updated),
        ),
    decreases k - from,
{
    if from < k {
        replaced_is(accounts, updated, id, from + 1, k);
    }
}

proof fn replaced_is_added(accounts: Seq<JsonV>, updated: JsonV, id: Seq<char>, from: int)
    requires
        0 <= from,
        forall|j: int| from <= j < accounts.len() ==> (#[trigger] accounts[j]).get("id"@) != Some(JsonV::Str(id)),
    ensures
        account::replaced(accounts, updated, id, from) == accounts.push(updated),
    decreases accounts.len() - from,
{
    if from < accounts.len() {
        replaced_is_added(accounts, updated, id, from + 1);
    }
}

/// Saving an account replaces the first that has its id, where it stands, and adds it
/// where none has; the stored edition stays where the saved account names none.
pub proof fn saving_replaces_by_id(accounts: Seq<JsonV>, updated: JsonV, id: Seq<char>, k: int)
    requires
        updated is Obj,
    ensures
        0 <= k < accounts.len() && accounts[k].get("id"@) == Some(JsonV::Str(id)) && (forall|j: int|
            0 <= j < k ==> (#[trigger] accounts[j]).get("id"@) != Some(JsonV::Str(id))) ==> account::replaced(
            accounts,
            updated,
            id,
            0,
        ).len() == accounts.len() && (forall|j: int|
            0 <= j < accounts.len() && j != k ==> #[trigger] account::replaced(accounts, updated, id, 0)[j]
                == accounts[j]) && (forall|key: Seq<char>|
            key != "variant"@ ==> #[trigger] account::replaced(accounts, updated, id, 0)[k].get(key) == updated.get(
                key,
            )),
        (forall|j: int| 0 <= j < accounts.len() ==> (#[trigger] accounts[j]).get("id"@) != Some(JsonV::Str(id)))
            ==> account::replaced(accounts, updated, id, 0) == accounts.push(updated),
{
    if 0 <= k < accounts.len() && accounts[k].get("id"@) == Some(JsonV::Str(id)) && (forall|j: int|
        0 <= j < k ==> (#[trigger] accounts[j]).get("id"@) != Some(JsonV::Str(id))) {
        replaced_is(accounts, updated, id, 0, k);
    }
    if forall|j: int| 0 <= j < accounts.len() ==> (#[trigger] accounts[j]).get("id"@) != Some(JsonV::Str(id)) {
        replaced_is_added(accounts, updated, id, 0);
    }
}

/// A request speaks for its account: it bears the token, and the user, enterprise and
/// domain where the account has them.
pub proof fn requests_speak_for_their_account(acc: JsonV, t: Seq<char>)
    requires
        text::trim(t) == t,
        t.len() > 0,
    ensures
        ({
            let h = account::auth_headers(acc);
            &&& acc.get("access_token"@) == Some(JsonV::Str(t)) ==> h.contains_key("Authorization"@)
                && h["Authorization"@] == "Bearer "@ + t
            &&& acc.get("uid"@) == Some(JsonV::Str(t)) ==> h.contains_key("X-User-Id"@) && h["X-User-Id"@] == t
            &&& acc.get("uid"@) is None ==> !h.contains_key("X-User-Id"@)
            &&& acc.get("enterpriseId"@) == Some(JsonV::Str(t)) ==> h.contains_key("X-Enterprise-Id"@)
                && h["X-Enterprise-Id"@] == t && h.contains_key("X-Tenant-Id"@) && h["X-Tenant-Id"@] == t
            &&& acc.get("enterpriseId"@) is None && acc.get("enterprise_id"@) == Some(JsonV::Str(t)) ==> h.contains_key(
                "X-Enterprise-Id"@,
            ) && h["X-Enterprise-Id"@] == t
            &&& acc.get("enterpriseId"@) is None && acc.get("enterprise_id"@) is None ==> !h.contains_key(
                "X-Enterprise-Id"@,
            ) && !h.contains_key("X-Tenant-Id"@)
            &&& acc.get("domain"@) == Some(JsonV::Str(t)) ==> h.contains_key("X-Domain"@) && h["X-Domain"@] == t
            &&& acc.get("domain"@) is None ==> !h.contains_key("X-Domain"@)
        }),
{
    header_names();
}

/// A token is plain and good where it is a text that is not blank and has not run out.
pub proof fn plain_tokens_run_out(acc: JsonV, t: Seq<char>, e: int, now: int)
    requires
        acc.get("access_token"@) == Some(JsonV::Str(t)),
        text::trim(t).len() > 0,
    ensures
        acc.get("expiresAt"@) is None ==> account::plain_token(acc, now),
        acc.get("expiresAt"@) == Some(JsonV::Int(e)) && i64::MIN <= e <= i64::MAX ==> account::plain_token(acc, now) == (
        e > now),
{
}

/// The settings of check-ins are taken from the input where it gives them, and else they
/// are on, from six to twelve, without renewals ahead of time but a day before a request.
pub proof fn checkin_settings_are_taken(input: JsonV, n: int, b: bool)
    requires
        i64::MIN <= n <= i64::MAX,
    ensures
        input.get("enabled"@) == Some(JsonV::Bool(b)) ==> config::checkin_settings(input).get("enabled"@) == Some(
            JsonV::Bool(b),
        ),
        input.get("enabled"@) is None ==> config::checkin_settings(input).get("enabled"@) == Some(JsonV::Bool(true)),
        input.get("start_hour"@) == Some(JsonV::Int(n)) ==> config::checkin_settings(input).get("start_hour"@) == Some(
            JsonV::Int(n),
        ),
        input.get("start_hour"@) is None ==> config::checkin_settings(input).get("start_hour"@) == Some(JsonV::Int(6)),
        input.get("end_hour"@) == Some(JsonV::Int(n)) ==> config::checkin_settings(input).get("end_hour"@) == Some(
            JsonV::Int(n),
        ),
        input.get("end_hour"@) is None ==> config::checkin_settings(input).get("end_hour"@) == Some(JsonV::Int(12)),
        input.get("keepalive_days"@) == Some(JsonV::Int(n)) ==> config::checkin_settings(input).get("keepalive_days"@)
            == Some(JsonV::Int(n)),
        input.get("keepalive_days"@) is None ==> config::checkin_settings(input).get("keepalive_days"@) == Some(
            JsonV::Int(0),
        ),
        input.get("lazy_refresh_hours"@) == Some(JsonV::Int(n)) ==> config::checkin_settings(input).get(
            "lazy_refresh_hours"@,
        ) == Some(JsonV::Int(n)),
        input.get("lazy_refresh_hours"@) is None ==> config::checkin_settings(input).get("lazy_refresh_hours"@) == Some(
            JsonV::Int(24),
        ),
{
    checkin_names();
}

/// The settings of rotation are taken from the input where it gives them, and else they are
/// the defaults, with rotation off.
pub proof fn rotation_settings_are_taken(input: JsonV, x: JsonV)
    ensures
        input.get("enabled"@) == Some(x) ==> config::rotate_settings(input).get("enabled"@) == Some(x),
        input.get("enabled"@) is None ==> config::rotate_settings(input).get("enabled"@) == Some(JsonV::Bool(false)),
        input.get("check_interval_minutes"@) == Some(x) ==> config::rotate_settings(input).get("check_interval_minutes"@) == Some(x),
        input.get("check_interval_minutes"@) is None ==> config::rotate_settings(input).get("check_interval_minutes"@) == Some(JsonV::Int(5)),
        input.get("cooldown_minutes"@) == Some(x) ==> config::rotate_settings(input).get("cooldown_minutes"@) == Some(x),
        input.get("cooldown_minutes"@) is None ==> config::rotate_settings(input).get("cooldown_minutes"@) == Some(JsonV::Int(120)),
        input.get("min_gap_hours"@) == Some(x) ==> config::rotate_settings(input).get("min_gap_hours"@) == Some(x),
        input.get("min_gap_hours"@) is None ==> config::rotate_settings(input).get("min_gap_hours"@) == Some(JsonV::Int(24)),
        input.get("min_urgency_hours"@) == Some(x) ==> config::rotate_settings(input).get("min_urgency_hours"@) == Some(x),
        input.get("min_urgency_hours"@) is None ==> config::rotate_settings(input).get("min_urgency_hours"@) == Some(JsonV::Int(72)),
        input.get("active_guard_minutes"@) == Some(x) ==> config::rotate_settings(input).get("active_guard_minutes"@) == Some(x),
        input.get("active_guard_minutes"@) is None ==> config::rotate_settings(input).get("active_guard_minutes"@) == Some(JsonV::Int(30)),
        input.get("min_remaining_credits"@) == Some(x) ==> config::rotate_settings(input).get("min_remaining_credits"@) == Some(x),
        input.get("min_remaining_credits"@) is None ==> config::rotate_settings(input).get("min_remaining_credits"@) == Some(JsonV::Int(0)),
{
    rotate_names();
}

/// The settings of travel are taken from the input where it gives them, and else they are
/// on, from eight in the morning to eight in the evening.
pub proof fn travel_settings_are_taken(input: JsonV, x: JsonV)
    ensures
        input.get("enabled"@) == Some(x) ==> config::travel_settings(input).get("enabled"@) == Some(x),
        input.get("enabled"@) is None ==> config::travel_settings(input).get("enabled"@) == Some(JsonV::Bool(true)),
        input.get("depart_time"@) == Some(x) ==> config::travel_settings(input).get("depart_time"@) == Some(x),
        input.get("depart_time"@) is None ==> config::travel_settings(input).get("depart_time"@) == Some(JsonV::Str("08:00"@)),
        input.get("claim_time"@) == Some(x) ==> config::travel_settings(input).get("claim_time"@) == Some(x),
        input.get("claim_time"@) is None ==> config::travel_settings(input).get("claim_time"@) == Some(JsonV::Str("20:00"@)),
{
    travel_names();
}

proof fn staying_stay(logs: Seq<JsonV>, keys: Seq<config::LogKeyV>, cutoff: int, n: int, k: int) -> (i: int)
    requires
        0 <= n <= logs.len(),
        keys.len() == logs.len(),
        0 <= k < config::staying(logs, keys, cutoff, n).len(),
    ensures
        0 <= i < n,
        config::stays(keys, cutoff, i),
        config::staying(logs, keys, cutoff, n)[k] == logs[i],
    decreases n,
{
    if config::stays(keys, cutoff, n - 1) && k == config::staying(logs, keys, cutoff, n - 1).len() {
        n - 1
    } else {
        staying_stay(logs, keys, cutoff, n - 1, k)
    }
}

/// Of the entries that an account had checked in already on one day, the kept one is the
/// newest in the log; and what is kept is of the last thirty days.
pub proof fn the_newest_repeat_is_kept(logs: Seq<JsonV>, days: Map<int, i32>, at: i64, k: int, j: int)
    requires
        at >= 0,
        0 <= k < config::normalized(logs, days, at as int).len(),
        0 <= j < logs.len(),
    ensures
        ({
            let kept = config::log_key(config::normalized(logs, days, at as int)[k], days);
            let other = config::log_key(logs[j], days);
            &&& kept.ts matches Some(t) && t >= at - 2_592_000_000
            &&& kept.already is Some && other.already == kept.already ==> other.ts->0 <= kept.ts->0
        }),
{
    let keys = config::log_keys(logs, days);
    let cutoff = config::log_cutoff(at as int);
    let all = config::staying(logs, keys, cutoff, logs.len() as int);
    let kept = config::normalized(logs, days, at as int);
    let shift = all.len() - kept.len();
    assert(kept[k] == all[k + shift]);
    let i = staying_stay(logs, keys, cutoff, logs.len() as int, k + shift);
    assert(keys[i] == config::log_key(logs[i], days));
    assert(keys[j] == config::log_key(logs[j], days));
    assert(!config::supersedes(keys, cutoff, j, i));
}

/// A log entry of a check-in that had been done already goes by its account, or without
/// one by its email, and by the day of its time.
pub proof fn repeats_go_by_account_and_day(entry: JsonV, days: Map<int, i32>, t: int, who: Seq<char>)
    requires
        10_000_000_000 <= t <= i64::MAX,
        entry.get("ts"@) == Some(JsonV::Int(t)),
        text::trim(who) == who && who.len() > 0,
    ensures
        config::log_key(entry, days).ts == Some(t),
        entry.get("result"@) == Some(JsonV::Str("already"@)) && days.contains_key(t) && entry.get("accountId"@) == Some(
            JsonV::Str(who),
        ) ==> config::log_key(entry, days).already == Some(("account:"@ + who, days[t])),
        entry.get("result"@) == Some(JsonV::Str("already"@)) && days.contains_key(t) && entry.get("accountId"@) is None
            && entry.get("email"@) == Some(JsonV::Str(who)) ==> config::log_key(entry, days).already == Some(
            ("legacy:"@ + who, days[t]),
        ),
        entry.get("result"@) == Some(JsonV::Str("success"@)) ==> config::log_key(entry, days).already is None,
{
    reveal_strlit("already");
    reveal_strlit("success");
    assert("already"@[0] != "success"@[0]);
}

/// An answer is the value that its text spells; without one it is nothing where the
/// request went well, and else its status and the first 500 characters of its text.
pub proof fn answers_are_what_they_spell(status: int, body: Seq<char>)
    ensures
        json::json_of_text(body) matches Ok(v) ==> config::answer(status, body) == v,
        json::json_of_text(body) is Err && 200 <= status < 300 ==> config::answer(status, body) == JsonV::Null,
        json::json_of_text(body) is Err && !(200 <= status < 300) ==> config::answer(status, body).get("code"@) == Some(
            JsonV::Int(status),
        ) && config::answer(status, body).get("message"@) == Some(
            JsonV::Str(
                if body.len() > 500 {
                    body.subrange(0, 500)
                } else {
                    body
                },
            ),
        ),
{
    reveal_strlit("code");
    reveal_strlit("message");
    assert("code"@.len() != "message"@.len());
    if body.len() <= 500 {
        assert(text::head(body, 500) =~= body);
    }
}

/// A path is missing where the answer has the code 404.
pub proof fn missing_paths_are_answered_404(resp: JsonV, code: int)
    requires
        resp.get("code"@) == Some(JsonV::Int(code)),
    ensures
        config::route_missing(resp) == (code == 404),
{
}

/// A record that is imported without a token is left out; one whose uid is stored takes
/// the place of the first with it, and keeps its id where it brings none; any other is
/// added at the end.
pub proof fn records_are_merged_by_uid(accounts: Seq<JsonV>, item: JsonV, t: Seq<char>, u: Seq<char>, k: int)
    requires
        text::trim(t) == t && t.len() > 0,
        text::trim(u) == u && u.len() > 0,
        item is Obj,
    ensures
        item.get("access_token"@) is None ==> export_import::merged_record(accounts, item) == (
        accounts,
        MergeOutcome::Skipped,
        ),
        item.get("access_token"@) == Some(JsonV::Str(t)) && item.get("uid"@) is None ==> export_import::merged_record(
            accounts,
            item,
        ) == (accounts.push(item), MergeOutcome::Appended),
        item.get("access_token"@) == Some(JsonV::Str(t)) && item.get("uid"@) == Some(JsonV::Str(u)) && (forall|j: int|
            0 <= j < accounts.len() ==> account::str_of(#[trigger] accounts[j], "uid"@) != Some(u))
            ==> export_import::merged_record(accounts, item) == (accounts.push(item), MergeOutcome::Appended),
        item.get("access_token"@) == Some(JsonV::Str(t)) && item.get("uid"@) == Some(JsonV::Str(u)) && 0 <= k
            < accounts.len() && account::str_of(accounts[k], "uid"@) == Some(u) && (forall|j: int|
            0 <= j < k ==> account::str_of(#[trigger] accounts[j], "uid"@) != Some(u)) ==> {
            let (after, outcome) = export_import::merged_record(accounts, item);
            &&& outcome == MergeOutcome::Overwritten
            &&& after.len() == accounts.len()
            &&& forall|j: int| 0 <= j < accounts.len() && j != k ==> #[trigger] after[j] == accounts[j]
            &&& forall|key: Seq<char>| key != "id"@ ==> #[trigger] after[k].get(key) == item.get(key)
            &&& item.get("id"@) is None ==> (accounts[k].get("id"@) matches Some(id) ==> after[k].get("id"@) == Some(id))
        },
{
    if forall|j: int| 0 <= j < accounts.len() ==> account::str_of(#[trigger] accounts[j], "uid"@) != Some(u) {
        uid_is_none(accounts, u, 0);
    }
    if 0 <= k < accounts.len() && account::str_of(accounts[k], "uid"@) == Some(u) && (forall|j: int|
        0 <= j < k ==> account::str_of(#[trigger] accounts[j], "uid"@) != Some(u)) {
        uid_is(accounts, u, 0, k);
    }
}

proof fn uid_is(accounts: Seq<JsonV>, u: Seq<char>, from: int, k: int)
    requires
        0 <= from <= k < accounts.len(),
        account::str_of(accounts[k], "uid"@) == Some(u),
        forall|j: int| from <= j < k ==> account::str_of(#[trigger] accounts[j], "uid"@) != Some(u),
    ensures
        export_import::uid_from(accounts, u, from) == Some(k),
    decreases k - from,
{
    if from < k {
        uid_is(accounts, u, from + 1, k);
    }
}

proof fn uid_is_none(accounts: Seq<JsonV>, u: Seq<char>, from: int)
    requires
        0 <= from,
        forall|j: int| from <= j < accounts.len() ==> account::str_of(#[trigger] accounts[j], "uid"@) != Some(u),
    ensures
        export_import::uid_from(accounts, u, from) is None,
    decreases accounts.len() - from,
{
    if from < accounts.len() {
        uid_is_none(accounts, u, from + 1);
    }
}

proof fn uid_is_stored(accounts: Seq<JsonV>, u: Seq<char>, from: int)
    requires
        0 <= from,
    ensures
        export_import::uid_from(accounts, u, from) matches Some(k) ==> from <= k < accounts.len(),
    decreases accounts.len() - from,
{
    if from < accounts.len() {
        uid_is_stored(accounts, u, from + 1);
    }
}

/// An import counts every chosen record once, as imported or as left out; and the store
/// grows by those imported that replaced none.
pub proof fn imports_are_counted(st: ImportV, items: Seq<JsonV>, indexes: Seq<usize>, i: int)
    requires
        0 <= i <= indexes.len(),
    ensures
        ({
            let end = export_import::import_from(st, items, indexes, i);
            &&& end.imported + end.skipped == st.imported + st.skipped + indexes.len() - i
            &&& st.imported <= end.imported && st.skipped <= end.skipped && st.overwritten <= end.overwritten
            &&& end.overwritten - st.overwritten <= end.imported - st.imported
            &&& end.accounts.len() - st.accounts.len() == (end.imported - st.imported) - (end.overwritten
                - st.overwritten)
        }),
    decreases indexes.len() - i,
{
    if i < indexes.len() {
        let next = export_import::import_one(st, items, indexes[i] as int);
        if indexes[i] < items.len() && account::str_of(items[indexes[i] as int], "uid"@) is Some {
            uid_is_stored(st.accounts, account::str_of(items[indexes[i] as int], "uid"@)->0, 0);
        }
        imports_are_counted(next, items, indexes, i + 1);
    }
}

/// One record more is imported where it has a token, and counted as replacing one where
/// it did.
pub proof fn one_import_is_counted(st: ImportV, items: Seq<JsonV>, index: int)
    ensures
        ({
            let next = export_import::import_one(st, items, index);
            &&& !(0 <= index < items.len()) ==> next == (ImportV { skipped: st.skipped + 1, ..st })
            &&& 0 <= index < items.len() ==> {
                let (accounts, outcome) = export_import::merged_record(st.accounts, items[index]);
                &&& next.accounts == accounts
                &&& next.imported == st.imported + (if outcome == MergeOutcome::Skipped {
                    0int
                } else {
                    1
                })
                &&& next.skipped == st.skipped + (if outcome == MergeOutcome::Skipped {
                    1int
                } else {
                    0
                })
                &&& next.overwritten == st.overwritten + (if outcome == MergeOutcome::Overwritten {
                    1int
                } else {
                    0
                })
            }
        }),
{
}

/// An export holds, for each chosen id in turn, the first account that has it; ids that no
/// account has are passed.
pub proof fn exports_hold_the_chosen(accounts: Seq<JsonV>, ids: Seq<Seq<char>>)
    requires
        forall|i: int| 0 <= i < ids.len() ==> text::trim(#[trigger] ids[i]) == ids[i] && ids[i].len() > 0,
    ensures
        export_import::records_of(accounts, ids) == ids.filter(
            |id: Seq<char>| export_import::id_from(accounts, id, 0) is Some,
        ).map_values(|id: Seq<char>| export_import::id_from(accounts, id, 0)->0),
        ids.len() > 0 && export_import::records_of(accounts, ids).len() > 0 ==> export_import::exported(accounts, ids)
            == Ok::<Seq<JsonV>, Seq<char>>(export_import::records_of(accounts, ids)),
        ids.len() == 0 || export_import::records_of(accounts, ids).len() == 0 ==> export_import::exported(
            accounts,
            ids,
        ) is Err,
{
    chosen_are(ids);
    records_are(accounts, ids);
}

proof fn chosen_are(ids: Seq<Seq<char>>)
    requires
        forall|i: int| 0 <= i < ids.len() ==> text::trim(#[trigger] ids[i]) == ids[i] && ids[i].len() > 0,
    ensures
        export_import::chosen_ids(ids) == ids,
    decreases ids.len(),
{
    if ids.len() > 0 {
        let n = ids.len() - 1;
        assert forall|i: int| 0 <= i < ids.subrange(0, n).len() implies text::trim(#[trigger] ids.subrange(0, n)[i])
            == ids.subrange(0, n)[i] && ids.subrange(0, n)[i].len() > 0 by {
            assert(ids.subrange(0, n)[i] == ids[i]);
        }
        chosen_are(ids.subrange(0, n));
        assert(text::trim(ids[n]) == ids[n]);
        assert(ids.subrange(0, n).push(ids[n]) =~= ids);
    } else {
        assert(ids =~= Seq::empty());
    }
}

proof fn records_are(accounts: Seq<JsonV>, ids: Seq<Seq<char>>)
    ensures
        export_import::records_of(accounts, ids) == ids.filter(
            |id: Seq<char>| export_import::id_from(accounts, id, 0) is Some,
        ).map_values(|id: Seq<char>| export_import::id_from(accounts, id, 0)->0),
    decreases ids.len(),
{
    let keep = |id: Seq<char>| export_import::id_from(accounts, id, 0) is Some;
    let of = |id: Seq<char>| export_import::id_from(accounts, id, 0)->0;
    reveal(Seq::filter);
    if ids.len() > 0 {
        let front = ids.subrange(0, ids.len() - 1);
        let last = ids[ids.len() - 1];
        assert(front =~= ids.drop_last());
        records_are(accounts, front);
        if keep(last) {
            assert(front.filter(keep).push(last).map_values(of) =~= front.filter(keep).map_values(of).push(of(last)));
        }
    }
}

proof fn id_is(accounts: Seq<JsonV>, id: Seq<char>, from: int, k: int)
    requires
        0 <= from <= k < accounts.len(),
        accounts[k].get("id"@) == Some(JsonV::Str(id)),
        forall|j: int| from <= j < k ==> (#[trigger] accounts[j]).get("id"@) != Some(JsonV::Str(id)),
    ensures
        export_import::id_from(accounts, id, from) == Some(accounts[k]),
    decreases k - from,
{
    if from < k {
        id_is(accounts, id, from + 1, k);
    }
}

/// An exported account is found by its id: the first that has it.
pub proof fn exports_find_by_id(accounts: Seq<JsonV>, id: Seq<char>, k: int)
    requires
        0 <= k < accounts.len(),
        accounts[k].get("id"@) == Some(JsonV::Str(id)),
        forall|j: int| 0 <= j < k ==> (#[trigger] accounts[j]).get("id"@) != Some(JsonV::Str(id)),
    ensures
        export_import::id_from(accounts, id, 0) == Some(accounts[k]),
{
    id_is(accounts, id, 0, k);
}

/// What is shown of a record beforehand is what it holds, its place, and whether it has a
/// token.
pub proof fn previews_show_the_records(items: Seq<JsonV>, i: int, x: JsonV, t: Seq<char>)
    requires
        0 <= i < items.len(),
    ensures
        export_import::preview(items).get("total"@) == Some(JsonV::Int(items.len() as int)),
        export_import::preview(items).get("accounts"@) matches Some(JsonV::Arr(l)) && l.len() == items.len() && {
            let row = l[i];
            &&& row.get("index"@) == Some(JsonV::Int(i))
            &&& items[i].get("uid"@) == Some(x) ==> row.get("uid"@) == Some(x)
            &&& items[i].get("nickname"@) == Some(x) ==> row.get("nickname"@) == Some(x)
            &&& items[i].get("email"@) == Some(x) ==> row.get("email"@) == Some(x)
            &&& items[i].get("access_token"@) == Some(JsonV::Str(t)) ==> row.get("hasToken"@) == Some(
                JsonV::Bool(text::trim(t).len() > 0),
            )
            &&& items[i].get("access_token"@) is None ==> row.get("hasToken"@) == Some(JsonV::Bool(false))
        },
{
    preview_names();
    reveal_strlit("accounts");
    reveal_strlit("total");
    assert("accounts"@.len() != "total"@.len());
}

proof fn non_object_is(s: Seq<JsonV>, from: int, k: int)
    requires
        0 <= from <= k < s.len(),
        !(s[k] is Obj),
        forall|j: int| from <= j < k ==> #[trigger] s[j] is Obj,
    ensures
        export_import::non_object_from(s, from) == Some(k),
    decreases k - from,
{
    if from < k {
        non_object_is(s, from + 1, k);
    }
}

proof fn non_object_is_none(s: Seq<JsonV>, from: int)
    requires
        0 <= from,
        forall|j: int| from <= j < s.len() ==> #[trigger] s[j] is Obj,
    ensures
        export_import::non_object_from(s, from) is None,
    decreases s.len() - from,
{
    if from < s.len() {
        non_object_is_none(s, from + 1);
    }
}

/// A file is read as the list of accounts that it spells; where an entry is no account,
/// the first such one is named by its place, counted from one.
pub proof fn files_are_read_as_lists(content: Seq<char>, s: Seq<JsonV>, k: int)
    requires
        text::trim(content).len() > 0,
    ensures
        (forall|j: int| 0 <= j < s.len() ==> #[trigger] s[j] is Obj) ==> export_import::accounts_in(
            content,
            Ok(JsonV::Arr(s)),
        ) == Ok::<Seq<JsonV>, Seq<char>>(s),
        0 <= k < s.len() && !(s[k] is Obj) && (forall|j: int| 0 <= j < k ==> #[trigger] s[j] is Obj)
            ==> export_import::accounts_in(content, Ok(JsonV::Arr(s))) == Err::<Seq<JsonV>, Seq<char>>(
            "文件第 "@ + text::int_text(k + 1) + " 项不是合法的账号对象"@,
        ),
{
    if forall|j: int| 0 <= j < s.len() ==> #[trigger] s[j] is Obj {
        non_object_is_none(s, 0);
    }
    if 0 <= k < s.len() && !(s[k] is Obj) && (forall|j: int| 0 <= j < k ==> #[trigger] s[j] is Obj) {
        non_object_is(s, 0, k);
    }
}

/// The edition of an account is the one that it names; without a name it follows from the
/// domain, and without that it is the domestic one.
pub proof fn editions_are_named(acc: JsonV, d: Seq<char>)
    ensures
        acc.get("variant"@) == Some(JsonV::Str("ai"@)) ==> variant::variant_in(acc) == WbVariant::Ai,
        acc.get("variant"@) == Some(JsonV::Str("cn"@)) ==> variant::variant_in(acc) == WbVariant::Cn,
        acc.get("variant"@) is None && acc.get("domain"@) is None ==> variant::variant_in(acc) == WbVariant::Cn,
        acc.get("variant"@) is None && acc.get("domain"@) == Some(JsonV::Str(d)) && text::trim(d) == d && d.len() > 0
            ==> variant::variant_in(acc) == variant::variant_of_domain(d),
        WbVariant::Ai.name() == "ai"@,
        WbVariant::Cn.name() == "cn"@,
{
    reveal_strlit("ai");
    reveal_strlit("cn");
    assert("ai"@.len() == 2 && "ai"@[0] == 'a' && "ai"@[1] == 'i');
    assert("cn"@.len() == 2 && "cn"@[0] == 'c' && "cn"@[1] == 'n');
}

/// An account that is collected without a uid is the same as a stored one with its email,
/// whatever its case; an email that is no address, or that only repeats the name, is none.
pub proof fn accounts_without_uid_are_the_same_by_email(a: JsonV, c: JsonV, e: Seq<char>, g: Seq<char>)
    requires
        c.get("uid"@) is None,
        c.get("nickname"@) is None,
        c.get("email"@) == Some(JsonV::Str(e)),
        text::trim(e) == e && e.len() > 0,
        text::has(e, "@"@) && text::lower(e) != "unknown"@ && e != "手动添加"@,
    ensures
        a.get("email"@) == Some(JsonV::Str(g)) && text::trim(g) == g && a.get("nickname"@) is None && a.get("uid"@) is None
            && text::has(g, "@"@) && text::lower(g) != "unknown"@ && g != "手动添加"@ ==> account::same_identity(a, c) == (
        text::lower(e) == text::lower(g)),
        a.get("email"@) is None ==> !account::same_identity(a, c),
        !text::has(g, "@"@) && a.get("email"@) == Some(JsonV::Str(g)) && text::trim(g) == g ==> !account::same_identity(
            a,
            c,
        ),
{
    reveal_strlit("@");
    assert("@"@.len() == 1);
    if text::has(g, "@"@) {
        let i = choose|i: int| text::occurs(g, "@"@, i);
        assert(g.len() > 0);
    }
}

/// An export goes to an absolute path that ends in `.json`, whatever its case.
pub proof fn exports_go_to_json_files(ext: Seq<char>)
    ensures
        (export_import::export_path_verdict(true, Some(ext)) is Ok) == (text::lower(ext) == "json"@),
        export_import::export_path_verdict(true, None) is Err,
        export_import::export_path_verdict(false, Some(ext)) is Err,
{
}

/// The file name of an export is not blank, ends in `.json` and leads nowhere else.
pub proof fn export_names_lead_nowhere(name: Seq<char>)
    requires
        export_import::export_name_ok(name),
    ensures
        text::trim(name).len() >= 5,
        !text::has(text::trim(name), "/"@),
        !text::has(text::trim(name), "\\"@),
        !text::has(text::trim(name), ".."@),
        text::ends_with(text::trim(name), ".json"@),
{
    reveal_strlit(".json");
    assert(".json"@.len() == 5);
}

/// Stored settings are the defaults with what the file spells on top.
pub proof fn stored_settings_count_first(defaults: JsonV, content: Seq<char>, v: JsonV, key: Seq<char>)
    requires
        defaults is Obj,
        v is Obj,
        json::json_of_text(content) == Ok::<JsonV, Seq<char>>(v),
    ensures
        v.get(key) is Some ==> config::overlaid(defaults, Some(content)).get(key) == v.get(key),
        v.get(key) is None ==> config::overlaid(defaults, Some(content)).get(key) == defaults.get(key),
        config::overlaid(defaults, None) == defaults,
{
}

/// An import begins with nothing counted.
pub proof fn imports_begin_with_nothing_counted(accounts: Seq<JsonV>, items: Seq<JsonV>, indexes: Seq<usize>)
    ensures
        ({
            let end = export_import::imported_into(accounts, items, indexes);
            &&& end.imported + end.skipped == indexes.len()
            &&& 0 <= end.overwritten <= end.imported
            &&& end.accounts.len() == accounts.len() + end.imported - end.overwritten
            &&& indexes.len() == 0 ==> end.accounts == accounts
        }),
{
    imports_are_counted(ImportV { accounts, imported: 0, skipped: 0, overwritten: 0 }, items, indexes, 0);
}

} // verus!
