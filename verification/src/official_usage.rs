//! The service's own record of requests: reading its pages, summing them up, and
//! keeping the result without anything that a request said.
use vstd::prelude::*;
use crate::account;
use crate::clock;
use crate::credits;
use crate::credits::{TimeReading, TimeReadingV};
use crate::json;
use crate::json::{Json, JsonV, Real};
use crate::numbers;
use crate::statistics;
use crate::statistics::{UsageEvent, UsageV, Window};
use crate::text;
use crate::text::same;
use crate::variant::WbVariant;

verus! {

/// The address of the record.
pub const OFFICIAL_USAGE_URL: &'static str = "https://www.workbuddy.cn/billing/meter/get-user-request-usage";

/// How many requests a page holds.
pub const OFFICIAL_USAGE_PAGE_SIZE: usize = 3_000;

/// How many requests are told of an account.
pub const OFFICIAL_USAGE_DETAIL_LIMIT: usize = 100;

/// How many pages are asked for.
pub const OFFICIAL_USAGE_MAX_PAGES: usize = 100;

/// The object of the first `n` members named that a value has, and of no others.
pub open spec fn only(v: JsonV, keys: Seq<Seq<char>>, n: int) -> JsonV
    decreases n,
{
    if n <= 0 || n > keys.len() {
        JsonV::empty()
    } else {
        only(v, keys, n - 1).take(v, keys[n - 1])
    }
}

/// The object of the members named, and of no others.
pub open spec fn only_fields(v: JsonV, keys: Seq<Seq<char>>) -> JsonV {
    only(v, keys, keys.len() as int)
}

fn take_object_fields(v: &Json, keys: &[&str]) -> (r: Json)
    ensures
        r@ == only_fields(v@, credits::texts(keys@)),
        r@ is Obj,
{
    let ghost names = credits::texts(keys@);
    let mut out: Json = Json::object();
    let mut i: usize = 0;
    while i < keys.len()
        invariant
            i <= keys@.len(),
            names == credits::texts(keys@),
            out@ == only(v@, names, i as int),
            out@ is Obj,
        decreases keys@.len() - i,
    {
        out = out.take(v, keys[i]);
        i += 1;
    }
    out
}

proof fn only_has_named(v: JsonV, keys: Seq<Seq<char>>, n: int, key: Seq<char>)
    requires
        0 <= n <= keys.len(),
        !keys.contains(key),
    ensures
        only(v, keys, n) is Obj,
        only(v, keys, n).get(key) is None,
    decreases n,
{
    if n > 0 {
        only_has_named(v, keys, n - 1, key);
        assert(keys[n - 1] != key);
    }
}

/// What is kept of a model.
pub open spec fn model_keys() -> Seq<Seq<char>> {
    seq!["model"@, "requestCount"@, "credit"@]
}

/// What is kept of a request: nothing of what it said.
pub open spec fn request_keys() -> Seq<Seq<char>> {
    seq![
        "accountId"@,
        "accountName"@,
        "requestId"@,
        "credit"@,
        "model"@,
        "client"@,
        "requestTime"@,
    ]
}

/// What is kept of a day, besides its models.
pub open spec fn day_keys() -> Seq<Seq<char>> {
    seq!["date"@, "usage"@]
}

/// What is kept of an account, besides its models and days.
pub open spec fn account_keys() -> Seq<Seq<char>> {
    seq![
        "accountId"@,
        "accountName"@,
        "ok"@,
        "requestCount"@,
        "detailTruncated"@,
        "usageToday"@,
        "usage7Days"@,
        "usageThisMonth"@,
        "error"@,
        "reportedTotal"@,
        "fetchedCount"@,
    ]
}

/// What is kept of a report, besides its lists.
pub open spec fn report_keys() -> Seq<Seq<char>> {
    seq![
        "status"@,
        "rangeStart"@,
        "rangeEnd"@,
        "summary"@,
        "detailLimitPerAccount"@,
        "collectedAt"@,
        "errors"@,
    ]
}

/// The entries of a list; none where it is no list.
pub open spec fn entries(v: Option<JsonV>) -> Seq<JsonV> {
    match v {
        Some(JsonV::Arr(s)) => s,
        _ => Seq::empty(),
    }
}

/// The models that are kept.
pub open spec fn clean_models(v: Option<JsonV>) -> JsonV {
    JsonV::Arr(entries(v).map_values(|x: JsonV| only_fields(x, model_keys())))
}

/// A day that is kept.
pub open spec fn clean_day(x: JsonV) -> JsonV {
    only_fields(x, day_keys()).put("models"@, clean_models(x.get("models"@)))
}

/// The days that are kept.
pub open spec fn clean_daily(v: Option<JsonV>) -> JsonV {
    JsonV::Arr(entries(v).map_values(|x: JsonV| clean_day(x)))
}

/// The requests that are kept.
pub open spec fn clean_requests(v: Option<JsonV>) -> JsonV {
    JsonV::Arr(entries(v).map_values(|x: JsonV| only_fields(x, request_keys())))
}

/// An account that is kept.
pub open spec fn clean_account(x: JsonV) -> JsonV {
    only_fields(x, account_keys()).put("models"@, clean_models(x.get("models"@))).put(
        "daily"@,
        clean_daily(x.get("daily"@)),
    )
}

/// The accounts that are kept.
pub open spec fn clean_accounts(v: Option<JsonV>) -> JsonV {
    JsonV::Arr(entries(v).map_values(|x: JsonV| clean_account(x)))
}

/// A report's state.
pub open spec fn known_status(s: Seq<char>) -> bool {
    s == "complete"@ || s == "partial"@ || s == "unavailable"@
}

/// The report that is kept; none where it has no known state.
pub open spec fn clean_report(v: JsonV) -> Option<JsonV> {
    match v.get_str("status"@) {
        Some(s) => if known_status(s) {
            Some(
                only_fields(v, report_keys()).put("daily"@, clean_daily(v.get("daily"@))).put(
                    "models"@,
                    clean_models(v.get("models"@)),
                ).put("accounts"@, clean_accounts(v.get("accounts"@))).put(
                    "requests"@,
                    clean_requests(v.get("requests"@)),
                ),
            )
        } else {
            None
        },
        None => None,
    }
}

fn entries_of(v: Option<&Json>) -> (r: Option<&Vec<Json>>)
    ensures
        match r {
            Some(l) => entries(json::opt_view(v)) == json::list_view(l@),
            None => entries(json::opt_view(v)) == Seq::<JsonV>::empty(),
        },
{
    match v {
        Some(x) => x.as_arr(),
        None => None,
    }
}

fn sanitize_models(v: Option<&Json>) -> (r: Json)
    ensures
        r@ == clean_models(json::opt_view(v)),
{
    let ghost all = entries(json::opt_view(v));
    let keys: Vec<&str> = vec!["model", "requestCount", "credit"];
    assert(credits::texts(keys@) =~= model_keys());
    let mut out: Vec<Json> = Vec::new();
    match entries_of(v) {
        Some(l) => {
            let mut i: usize = 0;
            while i < l.len()
                invariant
                    i <= l@.len(),
                    all == json::list_view(l@),
                    credits::texts(keys@) == model_keys(),
                    out@.len() == i,
                    forall|j: int| 0 <= j < i ==> (#[trigger] out@[j])@ == only_fields(all[j], model_keys()),
                decreases l@.len() - i,
            {
                assert(all[i as int] == l@[i as int]@);
                out.push(take_object_fields(&l[i], keys.as_slice()));
                i += 1;
            }
        },
        None => {},
    }
    assert(json::list_view(out@) =~= all.map_values(|x: JsonV| only_fields(x, model_keys())));
    Json::Arr(out)
}

fn sanitize_day(x: &Json) -> (r: Json)
    ensures
        r@ == clean_day(x@),
{
    let keys: Vec<&str> = vec!["date", "usage"];
    assert(credits::texts(keys@) =~= day_keys());
    take_object_fields(x, keys.as_slice()).put("models", sanitize_models(x.get("models")))
}

fn sanitize_daily(v: Option<&Json>) -> (r: Json)
    ensures
        r@ == clean_daily(json::opt_view(v)),
{
    let ghost all = entries(json::opt_view(v));
    let mut out: Vec<Json> = Vec::new();
    match entries_of(v) {
        Some(l) => {
            let mut i: usize = 0;
            while i < l.len()
                invariant
                    i <= l@.len(),
                    all == json::list_view(l@),
                    out@.len() == i,
                    forall|j: int| 0 <= j < i ==> (#[trigger] out@[j])@ == clean_day(all[j]),
                decreases l@.len() - i,
            {
                assert(all[i as int] == l@[i as int]@);
                out.push(sanitize_day(&l[i]));
                i += 1;
            }
        },
        None => {},
    }
    assert(json::list_view(out@) =~= all.map_values(|x: JsonV| clean_day(x)));
    Json::Arr(out)
}

fn sanitize_requests(v: Option<&Json>) -> (r: Json)
    ensures
        r@ == clean_requests(json::opt_view(v)),
{
    let ghost all = entries(json::opt_view(v));
    let keys: Vec<&str> = vec![
        "accountId",
        "accountName",
        "requestId",
        "credit",
        "model",
        "client",
        "requestTime",
    ];
    assert(credits::texts(keys@) =~= request_keys());
    let mut out: Vec<Json> = Vec::new();
    match entries_of(v) {
        Some(l) => {
            let mut i: usize = 0;
            while i < l.len()
                invariant
                    i <= l@.len(),
                    all == json::list_view(l@),
                    credits::texts(keys@) == request_keys(),
                    out@.len() == i,
                    forall|j: int| 0 <= j < i ==> (#[trigger] out@[j])@ == only_fields(all[j], request_keys()),
                decreases l@.len() - i,
            {
                assert(all[i as int] == l@[i as int]@);
                out.push(take_object_fields(&l[i], keys.as_slice()));
                i += 1;
            }
        },
        None => {},
    }
    assert(json::list_view(out@) =~= all.map_values(|x: JsonV| only_fields(x, request_keys())));
    Json::Arr(out)
}

fn sanitize_account(x: &Json) -> (r: Json)
    ensures
        r@ == clean_account(x@),
{
    let keys: Vec<&str> = vec![
        "accountId",
        "accountName",
        "ok",
        "requestCount",
        "detailTruncated",
        "usageToday",
        "usage7Days",
        "usageThisMonth",
        "error",
        "reportedTotal",
        "fetchedCount",
    ];
    assert(credits::texts(keys@) =~= account_keys());
    take_object_fields(x, keys.as_slice()).put("models", sanitize_models(x.get("models"))).put(
        "daily",
        sanitize_daily(x.get("daily")),
    )
}

fn sanitize_accounts(v: Option<&Json>) -> (r: Json)
    ensures
        r@ == clean_accounts(json::opt_view(v)),
{
    let ghost all = entries(json::opt_view(v));
    let mut out: Vec<Json> = Vec::new();
    match entries_of(v) {
        Some(l) => {
            let mut i: usize = 0;
            while i < l.len()
                invariant
                    i <= l@.len(),
                    all == json::list_view(l@),
                    out@.len() == i,
                    forall|j: int| 0 <= j < i ==> (#[trigger] out@[j])@ == clean_account(all[j]),
                decreases l@.len() - i,
            {
                assert(all[i as int] == l@[i as int]@);
                out.push(sanitize_account(&l[i]));
                i += 1;
            }
        },
        None => {},
    }
    assert(json::list_view(out@) =~= all.map_values(|x: JsonV| clean_account(x)));
    Json::Arr(out)
}

/// The report that is kept: only known members, and nothing of what a request
/// said; none where it has no known state.
pub fn sanitize_cached_payload(v: &Json) -> (r: Option<Json>)
    ensures
        account::opt_json(r) == clean_report(v@),
{
    let known: bool = match v.get_str("status") {
        Some(s) => same(s, "complete") || same(s, "partial") || same(s, "unavailable"),
        None => false,
    };
    if !known {
        return None;
    }
    let keys: Vec<&str> = vec![
        "status",
        "rangeStart",
        "rangeEnd",
        "summary",
        "detailLimitPerAccount",
        "collectedAt",
        "errors",
    ];
    assert(credits::texts(keys@) =~= report_keys());
    Some(
        take_object_fields(v, keys.as_slice()).put("daily", sanitize_daily(v.get("daily"))).put(
            "models",
            sanitize_models(v.get("models")),
        ).put("accounts", sanitize_accounts(v.get("accounts"))).put("requests", sanitize_requests(v.get("requests"))),
    )
}

/// The report in a cache: under `payload`, or the whole.
pub open spec fn cached_report(v: JsonV) -> Option<JsonV> {
    match v.get("payload"@) {
        Some(p) => clean_report(p),
        None => clean_report(v),
    }
}

/// The report in a cache.
pub fn report_in_cache(v: &Json) -> (r: Option<Json>)
    ensures
        account::opt_json(r) == cached_report(v@),
{
    match v.get("payload") {
        Some(p) => sanitize_cached_payload(p),
        None => sanitize_cached_payload(v),
    }
}

/// The report that a cache's text spells, where there is a text.
pub open spec fn spelled_report(content: Option<Seq<char>>) -> Option<JsonV> {
    match content {
        Some(text) => match json::json_of_text(text) {
            Ok(v) => cached_report(v),
            Err(_) => None,
        },
        None => None,
    }
}

/// The report that a cache's text spells; none where it spells no report.
pub fn parse_official_usage_cache(content: &str) -> (r: Option<Json>)
    ensures
        account::opt_json(r) == spelled_report(Some(content@)),
{
    match json::parse_json(content) {
        Ok(v) => report_in_cache(&v),
        Err(_) => None,
    }
}

/// The report that is shown without asking the service: none where a new one was
/// asked for, else the one in memory, else the one that the cache's text spells.
pub open spec fn report_at_hand(refresh: bool, memory: Option<JsonV>, content: Option<Seq<char>>) -> Option<JsonV> {
    if refresh {
        None
    } else if memory is Some {
        memory
    } else {
        spelled_report(content)
    }
}

/// The report of usage for the statistics, as far as it is at hand; where it is
/// not, the service is asked.
pub fn official_usage_for_statistics(refresh: bool, memory: Option<&Json>, content: Option<&str>) -> (r: Option<Json>)
    ensures
        account::opt_json(r) == report_at_hand(refresh, json::opt_view(memory), json::opt_text(content)),
{
    if refresh {
        return None;
    }
    if let Some(report) = memory {
        return Some(report.clone());
    }
    match content {
        Some(content) => parse_official_usage_cache(content),
        None => None,
    }
}

/// What a cache holds of a report.
pub fn cache_of(report: Json) -> (r: Json)
    ensures
        r@ == JsonV::empty().put("payload"@, report@),
{
    Json::object().put("payload", report)
}

/// No kept request has a member beyond those that are kept: what a request said
/// is gone.
pub proof fn kept_requests_say_nothing(x: JsonV, key: Seq<char>)
    requires
        !request_keys().contains(key),
    ensures
        only_fields(x, request_keys()).get(key) is None,
{
    only_has_named(x, request_keys(), request_keys().len() as int, key);
}

/// A kept report has no member beyond those that are kept.
pub proof fn kept_report_has_known_members(v: JsonV, key: Seq<char>)
    requires
        !report_keys().contains(key),
        key != "daily"@ && key != "models"@ && key != "accounts"@ && key != "requests"@,
    ensures
        clean_report(v) matches Some(r) ==> r.get(key) is None,
{
    only_has_named(v, report_keys(), report_keys().len() as int, key);
}

proof fn only_settles(v: JsonV, w: JsonV, keys: Seq<Seq<char>>, n: int)
    requires
        0 <= n <= keys.len(),
        forall|i: int| 0 <= i < keys.len() ==> v.get(#[trigger] keys[i]) == w.get(keys[i]),
    ensures
        only(v, keys, n) == only(w, keys, n),
    decreases n,
{
    if n > 0 {
        only_settles(v, w, keys, n - 1);
        assert(v.get(keys[n - 1]) == w.get(keys[n - 1]));
    }
}

proof fn only_keeps(v: JsonV, keys: Seq<Seq<char>>, n: int, i: int)
    requires
        0 <= i < n <= keys.len(),
    ensures
        only(v, keys, n) is Obj,
        only(v, keys, n).get(keys[i]) == v.get(keys[i]),
    decreases n,
{
    if n > 1 && i < n - 1 {
        only_keeps(v, keys, n - 1, i);
    } else {
        only_absent(v, keys, n - 1, keys[i]);
    }
}

proof fn only_absent(v: JsonV, keys: Seq<Seq<char>>, n: int, key: Seq<char>)
    requires
        0 <= n <= keys.len(),
    ensures
        only(v, keys, n) is Obj,
        v.get(key) is None ==> only(v, keys, n).get(key) is None,
    decreases n,
{
    if n > 0 {
        only_absent(v, keys, n - 1, key);
    }
}

/// Keeping what is kept changes nothing more of a request or a model.
pub proof fn keeping_settles(v: JsonV, keys: Seq<Seq<char>>)
    ensures
        only_fields(only_fields(v, keys), keys) == only_fields(v, keys),
{
    let once = only_fields(v, keys);
    assert forall|i: int| 0 <= i < keys.len() implies v.get(#[trigger] keys[i]) == once.get(keys[i]) by {
        only_keeps(v, keys, keys.len() as int, i);
    }
    only_settles(v, once, keys, keys.len() as int);
}

proof fn only_fields_of_kept(v: JsonV, w: JsonV, keys: Seq<Seq<char>>)
    requires
        forall|i: int| 0 <= i < keys.len() ==> w.get(#[trigger] keys[i]) == only_fields(v, keys).get(keys[i]),
    ensures
        only_fields(w, keys) == only_fields(v, keys),
{
    let once = only_fields(v, keys);
    assert forall|i: int| 0 <= i < keys.len() implies v.get(#[trigger] keys[i]) == w.get(keys[i]) by {
        only_keeps(v, keys, keys.len() as int, i);
    }
    only_settles(v, w, keys, keys.len() as int);
}

proof fn list_names_differ()
    ensures
        forall|i: int| 0 <= i < day_keys().len() ==> #[trigger] day_keys()[i] != "models"@,
        forall|i: int|
            0 <= i < account_keys().len() ==> #[trigger] account_keys()[i] != "models"@ && account_keys()[i] != "daily"@,
        forall|i: int|
            0 <= i < report_keys().len() ==> #[trigger] report_keys()[i] != "models"@ && report_keys()[i] != "daily"@
                && report_keys()[i] != "accounts"@ && report_keys()[i] != "requests"@,
        "models"@ != "daily"@,
        "models"@ != "accounts"@,
        "models"@ != "requests"@,
        "daily"@ != "accounts"@,
        "daily"@ != "requests"@,
        "accounts"@ != "requests"@,
        "status"@ != "daily"@,
        "status"@ != "models"@,
        "status"@ != "accounts"@,
        "status"@ != "requests"@,
{
    reveal_strlit("models");
    reveal_strlit("daily");
    reveal_strlit("accounts");
    reveal_strlit("requests");
    reveal_strlit("date");
    reveal_strlit("usage");
    reveal_strlit("accountId");
    reveal_strlit("accountName");
    reveal_strlit("ok");
    reveal_strlit("requestCount");
    reveal_strlit("detailTruncated");
    reveal_strlit("usageToday");
    reveal_strlit("usage7Days");
    reveal_strlit("usageThisMonth");
    reveal_strlit("error");
    reveal_strlit("reportedTotal");
    reveal_strlit("fetchedCount");
    reveal_strlit("status");
    reveal_strlit("rangeStart");
    reveal_strlit("rangeEnd");
    reveal_strlit("summary");
    reveal_strlit("detailLimitPerAccount");
    reveal_strlit("collectedAt");
    reveal_strlit("errors");
    assert("models"@[0] == 'm' && "daily"@[0] == 'd' && "accounts"@[0] == 'a' && "requests"@[0] == 'r');
    assert("models"@.len() == 6 && "daily"@.len() == 5 && "accounts"@.len() == 8 && "requests"@.len() == 8);
    assert("date"@.len() == 4 && "usage"@[0] == 'u');
    assert("accountId"@.len() == 9 && "accountName"@.len() == 11 && "ok"@.len() == 2 && "requestCount"@.len() == 12);
    assert("detailTruncated"@.len() == 15 && "usageToday"@.len() == 10 && "usage7Days"@.len() == 10);
    assert("usageThisMonth"@.len() == 14 && "error"@[0] == 'e' && "reportedTotal"@.len() == 13);
    assert("fetchedCount"@.len() == 12 && "status"@[0] == 's' && "rangeStart"@.len() == 10);
    assert("rangeEnd"@[1] == 'a' && "requests"@[1] == 'e' && "summary"@.len() == 7);
    assert("detailLimitPerAccount"@.len() == 21 && "collectedAt"@.len() == 11 && "errors"@[0] == 'e');
}

proof fn models_settle(v: Option<JsonV>)
    ensures
        clean_models(Some(clean_models(v))) == clean_models(v),
{
    let once = entries(v).map_values(|x: JsonV| only_fields(x, model_keys()));
    let twice = once.map_values(|x: JsonV| only_fields(x, model_keys()));
    assert forall|i: int| 0 <= i < once.len() implies #[trigger] twice[i] == once[i] by {
        keeping_settles(entries(v)[i], model_keys());
    }
    assert(twice =~= once);
}

proof fn requests_settle(v: Option<JsonV>)
    ensures
        clean_requests(Some(clean_requests(v))) == clean_requests(v),
{
    let once = entries(v).map_values(|x: JsonV| only_fields(x, request_keys()));
    let twice = once.map_values(|x: JsonV| only_fields(x, request_keys()));
    assert forall|i: int| 0 <= i < once.len() implies #[trigger] twice[i] == once[i] by {
        keeping_settles(entries(v)[i], request_keys());
    }
    assert(twice =~= once);
}

proof fn day_settles(x: JsonV)
    ensures
        clean_day(clean_day(x)) == clean_day(x),
{
    list_names_differ();
    let once = clean_day(x);
    only_absent(x, day_keys(), day_keys().len() as int, "models"@);
    assert forall|i: int| 0 <= i < day_keys().len() implies once.get(#[trigger] day_keys()[i]) == only_fields(
        x,
        day_keys(),
    ).get(day_keys()[i]) by {
        assert(day_keys()[i] != "models"@);
    }
    only_fields_of_kept(x, once, day_keys());
    models_settle(x.get("models"@));
    assert(once.get("models"@) == Some(clean_models(x.get("models"@))));
}

proof fn daily_settles(v: Option<JsonV>)
    ensures
        clean_daily(Some(clean_daily(v))) == clean_daily(v),
{
    let once = entries(v).map_values(|x: JsonV| clean_day(x));
    let twice = once.map_values(|x: JsonV| clean_day(x));
    assert forall|i: int| 0 <= i < once.len() implies #[trigger] twice[i] == once[i] by {
        day_settles(entries(v)[i]);
    }
    assert(twice =~= once);
}

proof fn account_settles(x: JsonV)
    ensures
        clean_account(clean_account(x)) == clean_account(x),
{
    list_names_differ();
    let once = clean_account(x);
    let keys = account_keys();
    only_absent(x, keys, keys.len() as int, "models"@);
    assert forall|i: int| 0 <= i < keys.len() implies once.get(#[trigger] keys[i]) == only_fields(x, keys).get(
        keys[i],
    ) by {
        assert(account_keys()[i] != "models"@ && account_keys()[i] != "daily"@);
    }
    only_fields_of_kept(x, once, keys);
    models_settle(x.get("models"@));
    daily_settles(x.get("daily"@));
    assert(once.get("models"@) == Some(clean_models(x.get("models"@))));
    assert(once.get("daily"@) == Some(clean_daily(x.get("daily"@))));
}

proof fn accounts_settle(v: Option<JsonV>)
    ensures
        clean_accounts(Some(clean_accounts(v))) == clean_accounts(v),
{
    let once = entries(v).map_values(|x: JsonV| clean_account(x));
    let twice = once.map_values(|x: JsonV| clean_account(x));
    assert forall|i: int| 0 <= i < once.len() implies #[trigger] twice[i] == once[i] by {
        account_settles(entries(v)[i]);
    }
    assert(twice =~= once);
}

/// A cache gives back the report that was kept in it, whole.
pub proof fn cache_gives_back(v: JsonV)
    ensures
        clean_report(v) matches Some(r) ==> cached_report(JsonV::empty().put("payload"@, r)) == Some(r),
{
    match clean_report(v) {
        Some(once) => {
            list_names_differ();
            let keys = report_keys();
            only_absent(v, keys, keys.len() as int, "models"@);
            assert forall|i: int| 0 <= i < keys.len() implies once.get(#[trigger] keys[i]) == only_fields(v, keys).get(
                keys[i],
            ) by {
                assert(report_keys()[i] != "models"@ && report_keys()[i] != "daily"@ && report_keys()[i]
                    != "accounts"@ && report_keys()[i] != "requests"@);
            }
            only_fields_of_kept(v, once, keys);
            only_keeps(v, keys, keys.len() as int, 0);
            assert(keys[0] == "status"@);
            assert(once.get("status"@) == v.get("status"@));
            models_settle(v.get("models"@));
            daily_settles(v.get("daily"@));
            accounts_settle(v.get("accounts"@));
            requests_settle(v.get("requests"@));
            assert(once.get("daily"@) == Some(clean_daily(v.get("daily"@))));
            assert(once.get("models"@) == Some(clean_models(v.get("models"@))));
            assert(once.get("accounts"@) == Some(clean_accounts(v.get("accounts"@))));
            assert(once.get("requests"@) == Some(clean_requests(v.get("requests"@))));
            assert(clean_report(once) == Some(once));
            assert(JsonV::empty().put("payload"@, once).get("payload"@) == Some(once));
        },
        None => {},
    }
}

/// A request of the record.
pub struct RequestRow {
    pub request_id: String,
    pub credit: Json,
    pub model: String,
    pub client: String,
    pub request_time: String,
    pub request_ts: i64,
    pub day: i32,
}

/// A request of the record.
pub struct RowV {
    pub id: Seq<char>,
    pub credit: JsonV,
    pub model: Seq<char>,
    pub client: Seq<char>,
    pub time: Seq<char>,
    pub ts: int,
    pub day: i32,
}

impl RequestRow {
    pub open spec fn view(&self) -> RowV {
        RowV {
            id: self.request_id@,
            credit: self.credit@,
            model: self.model@,
            client: self.client@,
            time: self.request_time@,
            ts: self.request_ts as int,
            day: self.day,
        }
    }
}

/// The requests of a list.
pub open spec fn rows_view(s: Seq<RequestRow>) -> Seq<RowV> {
    Seq::new(s.len(), |i: int| s[i]@)
}

fn copy_row(r: &RequestRow) -> (c: RequestRow)
    ensures
        c@ == r@,
{
    RequestRow {
        request_id: r.request_id.clone(),
        credit: r.credit.clone(),
        model: r.model.clone(),
        client: r.client.clone(),
        request_time: r.request_time.clone(),
        request_ts: r.request_ts,
        day: r.day,
    }
}

/// The code of an answer.
pub open spec fn page_code(resp: JsonV) -> Option<int> {
    credits::code_value(resp.get("code"@))
}

/// The code of an answer.
pub fn response_code(resp: &Json) -> (r: Option<i64>)
    ensures
        json::opt_int(r) == page_code(resp@),
{
    match resp.get("code") {
        Some(x) => match x.as_str() {
            Some(s) => {
                let t: Vec<char> = text::chars_of(s);
                text::parse_i64(text::trim_slice(t.as_slice()))
            },
            None => x.as_i64(),
        },
        None => None,
    }
}

/// What an answer says; none where it says nothing.
pub open spec fn page_message(resp: JsonV) -> Option<Seq<char>> {
    match (if resp.get("message"@) is Some {
        resp.get("message"@)
    } else {
        resp.get("msg"@)
    }) {
        Some(JsonV::Str(s)) => if text::trim(s).len() > 0 {
            Some(text::head(text::trim(s), 160))
        } else {
            None
        },
        _ => None,
    }
}

/// What to say of an answer that failed. What came of a request that did not get
/// through is not quoted.
pub open spec fn page_error(resp: JsonV) -> Seq<char> {
    match page_code(resp) {
        Some(c) => if c == -1 {
            "官方请求失败（网络或服务不可达）"@
        } else {
            let front = "官方请求失败（code="@ + text::int_text(c);
            match page_message(resp) {
                Some(m) => front + "）："@ + m,
                None => front + "）"@,
            }
        },
        None => "官方响应格式无效"@,
    }
}

/// What to say of an answer that failed.
pub fn error_message(resp: &Json) -> (r: String)
    ensures
        r@ == page_error(resp@),
{
    let value: Option<&Json> = match resp.get("message") {
        Some(m) => Some(m),
        None => resp.get("msg"),
    };
    let said: Option<String> = match value {
        Some(m) => match m.as_str() {
            Some(s) => {
                let t: String = text::trimmed(s);
                if t.as_str().is_empty() {
                    None
                } else {
                    Some(text::head_of(t.as_str(), 160))
                }
            },
            None => None,
        },
        None => None,
    };
    match response_code(resp) {
        Some(c) => {
            if c == -1 {
                return "官方请求失败（网络或服务不可达）".to_owned();
            }
            let number: String = text::text_of_i64(c);
            let front: String = text::concat("官方请求失败（code=", number.as_str());
            match said {
                Some(m) => text::concat3(front.as_str(), "）：", m.as_str()),
                None => text::concat(front.as_str(), "）"),
            }
        },
        None => "官方响应格式无效".to_owned(),
    }
}

/// The time that a request's text gives: RFC 3339, local date and time in one of
/// four forms, or a local date, which means noon.
pub open spec fn request_text_time(s: Seq<char>) -> TimeReadingV {
    match clock::instant_of_rfc3339(s) {
        Some(t) => TimeReadingV::At(t as int),
        None => match clock::wall_of_text(s, "%Y-%m-%d %H:%M:%S%.f"@) {
            Some(w) => TimeReadingV::Local(w),
            None => match clock::wall_of_text(s, "%Y-%m-%d %H:%M:%S"@) {
                Some(w) => TimeReadingV::Local(w),
                None => match clock::wall_of_text(s, "%Y-%m-%dT%H:%M:%S%.f"@) {
                    Some(w) => TimeReadingV::Local(w),
                    None => match clock::wall_of_text(s, "%Y-%m-%dT%H:%M:%S"@) {
                        Some(w) => TimeReadingV::Local(w),
                        None => match clock::day_of_text(s) {
                            Some(d) => TimeReadingV::Local(clock::wall_on(d, 43_200_000)),
                            None => TimeReadingV::Nothing,
                        },
                    },
                },
            },
        },
    }
}

/// The time that a request's record gives; a number must be finite.
pub open spec fn request_reading(v: Option<JsonV>) -> TimeReadingV {
    match numbers::number_of(v) {
        Some(JsonV::Int(n)) => if -10_000_000_000 < n < 10_000_000_000 {
            TimeReadingV::At(n * 1000)
        } else if -json::EXACT_INT <= n <= json::EXACT_INT {
            TimeReadingV::At(n)
        } else {
            TimeReadingV::Number(JsonV::Int(n))
        },
        Some(JsonV::Real(r)) => if r.finite {
            TimeReadingV::Number(JsonV::Real(r))
        } else {
            TimeReadingV::Nothing
        },
        Some(x) => TimeReadingV::Number(x),
        None => match v {
            Some(JsonV::Str(s)) => if text::trim(s).len() > 0 {
                request_text_time(text::trim(s))
            } else {
                TimeReadingV::Nothing
            },
            _ => TimeReadingV::Nothing,
        },
    }
}

fn read_request_text(s: &str) -> (r: TimeReading)
    ensures
        r@ == request_text_time(s@),
        r matches TimeReading::Local(w) ==> w.valid(),
{
    match clock::parse_rfc3339(s) {
        Some(t) => {
            return TimeReading::At(t);
        },
        None => {},
    }
    match clock::parse_wall(s, "%Y-%m-%d %H:%M:%S%.f") {
        Some(w) => {
            return TimeReading::Local(w);
        },
        None => {},
    }
    match clock::parse_wall(s, "%Y-%m-%d %H:%M:%S") {
        Some(w) => {
            return TimeReading::Local(w);
        },
        None => {},
    }
    match clock::parse_wall(s, "%Y-%m-%dT%H:%M:%S%.f") {
        Some(w) => {
            return TimeReading::Local(w);
        },
        None => {},
    }
    match clock::parse_wall(s, "%Y-%m-%dT%H:%M:%S") {
        Some(w) => {
            return TimeReading::Local(w);
        },
        None => {},
    }
    match clock::parse_day(s) {
        Some(d) => TimeReading::Local(clock::wall_at_time(d, 43_200_000)),
        None => TimeReading::Nothing,
    }
}

/// Where a request's record gives its time.
pub open spec fn time_field(row: JsonV) -> Option<JsonV> {
    if row.get("requestTime"@) is Some {
        row.get("requestTime"@)
    } else {
        row.get("request_time"@)
    }
}

fn time_field_of(row: &Json) -> (r: Option<&Json>)
    ensures
        json::opt_view(r) == time_field(row@),
{
    match row.get("requestTime") {
        Some(t) => Some(t),
        None => row.get("request_time"),
    }
}

/// The time that a request's record gives.
pub fn read_request_time(row: &Json) -> (r: TimeReading)
    ensures
        r@ == request_reading(time_field(row@)),
        r matches TimeReading::Local(w) ==> w.valid(),
{
    let v: Option<&Json> = time_field_of(row);
    match numbers::number(v) {
        Some(x) => match x {
            Json::Int(n) => {
                if -10_000_000_000 < n && n < 10_000_000_000 {
                    TimeReading::At(n as i64 * 1000)
                } else if -9_007_199_254_740_992 <= n && n <= 9_007_199_254_740_992 {
                    TimeReading::At(n as i64)
                } else {
                    TimeReading::Number(x)
                }
            },
            Json::Real(d) => {
                if d.finite {
                    TimeReading::Number(x)
                } else {
                    TimeReading::Nothing
                }
            },
            _ => TimeReading::Number(x),
        },
        None => match v {
            Some(j) => match j.as_str() {
                Some(s) => {
                    let t: String = text::trimmed(s);
                    if t.as_str().is_empty() {
                        TimeReading::Nothing
                    } else {
                        read_request_text(t.as_str())
                    }
                },
                None => TimeReading::Nothing,
            },
            None => TimeReading::Nothing,
        },
    }
}

/// The moment is that of an instant, in some time zone; within a day of the ends of
/// the calendar it may have none.
pub open spec fn falls_on(at: Option<int>, moment: Option<(i64, i32)>) -> bool {
    match (at, moment) {
        (Some(t), Some(m)) => m.0 == t && clock::in_calendar(t) && clock::may_be_day(t, m.1),
        (Some(t), None) => !clock::has_day(t),
        (None, m) => m is None,
    }
}

/// The moment of an instant, by the machine's time zone.
fn moment_of(at: Option<i64>) -> (r: Option<(i64, i32)>)
    ensures
        falls_on(json::opt_int(at), r),
{
    match at {
        Some(t) => match clock::local_day(t) {
            Some(d) => Some((t, d)),
            None => None,
        },
        None => None,
    }
}

/// The instant and the local day of a request, by the machine's time zone, given
/// what a number that is no plain integer rounds to. The day is one of the calendar;
/// of a time that was given by what local clocks show, it is the day that was given.
pub fn request_moment(row: &Json, rounded: Option<i64>) -> (r: Option<(i64, i32)>)
    ensures
        match request_reading(time_field(row@)) {
            TimeReadingV::Nothing => r is None,
            TimeReadingV::Number(_) => falls_on(json::opt_int(rounded), r),
            TimeReadingV::Local(w) => r matches Some(m) ==> clock::may_read(m.0 as int, w) && m.1 == w.day(),
            TimeReadingV::At(t) => falls_on(Some(t), r),
        },
        r matches Some(m) ==> clock::FIRST_DAY <= m.1 <= clock::LAST_DAY,
{
    match read_request_time(row) {
        TimeReading::Nothing => None,
        TimeReading::Number(_) => moment_of(rounded),
        TimeReading::Local(w) => match clock::local_time(w) {
            Some(t) => Some((t, w.written_day())),
            None => None,
        },
        TimeReading::At(t) => moment_of(Some(t)),
    }
}

/// Whether a credit can be: finite and not below zero, by its bits.
pub open spec fn can_be_credit(v: JsonV) -> bool {
    match v {
        JsonV::Int(n) => n >= 0,
        JsonV::Real(r) => r.finite && r.bits <= 0x8000_0000_0000_0000,
        _ => false,
    }
}

/// The beginning of a text, or what stands for none.
pub open spec fn compact(v: Option<JsonV>, fallback: Seq<char>) -> Seq<char> {
    match v {
        Some(JsonV::Str(s)) => if text::trim(s).len() > 0 {
            text::head(text::trim(s), 160)
        } else {
            text::head(fallback, 160)
        },
        _ => text::head(fallback, 160),
    }
}

fn compact_string(v: Option<&Json>, fallback: &str) -> (r: String)
    ensures
        r@ == compact(json::opt_view(v), fallback@),
{
    let said: Option<&str> = match v {
        Some(x) => x.as_str(),
        None => None,
    };
    match said {
        Some(s) => {
            let t: String = text::trimmed(s);
            if t.as_str().is_empty() {
                text::head_of(fallback, 160)
            } else {
                text::head_of(t.as_str(), 160)
            }
        },
        None => text::head_of(fallback, 160),
    }
}

/// How a request's time is told: as it was given, or as its milliseconds.
pub open spec fn told_time(v: Option<JsonV>, ts: int) -> Seq<char> {
    match numbers::number_of(v) {
        Some(_) => text::int_text(ts),
        None => match v {
            Some(JsonV::Str(s)) => text::trim(s),
            _ => Seq::empty(),
        },
    }
}

/// The request that a record holds, given its moment; none without a moment or
/// without a credit that can be.
pub open spec fn row_of(v: JsonV, moment: Option<(i64, i32)>) -> Option<RowV> {
    match (numbers::number_of(v.get("credit"@)), moment) {
        (Some(credit), Some(m)) => if can_be_credit(credit) && !(request_reading(time_field(v)) is Nothing) {
            Some(
                RowV {
                    id: compact(
                        if v.get("requestId"@) is Some {
                            v.get("requestId"@)
                        } else {
                            v.get("request_id"@)
                        },
                        "unknown"@,
                    ),
                    credit,
                    model: compact(v.get("model"@), "—"@),
                    client: compact(v.get("client"@), "—"@),
                    time: told_time(time_field(v), m.0 as int),
                    ts: m.0 as int,
                    day: m.1,
                },
            )
        } else {
            None
        },
        _ => None,
    }
}

/// The request that a record holds, given its moment.
pub fn normalize_row(v: &Json, moment: Option<(i64, i32)>) -> (r: Option<RequestRow>)
    ensures
        match r {
            Some(row) => row_of(v@, moment) == Some(row@),
            None => row_of(v@, moment) is None,
        },
{
    let credit: Json = match numbers::number(v.get("credit")) {
        Some(c) => c,
        None => {
            return None;
        },
    };
    let fine: bool = match &credit {
        Json::Int(n) => *n >= 0,
        Json::Real(d) => d.finite && d.bits <= 0x8000_0000_0000_0000,
        _ => false,
    };
    let timed: bool = !matches!(read_request_time(v), TimeReading::Nothing);
    if !fine || !timed {
        return None;
    }
    match moment {
        Some((ts, day)) => {
            let field: Option<&Json> = time_field_of(v);
            let time: String = if numbers::number(field).is_some() {
                text::text_of_i64(ts)
            } else {
                match field {
                    Some(x) => match x.as_str() {
                        Some(s) => text::trimmed(s),
                        None => String::new(),
                    },
                    None => String::new(),
                }
            };
            let id: Option<&Json> = match v.get("requestId") {
                Some(x) => Some(x),
                None => v.get("request_id"),
            };
            Some(
                RequestRow {
                    request_id: compact_string(id, "unknown"),
                    credit,
                    model: compact_string(v.get("model"), "—"),
                    client: compact_string(v.get("client"), "—"),
                    request_time: time,
                    request_ts: ts,
                    day,
                },
            )
        },
        None => None,
    }
}

/// What a page lists: how many requests there are in all, and the records of its own.
pub open spec fn page_list(resp: JsonV) -> Result<(int, Seq<JsonV>), Seq<char>> {
    if page_code(resp) != Some(0int) && page_code(resp) != Some(200int) {
        Err(page_error(resp))
    } else {
        match resp.get("data"@) {
            Some(JsonV::Obj(m)) => match JsonV::Obj(m).get("data"@) {
                Some(JsonV::Arr(s)) => Ok((page_total(JsonV::Obj(m).get("total"@), s.len() as int), s)),
                _ => Err("官方响应格式无效"@),
            },
            _ => Err("官方响应格式无效"@),
        }
    }
}

/// How many requests a page says there are; as many as it lists where it does not say.
pub open spec fn page_total(v: Option<JsonV>, listed: int) -> int {
    let said = match v {
        Some(JsonV::Str(s)) => text::u64_of_text(text::trim(s)),
        Some(x) => x.as_u64(),
        None => None,
    };
    match said {
        Some(n) => if n > usize::MAX {
            usize::MAX as int
        } else {
            n
        },
        None => listed,
    }
}

fn total_of(v: Option<&Json>, listed: usize) -> (n: usize)
    ensures
        n == page_total(json::opt_view(v), listed as int),
{
    let said: Option<u64> = match v {
        Some(x) => match x.as_str() {
            Some(s) => {
                let t: Vec<char> = text::chars_of(s);
                text::parse_u64(text::trim_slice(t.as_slice()))
            },
            None => x.as_u64(),
        },
        None => None,
    };
    match said {
        Some(n) => {
            if n > usize::MAX as u64 {
                usize::MAX
            } else {
                n as usize
            }
        },
        None => listed,
    }
}

/// What a page lists: how many requests there are in all, and the records of its own.
pub fn page_records(resp: &Json) -> (r: Result<(usize, Vec<Json>), String>)
    ensures
        match r {
            Ok((n, l)) => page_list(resp@) == Ok::<(int, Seq<JsonV>), Seq<char>>((n as int, json::list_view(l@))),
            Err(e) => page_list(resp@) == Err::<(int, Seq<JsonV>), Seq<char>>(e@),
        },
{
    let ok: bool = match response_code(resp) {
        Some(c) => c == 0 || c == 200,
        None => false,
    };
    if !ok {
        return Err(error_message(resp));
    }
    match resp.get("data") {
        Some(d) => {
            if !d.is_obj() {
                return Err("官方响应格式无效".to_owned());
            }
            match d.get_arr("data") {
                Some(l) => Ok((total_of(d.get("total"), l.len()), json::clone_slice(l.as_slice()))),
                None => Err("官方响应格式无效".to_owned()),
            }
        },
        None => Err("官方响应格式无效".to_owned()),
    }
}

/// A page of the record.
pub struct OfficialPage {
    pub total: usize,
    pub raw_len: usize,
    pub rows: Vec<RequestRow>,
}

/// The moment of the record at place `i`.
pub open spec fn moment_at(moments: Seq<Option<(i64, i32)>>, i: int) -> Option<(i64, i32)> {
    if 0 <= i < moments.len() {
        moments[i]
    } else {
        None
    }
}

/// The requests of the first `n` records, given their moments.
pub open spec fn rows_of(records: Seq<JsonV>, moments: Seq<Option<(i64, i32)>>, n: int) -> Seq<RowV>
    decreases n,
{
    if n <= 0 || n > records.len() {
        Seq::empty()
    } else {
        let rest = rows_of(records, moments, n - 1);
        match row_of(records[n - 1], moment_at(moments, n - 1)) {
            Some(r) => rest.push(r),
            None => rest,
        }
    }
}

/// The page that an answer holds, given the moments of its records. A record that
/// holds no request is passed over.
pub fn parse_page(resp: &Json, moments: &[Option<(i64, i32)>]) -> (r: Result<OfficialPage, String>)
    ensures
        match page_list(resp@) {
            Ok((n, s)) => r matches Ok(p) && p.total == n && p.raw_len == s.len() && rows_view(p.rows@) == rows_of(
                s,
                moments@,
                s.len() as int,
            ),
            Err(e) => r matches Err(m) && m@ == e,
        },
{
    match page_records(resp) {
        Ok((total, records)) => {
            let ghost all = json::list_view(records@);
            let mut rows: Vec<RequestRow> = Vec::new();
            let mut i: usize = 0;
            assert(rows_view(rows@) =~= rows_of(all, moments@, 0));
            while i < records.len()
                invariant
                    i <= records@.len(),
                    all == json::list_view(records@),
                    rows_view(rows@) == rows_of(all, moments@, i as int),
                decreases records@.len() - i,
            {
                assert(all[i as int] == records@[i as int]@);
                let moment: Option<(i64, i32)> = if i < moments.len() {
                    moments[i]
                } else {
                    None
                };
                match normalize_row(&records[i], moment) {
                    Some(row) => {
                        let ghost held = rows@;
                        rows.push(row);
                        assert(rows_view(rows@) =~= rows_view(held).push(row@));
                    },
                    None => {},
                }
                i += 1;
            }
            Ok(OfficialPage { total, raw_len: records.len(), rows })
        },
        Err(e) => Err(e),
    }
}

/// Whether the next page is asked for.
pub fn should_fetch_next_page(page_number: usize, total: usize, fetched_raw: usize, page_len: usize) -> (b: bool)
    ensures
        b == (page_len > 0 && fetched_raw < total && page_number < OFFICIAL_USAGE_MAX_PAGES),
{
    page_len > 0 && fetched_raw < total && page_number < OFFICIAL_USAGE_MAX_PAGES
}

/// What was read of an account's record so far.
pub struct AccountFetch {
    pub page_number: usize,
    pub rows: Vec<RequestRow>,
    pub reported_total: usize,
    pub fetched_raw: usize,
}

/// What was read of an account's record so far.
pub struct FetchV {
    pub page: int,
    pub rows: Seq<RowV>,
    pub total: int,
    pub fetched: int,
}

impl AccountFetch {
    pub open spec fn view(&self) -> FetchV {
        FetchV {
            page: self.page_number as int,
            rows: rows_view(self.rows@),
            total: self.reported_total as int,
            fetched: self.fetched_raw as int,
        }
    }

    /// Nothing read yet: the first page is next.
    pub fn new() -> (f: AccountFetch)
        ensures
            f@.page == 1 && f@.rows.len() == 0 && f@.total == 0 && f@.fetched == 0,
    {
        AccountFetch { page_number: 1, rows: Vec::new(), reported_total: 0, fetched_raw: 0 }
    }
}

/// Whether a request is among those read.
pub open spec fn is_read(rows: Seq<RowV>, r: RowV) -> bool {
    exists|i: int| 0 <= i < rows.len() && (#[trigger] rows[i]).ts == r.ts && rows[i].id == r.id
}

fn was_read(rows: &[RequestRow], r: &RequestRow) -> (b: bool)
    ensures
        b == is_read(rows_view(rows@), r@),
{
    let ghost all = rows_view(rows@);
    let mut i: usize = 0;
    while i < rows.len()
        invariant
            i <= rows@.len(),
            all == rows_view(rows@),
            forall|j: int| 0 <= j < i ==> !((#[trigger] all[j]).ts == r@.ts && all[j].id == r@.id),
        decreases rows@.len() - i,
    {
        if rows[i].request_ts == r.request_ts && same(rows[i].request_id.as_str(), r.request_id.as_str()) {
            assert(all[i as int].ts == r@.ts && all[i as int].id == r@.id);
            return true;
        }
        i += 1;
    }
    false
}

/// The requests read, with the first `n` of a page: those of the span, each once.
pub open spec fn read_with(rows: Seq<RowV>, page: Seq<RowV>, first: i32, last: i32, n: int) -> Seq<RowV>
    decreases n,
{
    if n <= 0 || n > page.len() {
        rows
    } else {
        let rest = read_with(rows, page, first, last, n - 1);
        let r = page[n - 1];
        if first <= r.day <= last && !is_read(rest, r) {
            rest.push(r)
        } else {
            rest
        }
    }
}

/// How reading goes on after a page.
pub enum FetchStep {
    /// The next page is asked for.
    More(AccountFetch),
    /// All is read.
    Done(AccountFetch),
    /// It cannot be read.
    Failed(String),
}

/// How reading goes on after a page.
pub enum FetchStepV {
    More(FetchV),
    Done(FetchV),
    Failed(Seq<char>),
}

impl FetchStep {
    pub open spec fn view(&self) -> FetchStepV {
        match self {
            FetchStep::More(f) => FetchStepV::More(f@),
            FetchStep::Done(f) => FetchStepV::Done(f@),
            FetchStep::Failed(e) => FetchStepV::Failed(e@),
        }
    }
}

/// What was read, with a page.
pub open spec fn fetch_with(
    f: FetchV,
    total: int,
    raw_len: int,
    rows: Seq<RowV>,
    first: i32,
    last: i32,
) -> FetchStepV {
    let all = FetchV {
        rows: read_with(f.rows, rows, first, last, rows.len() as int),
        total: if total > f.total {
            total
        } else {
            f.total
        },
        fetched: f.fetched + raw_len,
        ..f
    };
    if raw_len > 0 && all.fetched < all.total && all.page < OFFICIAL_USAGE_MAX_PAGES {
        FetchStepV::More(FetchV { page: all.page + 1, ..all })
    } else if raw_len == 0 && all.fetched < all.total {
        FetchStepV::Failed("官方用量分页数据不完整"@)
    } else if all.page >= OFFICIAL_USAGE_MAX_PAGES && all.fetched < all.total {
        FetchStepV::Failed("官方用量分页超过安全上限"@)
    } else {
        FetchStepV::Done(all)
    }
}

/// What was read, with a page: the requests of the span are added, each once, and
/// reading ends when all records were fetched, when a page is empty, or at the
/// last page that is asked for.
pub fn take_page(f: AccountFetch, page: OfficialPage, first: i32, last: i32) -> (r: FetchStep)
    requires
        f.fetched_raw + page.raw_len <= usize::MAX,
        f.page_number <= OFFICIAL_USAGE_MAX_PAGES,
    ensures
        r@ == fetch_with(
            f@,
            page.total as int,
            page.raw_len as int,
            rows_view(page.rows@),
            first,
            last,
        ),
{
    let ghost before = rows_view(f.rows@);
    let ghost added = rows_view(page.rows@);
    let mut rows: Vec<RequestRow> = f.rows;
    let mut i: usize = 0;
    while i < page.rows.len()
        invariant
            i <= page.rows@.len(),
            added == rows_view(page.rows@),
            rows_view(rows@) == read_with(before, added, first, last, i as int),
        decreases page.rows@.len() - i,
    {
        assert(added[i as int] == page.rows@[i as int]@);
        let x: &RequestRow = &page.rows[i];
        if first <= x.day && x.day <= last && !was_read(rows.as_slice(), x) {
            let ghost held = rows@;
            rows.push(copy_row(x));
            assert(rows_view(rows@) =~= rows_view(held).push(x@));
        }
        i += 1;
    }
    let reported_total: usize = if page.total > f.reported_total {
        page.total
    } else {
        f.reported_total
    };
    let fetched_raw: usize = f.fetched_raw + page.raw_len;
    if should_fetch_next_page(f.page_number, reported_total, fetched_raw, page.raw_len) {
        return FetchStep::More(AccountFetch { page_number: f.page_number + 1, rows, reported_total, fetched_raw });
    }
    if page.raw_len == 0 && fetched_raw < reported_total {
        return FetchStep::Failed("官方用量分页数据不完整".to_owned());
    }
    if f.page_number >= OFFICIAL_USAGE_MAX_PAGES && fetched_raw < reported_total {
        return FetchStep::Failed("官方用量分页超过安全上限".to_owned());
    }
    FetchStep::Done(AccountFetch { page_number: f.page_number, rows, reported_total, fetched_raw })
}

/// No request was read twice.
pub open spec fn read_once(rows: Seq<RowV>) -> bool {
    forall|i: int, j: int|
        0 <= i < j < rows.len() ==> !((#[trigger] rows[i]).ts == (#[trigger] rows[j]).ts && rows[i].id == rows[j].id)
}

/// However pages overlap, no request is counted twice, and none outside the span
/// is counted.
pub proof fn reading_counts_once(rows: Seq<RowV>, page: Seq<RowV>, first: i32, last: i32, n: int)
    requires
        read_once(rows),
        forall|i: int| 0 <= i < rows.len() ==> first <= (#[trigger] rows[i]).day <= last,
    ensures
        read_once(read_with(rows, page, first, last, n)),
        forall|i: int|
            0 <= i < read_with(rows, page, first, last, n).len() ==> first <= (#[trigger] read_with(
                rows,
                page,
                first,
                last,
                n,
            )[i]).day <= last,
    decreases n,
{
    if 0 < n <= page.len() {
        reading_counts_once(rows, page, first, last, n - 1);
        let rest = read_with(rows, page, first, last, n - 1);
        let r = page[n - 1];
        if first <= r.day <= last && !is_read(rest, r) {
            let next = rest.push(r);
            assert forall|i: int, j: int| 0 <= i < j < next.len() implies !((#[trigger] next[i]).ts == (
            #[trigger] next[j]).ts && next[i].id == next[j].id) by {
                if j == rest.len() {
                    assert(rest[i] == next[i]);
                }
            }
        }
    }
}

/// The request for a page of the record.
pub fn usage_request(first: i32, last: i32, page_number: usize) -> (r: Json)
    requires
        clock::FIRST_DAY <= first <= clock::LAST_DAY,
        clock::FIRST_DAY <= last <= clock::LAST_DAY,
    ensures
        r@ == JsonV::empty().put("startTime"@, JsonV::Str(clock::text_of_day(first) + " 00:00:00"@)).put(
            "endTime"@,
            JsonV::Str(clock::text_of_day(last) + " 23:59:59"@),
        ).put("pageNum"@, JsonV::Int(page_number as int)).put(
            "pageSize"@,
            JsonV::Int(OFFICIAL_USAGE_PAGE_SIZE as int),
        ),
{
    let from: String = clock::day_text(first);
    let to: String = clock::day_text(last);
    let start: String = text::concat(from.as_str(), " 00:00:00");
    let end: String = text::concat(to.as_str(), " 23:59:59");
    Json::object().put("startTime", Json::text(start.as_str())).put("endTime", Json::text(end.as_str())).put(
        "pageNum",
        Json::count(page_number),
    ).put("pageSize", Json::count(OFFICIAL_USAGE_PAGE_SIZE))
}

/// How a model is named; a request without one has an unknown model.
pub open spec fn name_of_model(model: Seq<char>) -> Seq<char> {
    let m = text::trim(model);
    if m.len() == 0 || m == "—"@ {
        "未知模型"@
    } else {
        m
    }
}

/// How a model is named.
pub fn model_name(model: &str) -> (r: String)
    ensures
        r@ == name_of_model(model@),
{
    let m: String = text::trimmed(model);
    if m.as_str().is_empty() || same(m.as_str(), "—") {
        "未知模型".to_owned()
    } else {
        m
    }
}

/// What a request used: its credit, by its model.
pub open spec fn usage_of(r: RowV) -> UsageV {
    UsageV { ts: r.ts, day: r.day, owner: name_of_model(r.model), variant: WbVariant::Cn, amount: r.credit }
}

/// What requests used.
pub open spec fn usages(rows: Seq<RowV>) -> Seq<UsageV> {
    Seq::new(rows.len(), |i: int| usage_of(rows[i]))
}

/// What requests used.
pub fn row_usages(rows: &[RequestRow]) -> (r: Vec<UsageEvent>)
    ensures
        statistics::usage_view(r@) == usages(rows_view(rows@)),
{
    let ghost all = rows_view(rows@);
    let mut list: Vec<UsageEvent> = Vec::new();
    let mut i: usize = 0;
    while i < rows.len()
        invariant
            i <= rows@.len(),
            all == rows_view(rows@),
            list@.len() == i,
            forall|j: int| 0 <= j < i ==> (#[trigger] list@[j])@ == usage_of(all[j]),
        decreases rows@.len() - i,
    {
        assert(all[i as int] == rows@[i as int]@);
        let x: &RequestRow = &rows[i];
        list.push(
            UsageEvent {
                ts: x.request_ts,
                day: x.day,
                owner: model_name(x.model.as_str()),
                variant: WbVariant::Cn,
                amount: x.credit.clone(),
            },
        );
        i += 1;
    }
    assert(statistics::usage_view(list@) =~= usages(all));
    list
}

/// The models in the order in which they first appear.
pub open spec fn models_of(u: Seq<UsageV>) -> Seq<Seq<char>>
    decreases u.len(),
{
    if u.len() == 0 {
        Seq::empty()
    } else {
        let rest = models_of(u.subrange(0, u.len() - 1));
        let m = u[u.len() - 1].owner;
        if rest.contains(m) {
            rest
        } else {
            rest.push(m)
        }
    }
}

/// The amounts of usages.
pub open spec fn all_amounts(u: Seq<UsageV>) -> Seq<JsonV> {
    Seq::new(u.len(), |i: int| u[i].amount)
}

/// What is told of a model: how many requests used it, and their credits together.
pub open spec fn model_entry(u: Seq<UsageV>, model: Seq<char>) -> JsonV {
    let own = statistics::of_account(u, model);
    JsonV::empty().put("model"@, JsonV::Str(model)).put("requestCount"@, JsonV::Int(own.len() as int)).put(
        "credit"@,
        numbers::sum(all_amounts(own)),
    )
}

/// What is told of the models, in the order in which they first appear.
pub open spec fn model_list(u: Seq<UsageV>) -> Seq<JsonV> {
    models_of(u).map_values(|m: Seq<char>| model_entry(u, m))
}

fn holds(list: &[String], t: &str) -> (b: bool)
    ensures
        b == crate::variant::strings(list@).contains(t@),
{
    let ghost all = crate::variant::strings(list@);
    let mut i: usize = 0;
    while i < list.len()
        invariant
            i <= list@.len(),
            all == crate::variant::strings(list@),
            forall|j: int| 0 <= j < i ==> #[trigger] all[j] != t@,
        decreases list@.len() - i,
    {
        if same(list[i].as_str(), t) {
            assert(all[i as int] == t@);
            return true;
        }
        i += 1;
    }
    assert forall|j: int| 0 <= j < all.len() implies #[trigger] all[j] != t@ by {}
    false
}

fn find_models(list: &[UsageEvent]) -> (r: Vec<String>)
    ensures
        crate::variant::strings(r@) == models_of(statistics::usage_view(list@)),
{
    let ghost u = statistics::usage_view(list@);
    let mut names: Vec<String> = Vec::new();
    let mut i: usize = 0;
    assert(crate::variant::strings(names@) =~= models_of(u.subrange(0, 0)));
    while i < list.len()
        invariant
            i <= list@.len(),
            u == statistics::usage_view(list@),
            crate::variant::strings(names@) == models_of(u.subrange(0, i as int)),
        decreases list@.len() - i,
    {
        assert(u.subrange(0, i + 1).subrange(0, i as int) =~= u.subrange(0, i as int));
        assert(u[i as int] == list@[i as int]@);
        if !holds(names.as_slice(), list[i].owner.as_str()) {
            let ghost held = names@;
            names.push(list[i].owner.clone());
            assert(crate::variant::strings(names@) =~= crate::variant::strings(held).push(u[i as int].owner));
        }
        i += 1;
    }
    assert(u.subrange(0, u.len() as int) =~= u);
    names
}

fn sum_amounts(list: &[UsageEvent]) -> (r: Json)
    ensures
        r@ == numbers::sum(all_amounts(statistics::usage_view(list@))),
{
    let ghost u = statistics::usage_view(list@);
    let mut amounts: Vec<Json> = Vec::new();
    let mut i: usize = 0;
    while i < list.len()
        invariant
            i <= list@.len(),
            u == statistics::usage_view(list@),
            amounts@.len() == i,
            forall|j: int| 0 <= j < i ==> (#[trigger] amounts@[j])@ == u[j].amount,
        decreases list@.len() - i,
    {
        amounts.push(list[i].amount.clone());
        i += 1;
    }
    assert(json::list_view(amounts@) =~= all_amounts(u));
    numbers::total(amounts)
}

/// What is told of the models of some requests, in the order in which they first
/// appear.
pub fn aggregate_usages(list: &[UsageEvent]) -> (r: Vec<Json>)
    ensures
        json::list_view(r@) == model_list(statistics::usage_view(list@)),
{
    let ghost u = statistics::usage_view(list@);
    let names: Vec<String> = find_models(list);
    let ghost all = crate::variant::strings(names@);
    let mut out: Vec<Json> = Vec::new();
    let mut i: usize = 0;
    while i < names.len()
        invariant
            i <= names@.len(),
            u == statistics::usage_view(list@),
            all == crate::variant::strings(names@),
            out@.len() == i,
            forall|j: int| 0 <= j < i ==> (#[trigger] out@[j])@ == model_entry(u, all[j]),
        decreases names@.len() - i,
    {
        assert(all[i as int] == names@[i as int]@);
        let own: Vec<UsageEvent> = statistics::account_usages(list, names[i].as_str());
        assert(statistics::usage_view(own@).len() == own@.len());
        out.push(
            Json::object().put("model", Json::text(names[i].as_str())).put("requestCount", Json::count(own.len())).put(
                "credit",
                sum_amounts(own.as_slice()),
            ),
        );
        i += 1;
    }
    assert(json::list_view(out@) =~= all.map_values(|m: Seq<char>| model_entry(u, m)));
    out
}

/// What is told of the models of some requests, in the order in which they first
/// appear.
pub fn aggregate_models(rows: &[RequestRow]) -> (r: Vec<Json>)
    ensures
        json::list_view(r@) == model_list(usages(rows_view(rows@))),
{
    let list: Vec<UsageEvent> = row_usages(rows);
    aggregate_usages(list.as_slice())
}

/// How large a credit is that was worked out: the bits of a double that is not
/// below zero are ordered as the doubles are.
pub open spec fn size_of_credit(v: JsonV) -> int {
    match v.get("credit"@) {
        Some(JsonV::Real(r)) => r.bits as int,
        _ => 0,
    }
}

/// The count of a model.
pub open spec fn count_of(v: JsonV) -> int {
    match v.get_i64("requestCount"@) {
        Some(n) => n,
        None => 0,
    }
}

/// The name of a model.
pub open spec fn model_in(v: JsonV) -> Seq<char> {
    account::or_empty(v.get_str("model"@))
}

/// Whether a model is listed before another: the larger credit first, then the
/// more requests, then by name.
pub open spec fn outranks(a: JsonV, b: JsonV) -> bool {
    size_of_credit(a) > size_of_credit(b) || (size_of_credit(a) == size_of_credit(b) && (count_of(a) > count_of(b) || (
    count_of(a) == count_of(b) && text::less(model_in(a), model_in(b)))))
}

fn credit_size(v: &Json) -> (n: u64)
    ensures
        n == size_of_credit(v@),
{
    match v.get("credit") {
        Some(x) => match x {
            Json::Real(r) => r.bits,
            _ => 0,
        },
        None => 0,
    }
}

fn request_count(v: &Json) -> (n: i64)
    ensures
        n == count_of(v@),
{
    match v.get_i64("requestCount") {
        Some(n) => n,
        None => 0,
    }
}

fn model_text(v: &Json) -> (r: String)
    ensures
        r@ == model_in(v@),
{
    match v.get_str("model") {
        Some(s) => s.to_owned(),
        None => String::new(),
    }
}

fn ranks_before(a: &Json, b: &Json) -> (r: bool)
    ensures
        r == outranks(a@, b@),
{
    let x: u64 = credit_size(a);
    let y: u64 = credit_size(b);
    if x != y {
        return x > y;
    }
    let m: i64 = request_count(a);
    let n: i64 = request_count(b);
    if m != n {
        return m > n;
    }
    text::comes_before(model_text(a).as_str(), model_text(b).as_str())
}

/// A model put into a list, before those that it outranks.
pub open spec fn slotted(s: Seq<JsonV>, x: JsonV) -> Seq<JsonV>
    decreases s.len(),
{
    if s.len() == 0 || !outranks(x, s[s.len() - 1]) {
        s.push(x)
    } else {
        slotted(s.subrange(0, s.len() - 1), x).push(s[s.len() - 1])
    }
}

/// The models in their order.
pub open spec fn ordered(s: Seq<JsonV>) -> Seq<JsonV>
    decreases s.len(),
{
    if s.len() == 0 {
        Seq::empty()
    } else {
        slotted(ordered(s.subrange(0, s.len() - 1)), s[s.len() - 1])
    }
}

proof fn slotted_at(s: Seq<JsonV>, x: JsonV, i: int)
    requires
        0 <= i <= s.len(),
        forall|j: int| i <= j < s.len() ==> outranks(x, #[trigger] s[j]),
        i == 0 || !outranks(x, s[i - 1]),
    ensures
        slotted(s, x) == s.insert(i, x),
    decreases s.len(),
{
    if i == s.len() {
        assert(s.insert(i, x) =~= s.push(x));
    } else {
        let n = s.len() - 1;
        slotted_at(s.subrange(0, n), x, i);
        assert(s.subrange(0, n).insert(i, x).push(s[n]) =~= s.insert(i, x));
    }
}

fn slot(list: &mut Vec<Json>, x: Json)
    ensures
        json::list_view(final(list)@) == slotted(json::list_view(old(list)@), x@),
{
    let ghost before = list@;
    let mut i: usize = list.len();
    while i > 0 && ranks_before(&x, &list[i - 1])
        invariant
            i <= list@.len(),
            list@ == before,
            forall|j: int| i <= j < list@.len() ==> outranks(x@, #[trigger] json::list_view(list@)[j]),
        decreases i,
    {
        i -= 1;
    }
    proof {
        if i > 0 {
            assert(json::list_view(before)[i - 1] == before[i - 1]@);
        }
        slotted_at(json::list_view(before), x@, i as int);
    }
    list.insert(i, x);
    assert(json::list_view(list@) =~= json::list_view(before).insert(i as int, x@));
}

/// The models of a list in their order, once their credits are worked out.
pub fn order_models(list: &[Json]) -> (r: Vec<Json>)
    ensures
        json::list_view(r@) == ordered(json::list_view(list@)),
{
    let ghost all = json::list_view(list@);
    let mut out: Vec<Json> = Vec::new();
    let mut i: usize = 0;
    assert(json::list_view(out@) =~= ordered(all.subrange(0, 0)));
    while i < list.len()
        invariant
            i <= list@.len(),
            all == json::list_view(list@),
            json::list_view(out@) == ordered(all.subrange(0, i as int)),
        decreases list@.len() - i,
    {
        assert(all.subrange(0, i + 1).subrange(0, i as int) =~= all.subrange(0, i as int));
        assert(all[i as int] == list@[i as int]@);
        slot(&mut out, list[i].clone());
        i += 1;
    }
    assert(all.subrange(0, all.len() as int) =~= all);
    out
}

/// None is listed behind one that it outranks.
pub open spec fn in_order(s: Seq<JsonV>) -> bool {
    forall|i: int, j: int| 0 <= i < j < s.len() ==> !outranks(#[trigger] s[j], #[trigger] s[i])
}

proof fn outranks_trans(a: JsonV, b: JsonV, c: JsonV)
    requires
        !outranks(b, a),
        !outranks(c, b),
    ensures
        !outranks(c, a),
{
    text::less_total(model_in(a), model_in(b));
    text::less_total(model_in(b), model_in(c));
    if text::less(model_in(c), model_in(a)) {
        if text::less(model_in(a), model_in(b)) {
            text::less_trans(model_in(c), model_in(a), model_in(b));
        }
    }
}

proof fn slotting_keeps_order(s: Seq<JsonV>, x: JsonV)
    requires
        in_order(s),
    ensures
        in_order(slotted(s, x)),
        slotted(s, x).to_multiset() == s.to_multiset().insert(x),
    decreases s.len(),
{
    broadcast use vstd::seq_lib::group_to_multiset_ensures;

    if s.len() == 0 || !outranks(x, s[s.len() - 1]) {
        let t = s.push(x);
        assert forall|i: int, j: int| 0 <= i < j < t.len() implies !outranks(#[trigger] t[j], #[trigger] t[i]) by {
            if j == s.len() {
                if i < s.len() - 1 {
                    outranks_trans(s[i], s[s.len() - 1], x);
                }
            }
        }
    } else {
        let last = s[s.len() - 1];
        let front = s.subrange(0, s.len() - 1);
        slotting_keeps_order(front, x);
        let p = slotted(front, x);
        let t = p.push(last);
        assert(s =~= front.push(last));
        assert forall|i: int, j: int| 0 <= i < j < t.len() implies !outranks(#[trigger] t[j], #[trigger] t[i]) by {
            if j == p.len() {
                assert(p.to_multiset().contains(p[i]));
                assert(front.to_multiset().insert(x).count(p[i]) > 0);
                if p[i] != x {
                    assert(front.to_multiset().contains(p[i]));
                    assert(front.contains(p[i]));
                    let k = choose|k: int| 0 <= k < front.len() && front[k] == p[i];
                    assert(s[k] == p[i]);
                } else {
                    outranks_asym(x, last);
                }
            }
        }
    }
}

proof fn outranks_asym(a: JsonV, b: JsonV)
    requires
        outranks(a, b),
    ensures
        !outranks(b, a),
{
    text::less_total(model_in(a), model_in(b));
}

/// Ordering the models lists none behind one that it outranks, and neither adds
/// nor drops one.
pub proof fn models_are_ordered(s: Seq<JsonV>)
    ensures
        in_order(ordered(s)),
        ordered(s).to_multiset() == s.to_multiset(),
    decreases s.len(),
{
    broadcast use vstd::seq_lib::group_to_multiset_ensures;

    if s.len() > 0 {
        let front = s.subrange(0, s.len() - 1);
        models_are_ordered(front);
        slotting_keeps_order(ordered(front), s[s.len() - 1]);
        assert(s =~= front.push(s[s.len() - 1]));
    } else {
        assert(s =~= Seq::empty());
    }
}

/// What was used on a day.
pub open spec fn on_day(u: Seq<UsageV>, day: i32) -> Seq<UsageV>
    decreases u.len(),
{
    if u.len() == 0 {
        Seq::empty()
    } else {
        let rest = on_day(u.subrange(0, u.len() - 1), day);
        if u[u.len() - 1].day == day {
            rest.push(u[u.len() - 1])
        } else {
            rest
        }
    }
}

fn usages_on(list: &[UsageEvent], day: i32) -> (r: Vec<UsageEvent>)
    ensures
        statistics::usage_view(r@) == on_day(statistics::usage_view(list@), day),
{
    let ghost u = statistics::usage_view(list@);
    let mut out: Vec<UsageEvent> = Vec::new();
    let mut i: usize = 0;
    assert(statistics::usage_view(out@) =~= on_day(u.subrange(0, 0), day));
    while i < list.len()
        invariant
            i <= list@.len(),
            u == statistics::usage_view(list@),
            statistics::usage_view(out@) == on_day(u.subrange(0, i as int), day),
        decreases list@.len() - i,
    {
        assert(u.subrange(0, i + 1).subrange(0, i as int) =~= u.subrange(0, i as int));
        assert(u[i as int] == list@[i as int]@);
        if list[i].day == day {
            let ghost held = out@;
            let x: &UsageEvent = &list[i];
            out.push(
                UsageEvent {
                    ts: x.ts,
                    day: x.day,
                    owner: x.owner.clone(),
                    variant: x.variant,
                    amount: x.amount.clone(),
                },
            );
            assert(statistics::usage_view(out@) =~= statistics::usage_view(held).push(u[i as int]));
        }
        i += 1;
    }
    assert(u.subrange(0, u.len() as int) =~= u);
    out
}

/// All usages of some accounts, one account after the other.
pub open spec fn joined(groups: Seq<Seq<UsageV>>) -> Seq<UsageV>
    decreases groups.len(),
{
    if groups.len() == 0 {
        Seq::empty()
    } else {
        joined(groups.subrange(0, groups.len() - 1)) + groups[groups.len() - 1]
    }
}

/// A day of a series: what was used by the accounts together, and by which models.
pub open spec fn day_point(groups: Seq<Seq<UsageV>>, day: i32) -> JsonV {
    JsonV::empty().put("date"@, JsonV::Str(clock::text_of_day(day))).put(
        "usage"@,
        statistics::used_on(groups, day),
    ).put("models"@, JsonV::Arr(model_list(on_day(joined(groups), day))))
}

/// The days of a span.
pub open spec fn days_between(groups: Seq<Seq<UsageV>>, first: i32, last: i32) -> Seq<JsonV> {
    Seq::new(statistics::span(Some(first), last), |i: int| day_point(groups, (first + i) as i32))
}

fn join_groups(groups: &[Vec<UsageEvent>]) -> (r: Vec<UsageEvent>)
    ensures
        statistics::usage_view(r@) == joined(statistics::groups_view(groups@)),
{
    let ghost g = statistics::groups_view(groups@);
    let mut out: Vec<UsageEvent> = Vec::new();
    let mut i: usize = 0;
    assert(statistics::usage_view(out@) =~= joined(g.subrange(0, 0)));
    while i < groups.len()
        invariant
            i <= groups@.len(),
            g == statistics::groups_view(groups@),
            statistics::usage_view(out@) == joined(g.subrange(0, i as int)),
        decreases groups@.len() - i,
    {
        assert(g.subrange(0, i + 1).subrange(0, i as int) =~= g.subrange(0, i as int));
        let ghost start = statistics::usage_view(out@);
        let part: &Vec<UsageEvent> = &groups[i];
        let ghost p = statistics::usage_view(part@);
        assert(p == g[i as int]);
        let mut k: usize = 0;
        assert(statistics::usage_view(out@) =~= start + p.subrange(0, 0));
        while k < part.len()
            invariant
                k <= part@.len(),
                p == statistics::usage_view(part@),
                statistics::usage_view(out@) == start + p.subrange(0, k as int),
            decreases part@.len() - k,
        {
            let ghost held = out@;
            let x: &UsageEvent = &part[k];
            out.push(
                UsageEvent {
                    ts: x.ts,
                    day: x.day,
                    owner: x.owner.clone(),
                    variant: x.variant,
                    amount: x.amount.clone(),
                },
            );
            assert(statistics::usage_view(out@) =~= statistics::usage_view(held).push(p[k as int]));
            assert(statistics::usage_view(out@) =~= start + p.subrange(0, k + 1));
            k += 1;
        }
        assert(p.subrange(0, p.len() as int) =~= p);
        i += 1;
    }
    assert(g.subrange(0, g.len() as int) =~= g);
    out
}

/// The days of a span, each with what was used on it by the accounts together and
/// by which models; a day without usage has zero and no models.
pub fn daily_series(groups: &[Vec<UsageEvent>], first: i32, last: i32) -> (r: Vec<Json>)
    requires
        clock::FIRST_DAY <= first,
        last <= clock::LAST_DAY,
    ensures
        json::list_view(r@) == days_between(statistics::groups_view(groups@), first, last),
{
    let ghost g = statistics::groups_view(groups@);
    let all: Vec<UsageEvent> = join_groups(groups);
    let mut points: Vec<Json> = Vec::new();
    let mut day: i32 = first;
    while day <= last
        invariant
            clock::FIRST_DAY <= first <= day,
            day <= last + 1 || points@.len() == 0,
            last <= clock::LAST_DAY,
            g == statistics::groups_view(groups@),
            statistics::usage_view(all@) == joined(g),
            points@.len() == day - first,
            forall|j: int| 0 <= j < points@.len() ==> (#[trigger] points@[j])@ == day_point(g, (first + j) as i32),
        decreases last - day + 1,
    {
        let date: String = clock::day_text(day);
        let here: Vec<UsageEvent> = usages_on(all.as_slice(), day);
        points.push(
            Json::object().put("date", Json::text(date.as_str())).put(
                "usage",
                statistics::sum_groups_day(groups, day),
            ).put("models", Json::Arr(aggregate_usages(here.as_slice()))),
        );
        day += 1;
    }
    assert(json::list_view(points@) =~= days_between(g, first, last));
    points
}

/// What is told of a request: nothing of what it said, and its credit as a double.
pub open spec fn request_entry(id: Seq<char>, name: Seq<char>, r: RowV) -> JsonV {
    JsonV::empty().put("accountId"@, JsonV::Str(id)).put("accountName"@, JsonV::Str(name)).put(
        "requestId"@,
        JsonV::Str(r.id),
    ).put("credit"@, numbers::as_double(r.credit)).put("model"@, JsonV::Str(r.model)).put("client"@, JsonV::Str(r.client)).put(
        "requestTime"@,
        JsonV::Str(r.time),
    )
}

/// What is told of a request.
pub fn request_value(account_id: &str, account_name: &str, r: &RequestRow) -> (v: Json)
    ensures
        v@ == request_entry(account_id@, account_name@, r@),
{
    Json::object().put("accountId", Json::text(account_id)).put("accountName", Json::text(account_name)).put(
        "requestId",
        Json::text(r.request_id.as_str()),
    ).put("credit", numbers::to_be_double(r.credit.clone())).put("model", Json::text(r.model.as_str())).put(
        "client",
        Json::text(r.client.as_str()),
    ).put("requestTime", Json::text(r.request_time.as_str()))
}

/// The requests of an account with their times.
pub open spec fn request_entries(id: Seq<char>, name: Seq<char>, rows: Seq<RowV>) -> Seq<(int, JsonV)> {
    Seq::new(rows.len(), |i: int| (rows[i].ts, request_entry(id, name, rows[i])))
}

/// The newest requests of an account.
pub open spec fn newest_requests(id: Seq<char>, name: Seq<char>, rows: Seq<RowV>) -> Seq<(int, JsonV)> {
    statistics::first_n(
        statistics::ranked(request_entries(id, name, rows)),
        OFFICIAL_USAGE_DETAIL_LIMIT as int,
    )
}

fn find_newest_requests(id: &str, name: &str, rows: &[RequestRow]) -> (r: Vec<(i64, Json)>)
    ensures
        statistics::timed_view(r@) == newest_requests(id@, name@, rows_view(rows@)),
{
    let ghost all = request_entries(id@, name@, rows_view(rows@));
    let mut list: Vec<(i64, Json)> = Vec::new();
    let mut i: usize = 0;
    assert(statistics::timed_view(list@) =~= statistics::ranked(all.subrange(0, 0)));
    while i < rows.len()
        invariant
            i <= rows@.len(),
            all == request_entries(id@, name@, rows_view(rows@)),
            statistics::timed_view(list@) == statistics::ranked(all.subrange(0, i as int)),
        decreases rows@.len() - i,
    {
        assert(all.subrange(0, i + 1).subrange(0, i as int) =~= all.subrange(0, i as int));
        assert(rows_view(rows@)[i as int] == rows@[i as int]@);
        let e: (i64, Json) = (rows[i].request_ts, request_value(id, name, &rows[i]));
        assert(all[i as int] == (e.0 as int, e.1@));
        statistics::rank(&mut list, e);
        i += 1;
    }
    assert(all.subrange(0, all.len() as int) =~= all);
    let ghost order = statistics::timed_view(list@);
    let mut out: Vec<(i64, Json)> = Vec::new();
    let mut k: usize = 0;
    while k < list.len() && k < OFFICIAL_USAGE_DETAIL_LIMIT
        invariant
            k <= list@.len(),
            k <= OFFICIAL_USAGE_DETAIL_LIMIT,
            order == statistics::timed_view(list@),
            out@.len() == k,
            forall|i: int|
                0 <= i < k ==> ((#[trigger] out@[i]).0 as int, out@[i].1@) == (order[i].0, order[i].1),
        decreases list@.len() - k,
    {
        assert(order[k as int] == (list@[k as int].0 as int, list@[k as int].1@));
        out.push((list[k].0, list[k].1.clone()));
        k += 1;
    }
    assert(statistics::timed_view(out@) =~= statistics::first_n(order, OFFICIAL_USAGE_DETAIL_LIMIT as int));
    out
}

/// What came of reading an account's record.
pub enum OutcomeV {
    Read(FetchV),
    Failed(Seq<char>),
}

/// What came of reading an account's record.
pub open spec fn outcome_of(r: Result<AccountFetch, String>) -> OutcomeV {
    match r {
        Ok(f) => OutcomeV::Read(f@),
        Err(e) => OutcomeV::Failed(e@),
    }
}

/// What came of reading the accounts' records.
pub open spec fn outcomes(s: Seq<Result<AccountFetch, String>>) -> Seq<OutcomeV> {
    Seq::new(s.len(), |i: int| outcome_of(s[i]))
}

/// How the account at place `i` is identified.
pub open spec fn id_at(accounts: Seq<JsonV>, i: int) -> Seq<char> {
    match account::str_of(accounts[i], "id"@) {
        Some(id) => id,
        None => "unknown-"@ + text::int_text(i),
    }
}

/// What the account at place `i` used; nothing where its record could not be read.
pub open spec fn used_by(o: Seq<OutcomeV>, i: int) -> Seq<UsageV> {
    match o[i] {
        OutcomeV::Read(f) => usages(f.rows),
        OutcomeV::Failed(_) => Seq::empty(),
    }
}

/// What the first `n` accounts used, of those whose record was read, and of those
/// with an identifier where one is asked for.
pub open spec fn groups_of(accounts: Seq<JsonV>, o: Seq<OutcomeV>, id: Option<Seq<char>>, n: int) -> Seq<Seq<UsageV>>
    decreases n,
{
    if n <= 0 {
        Seq::empty()
    } else {
        let rest = groups_of(accounts, o, id, n - 1);
        if o[n - 1] is Read && (id is None || id->0 == id_at(accounts, n - 1)) {
            rest.push(used_by(o, n - 1))
        } else {
            rest
        }
    }
}

/// What is told of the account at place `i`.
pub open spec fn account_entry(accounts: Seq<JsonV>, o: Seq<OutcomeV>, today: i32, i: int) -> JsonV {
    let id = id_at(accounts, i);
    let front = JsonV::empty().put("accountId"@, JsonV::Str(id)).put(
        "accountName"@,
        JsonV::Str(account::display_name(accounts[i])),
    );
    match o[i] {
        OutcomeV::Read(f) => {
            let u = usages(f.rows);
            front.put("ok"@, JsonV::Bool(true)).put("requestCount"@, JsonV::Int(f.total)).put(
                "detailTruncated"@,
                JsonV::Bool(f.total > OFFICIAL_USAGE_DETAIL_LIMIT),
            ).put("usageToday"@, statistics::used_in(u, Window::Today, today)).put(
                "usage7Days"@,
                statistics::used_in(u, Window::Week, today),
            ).put("usageThisMonth"@, statistics::used_in(u, Window::Month, today)).put("error"@, JsonV::Null).put(
                "reportedTotal"@,
                JsonV::Int(f.total),
            ).put("fetchedCount"@, JsonV::Int(f.fetched)).put("models"@, JsonV::Arr(model_list(u))).put(
                "daily"@,
                JsonV::Arr(
                    days_between(groups_of(accounts, o, Some(id), i + 1), (today - 30) as i32, today),
                ),
            )
        },
        OutcomeV::Failed(e) => front.put("ok"@, JsonV::Bool(false)).put("requestCount"@, JsonV::Int(0)).put(
            "detailTruncated"@,
            JsonV::Bool(false),
        ).put("usageToday"@, JsonV::Null).put("usage7Days"@, JsonV::Null).put("usageThisMonth"@, JsonV::Null).put(
            "error"@,
            JsonV::Str(e),
        ).put("reportedTotal"@, JsonV::Null).put("fetchedCount"@, JsonV::Int(0)).put(
            "models"@,
            JsonV::Arr(Seq::empty()),
        ).put("daily"@, JsonV::Arr(Seq::empty())),
    }
}

/// What is told of the first `n` accounts whose record could not be read.
pub open spec fn error_entries(accounts: Seq<JsonV>, o: Seq<OutcomeV>, n: int) -> Seq<JsonV>
    decreases n,
{
    if n <= 0 {
        Seq::empty()
    } else {
        let rest = error_entries(accounts, o, n - 1);
        match o[n - 1] {
            OutcomeV::Failed(e) => rest.push(
                JsonV::empty().put("accountId"@, JsonV::Str(id_at(accounts, n - 1))).put(
                    "accountName"@,
                    JsonV::Str(account::display_name(accounts[n - 1])),
                ).put("error"@, JsonV::Str(e)),
            ),
            OutcomeV::Read(_) => rest,
        }
    }
}

/// How many of the first `n` accounts' records were read.
pub open spec fn read_count(o: Seq<OutcomeV>, n: int) -> int
    decreases n,
{
    if n <= 0 {
        0
    } else {
        read_count(o, n - 1) + (if o[n - 1] is Read {
            1int
        } else {
            0
        })
    }
}

/// The newest requests of the first `n` accounts, one account after the other.
pub open spec fn requests_of(accounts: Seq<JsonV>, o: Seq<OutcomeV>, n: int) -> Seq<(int, JsonV)>
    decreases n,
{
    if n <= 0 {
        Seq::empty()
    } else {
        let rest = requests_of(accounts, o, n - 1);
        match o[n - 1] {
            OutcomeV::Read(f) => rest + newest_requests(
                id_at(accounts, n - 1),
                account::display_name(accounts[n - 1]),
                f.rows,
            ),
            OutcomeV::Failed(_) => rest,
        }
    }
}

/// A report's state: whether all, some or no records were read.
pub open spec fn status_of(total: int, read: int) -> Seq<char> {
    if total == 0 {
        "unavailable"@
    } else if read == total {
        "complete"@
    } else if read > 0 {
        "partial"@
    } else {
        "unavailable"@
    }
}

/// What the accounts used within a span, added up account by account.
pub open spec fn used_together(groups: Seq<Seq<UsageV>>, w: Window, today: i32) -> JsonV {
    numbers::sum(Seq::new(groups.len(), |i: int| statistics::used_in(groups[i], w, today)))
}

/// The report on the accounts' records.
pub open spec fn report_of(accounts: Seq<JsonV>, o: Seq<OutcomeV>, today: i32, at: int) -> JsonV {
    let n = accounts.len() as int;
    let groups = groups_of(accounts, o, None, n);
    let first = (today - 30) as i32;
    JsonV::empty().put("status"@, JsonV::Str(status_of(n, read_count(o, n)))).put(
        "rangeStart"@,
        JsonV::Str(clock::text_of_day(first)),
    ).put("rangeEnd"@, JsonV::Str(clock::text_of_day(today))).put("collectedAt"@, JsonV::Int(at)).put(
        "summary"@,
        JsonV::empty().put("usageToday"@, used_together(groups, Window::Today, today)).put(
            "usage7Days"@,
            used_together(groups, Window::Week, today),
        ).put("usageThisMonth"@, used_together(groups, Window::Month, today)),
    ).put("daily"@, JsonV::Arr(days_between(groups, first, today))).put(
        "accounts"@,
        JsonV::Arr(Seq::new(accounts.len(), |i: int| account_entry(accounts, o, today, i))),
    ).put(
        "requests"@,
        JsonV::Arr(statistics::untimed(statistics::ranked(requests_of(accounts, o, n)))),
    ).put("models"@, JsonV::Arr(model_list(joined(groups)))).put(
        "detailLimitPerAccount"@,
        JsonV::Int(OFFICIAL_USAGE_DETAIL_LIMIT as int),
    ).put("errors"@, JsonV::Arr(error_entries(accounts, o, n)))
}

/// Every request that was read lies on a day of the calendar.
pub open spec fn on_calendar(o: Seq<OutcomeV>) -> bool {
    forall|i: int|
        0 <= i < o.len() ==> match #[trigger] o[i] {
            OutcomeV::Read(f) => rows_on_calendar(f.rows),
            OutcomeV::Failed(_) => true,
        }
}

/// Every request lies on a day of the calendar.
pub open spec fn rows_on_calendar(rows: Seq<RowV>) -> bool {
    forall|i: int| 0 <= i < rows.len() ==> clock::FIRST_DAY <= (#[trigger] rows[i]).day <= clock::LAST_DAY
}

proof fn usages_on_days(rows: Seq<RowV>)
    requires
        rows_on_calendar(rows),
    ensures
        statistics::on_days(usages(rows)),
{
    let u = usages(rows);
    assert forall|i: int| 0 <= i < u.len() implies clock::FIRST_DAY <= (#[trigger] u[i]).day <= clock::LAST_DAY by {
        assert(u[i].day == rows[i].day);
    }
}

proof fn groups_on_days(accounts: Seq<JsonV>, o: Seq<OutcomeV>, id: Option<Seq<char>>, n: int)
    requires
        on_calendar(o),
        n <= o.len(),
    ensures
        forall|i: int|
            0 <= i < groups_of(accounts, o, id, n).len() ==> statistics::on_days(
                #[trigger] groups_of(accounts, o, id, n)[i],
            ),
    decreases n,
{
    if n > 0 {
        groups_on_days(accounts, o, id, n - 1);
        let rest = groups_of(accounts, o, id, n - 1);
        let all = groups_of(accounts, o, id, n);
        match o[n - 1] {
            OutcomeV::Read(f) => {
                usages_on_days(f.rows);
                assert(statistics::on_days(used_by(o, n - 1)));
            },
            OutcomeV::Failed(_) => {},
        }
        assert forall|i: int| 0 <= i < all.len() implies statistics::on_days(#[trigger] all[i]) by {
            if i < rest.len() {
                assert(all[i] == rest[i]);
            }
        }
    }
}

fn account_id_at(accounts: &[Json], i: usize) -> (r: String)
    requires
        i < accounts@.len(),
    ensures
        r@ == id_at(json::list_view(accounts@), i as int),
{
    match account::get_str(&accounts[i], "id") {
        Some(id) => id,
        None => {
            let number: String = text::text_of_usize(i);
            text::concat("unknown-", number.as_str())
        },
    }
}

fn collect_groups(accounts: &[Json], results: &[Result<AccountFetch, String>], id: Option<&str>, n: usize) -> (r: Vec<
    Vec<UsageEvent>,
>)
    requires
        n <= accounts@.len(),
        results@.len() == accounts@.len(),
    ensures
        statistics::groups_view(r@) == groups_of(
            json::list_view(accounts@),
            outcomes(results@),
            json::opt_text(id),
            n as int,
        ),
{
    let ghost all = json::list_view(accounts@);
    let ghost o = outcomes(results@);
    let ghost who = json::opt_text(id);
    let mut groups: Vec<Vec<UsageEvent>> = Vec::new();
    let mut i: usize = 0;
    assert(statistics::groups_view(groups@) =~= groups_of(all, o, who, 0));
    while i < n
        invariant
            i <= n <= accounts@.len(),
            results@.len() == accounts@.len(),
            all == json::list_view(accounts@),
            o == outcomes(results@),
            who == json::opt_text(id),
            statistics::groups_view(groups@) == groups_of(all, o, who, i as int),
        decreases n - i,
    {
        let ghost held = groups@;
        assert(o[i as int] == outcome_of(results@[i as int]));
        match &results[i] {
            Ok(f) => {
                let wanted: bool = match id {
                    Some(w) => same(account_id_at(accounts, i).as_str(), w),
                    None => true,
                };
                if wanted {
                    let used: Vec<UsageEvent> = row_usages(f.rows.as_slice());
                    groups.push(used);
                    assert(statistics::groups_view(groups@) =~= statistics::groups_view(held).push(
                        statistics::usage_view(used@),
                    ));
                }
            },
            Err(_) => {},
        }
        i += 1;
    }
    groups
}

fn entry_of(accounts: &[Json], results: &[Result<AccountFetch, String>], today: i32, i: usize) -> (r: Json)
    requires
        i < accounts@.len(),
        results@.len() == accounts@.len(),
        on_calendar(outcomes(results@)),
        clock::FIRST_DAY + 30 <= today <= clock::LAST_DAY,
    ensures
        r@ == account_entry(json::list_view(accounts@), outcomes(results@), today, i as int),
{
    let ghost o = outcomes(results@);
    assert(o[i as int] == outcome_of(results@[i as int]));
    assert(json::list_view(accounts@)[i as int] == accounts@[i as int]@);
    let id: String = account_id_at(accounts, i);
    let name: String = account::account_display_name(&accounts[i]);
    let front: Json = Json::object().put("accountId", Json::text(id.as_str())).put(
        "accountName",
        Json::text(name.as_str()),
    );
    match &results[i] {
        Ok(f) => {
            let used: Vec<UsageEvent> = row_usages(f.rows.as_slice());
            proof {
                usages_on_days(rows_view(f.rows@));
            }
            let list: &[UsageEvent] = used.as_slice();
            let groups: Vec<Vec<UsageEvent>> = collect_groups(accounts, results, Some(id.as_str()), i + 1);
            let daily: Vec<Json> = daily_series(groups.as_slice(), today - 30, today);
            front.put("ok", Json::Bool(true)).put("requestCount", Json::count(f.reported_total)).put(
                "detailTruncated",
                Json::Bool(f.reported_total > OFFICIAL_USAGE_DETAIL_LIMIT),
            ).put("usageToday", statistics::sum_window(list, Window::Today, today)).put(
                "usage7Days",
                statistics::sum_window(list, Window::Week, today),
            ).put("usageThisMonth", statistics::sum_window(list, Window::Month, today)).put("error", Json::Null).put(
                "reportedTotal",
                Json::count(f.reported_total),
            ).put("fetchedCount", Json::count(f.fetched_raw)).put(
                "models",
                Json::Arr(aggregate_models(f.rows.as_slice())),
            ).put("daily", Json::Arr(daily))
        },
        Err(e) => {
            let none: Vec<Json> = Vec::new();
            let also_none: Vec<Json> = Vec::new();
            assert(json::list_view(none@) =~= Seq::<JsonV>::empty());
            assert(json::list_view(also_none@) =~= Seq::<JsonV>::empty());
            front.put("ok", Json::Bool(false)).put("requestCount", Json::num(0)).put(
                "detailTruncated",
                Json::Bool(false),
            ).put("usageToday", Json::Null).put("usage7Days", Json::Null).put("usageThisMonth", Json::Null).put(
                "error",
                Json::text(e.as_str()),
            ).put("reportedTotal", Json::Null).put("fetchedCount", Json::num(0)).put("models", Json::Arr(none)).put(
                "daily",
                Json::Arr(also_none),
            )
        },
    }
}

fn find_errors(accounts: &[Json], results: &[Result<AccountFetch, String>]) -> (r: Vec<Json>)
    requires
        results@.len() == accounts@.len(),
    ensures
        json::list_view(r@) == error_entries(
            json::list_view(accounts@),
            outcomes(results@),
            accounts@.len() as int,
        ),
{
    let ghost all = json::list_view(accounts@);
    let ghost o = outcomes(results@);
    let mut errors: Vec<Json> = Vec::new();
    let mut i: usize = 0;
    assert(json::list_view(errors@) =~= error_entries(all, o, 0));
    while i < accounts.len()
        invariant
            i <= accounts@.len(),
            results@.len() == accounts@.len(),
            all == json::list_view(accounts@),
            o == outcomes(results@),
            json::list_view(errors@) == error_entries(all, o, i as int),
        decreases accounts@.len() - i,
    {
        let ghost held = errors@;
        assert(o[i as int] == outcome_of(results@[i as int]));
        assert(all[i as int] == accounts@[i as int]@);
        match &results[i] {
            Ok(_) => {},
            Err(e) => {
                let id: String = account_id_at(accounts, i);
                let name: String = account::account_display_name(&accounts[i]);
                let entry: Json = Json::object().put("accountId", Json::text(id.as_str())).put(
                    "accountName",
                    Json::text(name.as_str()),
                ).put("error", Json::text(e.as_str()));
                errors.push(entry);
                assert(json::list_view(errors@) =~= json::list_view(held).push(entry@));
            },
        }
        i += 1;
    }
    errors
}

fn count_read(results: &[Result<AccountFetch, String>]) -> (n: usize)
    ensures
        n == read_count(outcomes(results@), results@.len() as int),
{
    let ghost o = outcomes(results@);
    let mut n: usize = 0;
    let mut i: usize = 0;
    while i < results.len()
        invariant
            i <= results@.len(),
            o == outcomes(results@),
            n <= i,
            n == read_count(o, i as int),
        decreases results@.len() - i,
    {
        assert(o[i as int] == outcome_of(results@[i as int]));
        if results[i].is_ok() {
            n += 1;
        }
        i += 1;
    }
    n
}

fn find_requests(accounts: &[Json], results: &[Result<AccountFetch, String>]) -> (r: Vec<Json>)
    requires
        results@.len() == accounts@.len(),
    ensures
        json::list_view(r@) == statistics::untimed(
            statistics::ranked(requests_of(json::list_view(accounts@), outcomes(results@), accounts@.len() as int)),
        ),
{
    let ghost all = json::list_view(accounts@);
    let ghost o = outcomes(results@);
    let mut list: Vec<(i64, Json)> = Vec::new();
    let mut i: usize = 0;
    assert(requests_of(all, o, 0) =~= Seq::<(int, JsonV)>::empty());
    assert(statistics::timed_view(list@) =~= statistics::ranked(requests_of(all, o, 0)));
    while i < accounts.len()
        invariant
            i <= accounts@.len(),
            results@.len() == accounts@.len(),
            all == json::list_view(accounts@),
            o == outcomes(results@),
            statistics::timed_view(list@) == statistics::ranked(requests_of(all, o, i as int)),
        decreases accounts@.len() - i,
    {
        assert(o[i as int] == outcome_of(results@[i as int]));
        assert(all[i as int] == accounts@[i as int]@);
        match &results[i] {
            Ok(f) => {
                let ghost rest = requests_of(all, o, i as int);
                let id: String = account_id_at(accounts, i);
                let name: String = account::account_display_name(&accounts[i]);
                let newest: Vec<(i64, Json)> = find_newest_requests(id.as_str(), name.as_str(), f.rows.as_slice());
                let ghost more = statistics::timed_view(newest@);
                let mut k: usize = 0;
                assert(rest + more.subrange(0, 0) =~= rest);
                while k < newest.len()
                    invariant
                        k <= newest@.len(),
                        more == statistics::timed_view(newest@),
                        statistics::timed_view(list@) == statistics::ranked(rest + more.subrange(0, k as int)),
                    decreases newest@.len() - k,
                {
                    let ghost now = rest + more.subrange(0, k + 1);
                    assert(now.subrange(0, now.len() - 1) =~= rest + more.subrange(0, k as int));
                    assert(now[now.len() - 1] == more[k as int]);
                    assert(more[k as int] == (newest@[k as int].0 as int, newest@[k as int].1@));
                    statistics::rank(&mut list, (newest[k].0, newest[k].1.clone()));
                    k += 1;
                }
                assert(more.subrange(0, more.len() as int) =~= more);
            },
            Err(_) => {},
        }
        i += 1;
    }
    let r: Vec<Json> = statistics::first_values(list.as_slice(), list.len());
    assert(statistics::timed_view(list@).len() == list@.len());
    r
}

fn sum_together(groups: &[Vec<UsageEvent>], w: Window, today: i32) -> (r: Json)
    requires
        forall|i: int|
            0 <= i < groups@.len() ==> statistics::on_days(#[trigger] statistics::groups_view(groups@)[i]),
        clock::FIRST_DAY <= today <= clock::LAST_DAY,
    ensures
        r@ == used_together(statistics::groups_view(groups@), w, today),
{
    let ghost g = statistics::groups_view(groups@);
    let mut list: Vec<Json> = Vec::new();
    let mut i: usize = 0;
    while i < groups.len()
        invariant
            i <= groups@.len(),
            g == statistics::groups_view(groups@),
            forall|i: int| 0 <= i < groups@.len() ==> statistics::on_days(#[trigger] g[i]),
            clock::FIRST_DAY <= today <= clock::LAST_DAY,
            list@.len() == i,
            forall|j: int| 0 <= j < i ==> (#[trigger] list@[j])@ == statistics::used_in(g[j], w, today),
        decreases groups@.len() - i,
    {
        assert(g[i as int] == statistics::usage_view(groups@[i as int]@));
        list.push(statistics::sum_window(groups[i].as_slice(), w, today));
        i += 1;
    }
    assert(json::list_view(list@) =~= Seq::new(g.len(), |i: int| statistics::used_in(g[i], w, today)));
    numbers::total(list)
}

/// The report on the accounts' records, given what came of reading each: the last
/// 31 days, by day, by account and by model, and the newest requests.
pub fn collect_official_usage(
    accounts: &[Json],
    results: &[Result<AccountFetch, String>],
    today: i32,
    at_ms: i64,
) -> (r: Json)
    requires
        results@.len() == accounts@.len(),
        on_calendar(outcomes(results@)),
        clock::FIRST_DAY + 30 <= today <= clock::LAST_DAY,
    ensures
        r@ == report_of(json::list_view(accounts@), outcomes(results@), today, at_ms as int),
{
    let ghost all = json::list_view(accounts@);
    let ghost o = outcomes(results@);
    let n: usize = accounts.len();
    let groups: Vec<Vec<UsageEvent>> = collect_groups(accounts, results, None, n);
    proof {
        groups_on_days(all, o, None, n as int);
        assert forall|i: int| 0 <= i < groups@.len() implies statistics::on_days(
            #[trigger] statistics::groups_view(groups@)[i],
        ) by {
            assert(statistics::groups_view(groups@)[i] == groups_of(all, o, None, n as int)[i]);
        }
    }
    let first: i32 = today - 30;
    let mut rows: Vec<Json> = Vec::new();
    let mut i: usize = 0;
    while i < n
        invariant
            i <= n == accounts@.len(),
            results@.len() == accounts@.len(),
            on_calendar(o),
            clock::FIRST_DAY + 30 <= today <= clock::LAST_DAY,
            all == json::list_view(accounts@),
            o == outcomes(results@),
            rows@.len() == i,
            forall|j: int| 0 <= j < i ==> (#[trigger] rows@[j])@ == account_entry(all, o, today, j),
        decreases n - i,
    {
        rows.push(entry_of(accounts, results, today, i));
        i += 1;
    }
    assert(json::list_view(rows@) =~= Seq::new(all.len(), |i: int| account_entry(all, o, today, i)));
    let read: usize = count_read(results);
    let status: &str = if n == 0 {
        "unavailable"
    } else if read == n {
        "complete"
    } else if read > 0 {
        "partial"
    } else {
        "unavailable"
    };
    let start_text: String = clock::day_text(first);
    let end_text: String = clock::day_text(today);
    let joint: Vec<UsageEvent> = join_groups(groups.as_slice());
    let slices: &[Vec<UsageEvent>] = groups.as_slice();
    let summary: Json = Json::object().put("usageToday", sum_together(slices, Window::Today, today)).put(
        "usage7Days",
        sum_together(slices, Window::Week, today),
    ).put("usageThisMonth", sum_together(slices, Window::Month, today));
    Json::object().put("status", Json::text(status)).put("rangeStart", Json::text(start_text.as_str())).put(
        "rangeEnd",
        Json::text(end_text.as_str()),
    ).put("collectedAt", Json::num(at_ms)).put("summary", summary).put(
        "daily",
        Json::Arr(daily_series(slices, first, today)),
    ).put("accounts", Json::Arr(rows)).put("requests", Json::Arr(find_requests(accounts, results))).put(
        "models",
        Json::Arr(aggregate_usages(joint.as_slice())),
    ).put("detailLimitPerAccount", Json::count(OFFICIAL_USAGE_DETAIL_LIMIT)).put(
        "errors",
        Json::Arr(find_errors(accounts, results)),
    )
}

/// A value with the models of its list in their order.
pub open spec fn with_order(v: JsonV) -> JsonV {
    match v.get("models"@) {
        Some(JsonV::Arr(s)) => v.put("models"@, JsonV::Arr(ordered(s))),
        _ => v,
    }
}

/// A value with the models of each of its days in their order.
pub open spec fn with_daily_order(v: JsonV) -> JsonV {
    match v.get("daily"@) {
        Some(JsonV::Arr(s)) => v.put("daily"@, JsonV::Arr(s.map_values(|d: JsonV| with_order(d)))),
        _ => v,
    }
}

/// A report with all its models in their order.
pub open spec fn ordered_report(v: JsonV) -> JsonV {
    let w = with_daily_order(with_order(v));
    match w.get("accounts"@) {
        Some(JsonV::Arr(s)) => w.put(
            "accounts"@,
            JsonV::Arr(s.map_values(|a: JsonV| with_daily_order(with_order(a)))),
        ),
        _ => w,
    }
}

fn put_in_order(v: &Json) -> (r: Json)
    ensures
        r@ == with_order(v@),
{
    match v.get_arr("models") {
        Some(l) => {
            let list: Vec<Json> = order_models(l.as_slice());
            v.clone().put("models", Json::Arr(list))
        },
        None => v.clone(),
    }
}

fn put_days_in_order(v: &Json) -> (r: Json)
    ensures
        r@ == with_daily_order(v@),
{
    match v.get_arr("daily") {
        Some(l) => {
            let ghost all = json::list_view(l@);
            let mut days: Vec<Json> = Vec::new();
            let mut i: usize = 0;
            while i < l.len()
                invariant
                    i <= l@.len(),
                    all == json::list_view(l@),
                    days@.len() == i,
                    forall|j: int| 0 <= j < i ==> (#[trigger] days@[j])@ == with_order(all[j]),
                decreases l@.len() - i,
            {
                assert(all[i as int] == l@[i as int]@);
                days.push(put_in_order(&l[i]));
                i += 1;
            }
            assert(json::list_view(days@) =~= all.map_values(|d: JsonV| with_order(d)));
            v.clone().put("daily", Json::Arr(days))
        },
        None => v.clone(),
    }
}

/// A report with all its models in their order, once their credits are worked out.
pub fn order_report(v: &Json) -> (r: Json)
    ensures
        r@ == ordered_report(v@),
{
    let w: Json = put_days_in_order(&put_in_order(v));
    match w.get_arr("accounts") {
        Some(l) => {
            let ghost all = json::list_view(l@);
            let mut rows: Vec<Json> = Vec::new();
            let mut i: usize = 0;
            while i < l.len()
                invariant
                    i <= l@.len(),
                    all == json::list_view(l@),
                    rows@.len() == i,
                    forall|j: int| 0 <= j < i ==> (#[trigger] rows@[j])@ == with_daily_order(with_order(all[j])),
                decreases l@.len() - i,
            {
                assert(all[i as int] == l@[i as int]@);
                rows.push(put_days_in_order(&put_in_order(&l[i])));
                i += 1;
            }
            assert(json::list_view(rows@) =~= all.map_values(|a: JsonV| with_daily_order(with_order(a))));
            w.clone().put("accounts", Json::Arr(rows))
        },
        None => w,
    }
}

/// Reading the pages ends, and it ends complete: another page is asked for only
/// after one that brought records, and never beyond the last allowed page; what
/// is handed out as read holds as many records as were announced.
pub proof fn reading_ends(f: FetchV, total: int, raw_len: int, rows: Seq<RowV>, first: i32, last: i32)
    requires
        0 <= raw_len,
    ensures
        match fetch_with(f, total, raw_len, rows, first, last) {
            FetchStepV::More(g) => g.page == f.page + 1 && g.page <= OFFICIAL_USAGE_MAX_PAGES && g.fetched > f.fetched
                && g.fetched < g.total,
            FetchStepV::Done(g) => g.fetched >= g.total && g.total >= total,
            FetchStepV::Failed(_) => f.fetched + raw_len < total || f.fetched + raw_len < f.total,
        },
{
}

} // verus!
