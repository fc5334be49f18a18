//! What is told of the requests that the service has recorded.
use vstd::prelude::*;
use crate::account;
use crate::clock;
use crate::credits::TimeReadingV;
use crate::json::{JsonV, Op, Real};
use crate::numbers;
use crate::official_usage;
use crate::official_usage::{FetchStepV, FetchV, OutcomeV};
use crate::statistics;
use crate::statistics::{UsageV, Window};
use crate::text;

verus! {

proof fn model_names()
    ensures
        "model"@ != "requestCount"@,
        "model"@ != "credit"@,
        "requestCount"@ != "credit"@,
{
    reveal_strlit("model");
    reveal_strlit("requestCount");
    reveal_strlit("credit");
    assert("model"@.len() == 5);
    assert("requestCount"@.len() == 12);
    assert("credit"@.len() == 6);
}

proof fn request_names()
    ensures
        "accountId"@ != "accountName"@,
        "accountId"@ != "requestId"@,
        "accountId"@ != "credit"@,
        "accountId"@ != "model"@,
        "accountId"@ != "client"@,
        "accountId"@ != "requestTime"@,
        "accountName"@ != "requestId"@,
        "accountName"@ != "credit"@,
        "accountName"@ != "model"@,
        "accountName"@ != "client"@,
        "accountName"@ != "requestTime"@,
        "requestId"@ != "credit"@,
        "requestId"@ != "model"@,
        "requestId"@ != "client"@,
        "requestId"@ != "requestTime"@,
        "credit"@ != "model"@,
        "credit"@ != "client"@,
        "credit"@ != "requestTime"@,
        "model"@ != "client"@,
        "model"@ != "requestTime"@,
        "client"@ != "requestTime"@,
{
    reveal_strlit("accountId");
    reveal_strlit("accountName");
    reveal_strlit("requestId");
    reveal_strlit("credit");
    reveal_strlit("model");
    reveal_strlit("client");
    reveal_strlit("requestTime");
    assert("accountId"@.len() == 9);
    assert("accountName"@.len() == 11);
    assert("requestId"@.len() == 9);
    assert("credit"@.len() == 6);
    assert("model"@.len() == 5);
    assert("client"@.len() == 6);
    assert("requestTime"@.len() == 11);
    assert("accountId"@[0] != "requestId"@[0]);
    assert("accountName"@[0] != "requestTime"@[0]);
    assert("credit"@[1] != "client"@[1]);
}

proof fn entry_names()
    ensures
        "accountId"@ != "accountName"@,
        "accountId"@ != "ok"@,
        "accountId"@ != "requestCount"@,
        "accountId"@ != "detailTruncated"@,
        "accountId"@ != "usageToday"@,
        "accountId"@ != "usage7Days"@,
        "accountId"@ != "usageThisMonth"@,
        "accountId"@ != "error"@,
        "accountId"@ != "reportedTotal"@,
        "accountId"@ != "fetchedCount"@,
        "accountId"@ != "models"@,
        "accountId"@ != "daily"@,
        "accountName"@ != "ok"@,
        "accountName"@ != "requestCount"@,
        "accountName"@ != "detailTruncated"@,
        "accountName"@ != "usageToday"@,
        "accountName"@ != "usage7Days"@,
        "accountName"@ != "usageThisMonth"@,
        "accountName"@ != "error"@,
        "accountName"@ != "reportedTotal"@,
        "accountName"@ != "fetchedCount"@,
        "accountName"@ != "models"@,
        "accountName"@ != "daily"@,
        "ok"@ != "requestCount"@,
        "ok"@ != "detailTruncated"@,
        "ok"@ != "usageToday"@,
        "ok"@ != "usage7Days"@,
        "ok"@ != "usageThisMonth"@,
        "ok"@ != "error"@,
        "ok"@ != "reportedTotal"@,
        "ok"@ != "fetchedCount"@,
        "ok"@ != "models"@,
        "ok"@ != "daily"@,
        "requestCount"@ != "detailTruncated"@,
        "requestCount"@ != "usageToday"@,
        "requestCount"@ != "usage7Days"@,
        "requestCount"@ != "usageThisMonth"@,
        "requestCount"@ != "error"@,
        "requestCount"@ != "reportedTotal"@,
        "requestCount"@ != "fetchedCount"@,
        "requestCount"@ != "models"@,
        "requestCount"@ != "daily"@,
        "detailTruncated"@ != "usageToday"@,
        "detailTruncated"@ != "usage7Days"@,
        "detailTruncated"@ != "usageThisMonth"@,
        "detailTruncated"@ != "error"@,
        "detailTruncated"@ != "reportedTotal"@,
        "detailTruncated"@ != "fetchedCount"@,
        "detailTruncated"@ != "models"@,
        "detailTruncated"@ != "daily"@,
        "usageToday"@ != "usage7Days"@,
        "usageToday"@ != "usageThisMonth"@,
        "usageToday"@ != "error"@,
        "usageToday"@ != "reportedTotal"@,
        "usageToday"@ != "fetchedCount"@,
        "usageToday"@ != "models"@,
        "usageToday"@ != "daily"@,
        "usage7Days"@ != "usageThisMonth"@,
        "usage7Days"@ != "error"@,
        "usage7Days"@ != "reportedTotal"@,
        "usage7Days"@ != "fetchedCount"@,
        "usage7Days"@ != "models"@,
        "usage7Days"@ != "daily"@,
        "usageThisMonth"@ != "error"@,
        "usageThisMonth"@ != "reportedTotal"@,
        "usageThisMonth"@ != "fetchedCount"@,
        "usageThisMonth"@ != "models"@,
        "usageThisMonth"@ != "daily"@,
        "error"@ != "reportedTotal"@,
        "error"@ != "fetchedCount"@,
        "error"@ != "models"@,
        "error"@ != "daily"@,
        "reportedTotal"@ != "fetchedCount"@,
        "reportedTotal"@ != "models"@,
        "reportedTotal"@ != "daily"@,
        "fetchedCount"@ != "models"@,
        "fetchedCount"@ != "daily"@,
        "models"@ != "daily"@,
{
    reveal_strlit("accountId");
    reveal_strlit("accountName");
    reveal_strlit("ok");
    reveal_strlit("requestCount");
    reveal_strlit("detailTruncated");
    reveal_strlit("usageToday");
    reveal_strlit("usage7Days");
    reveal_strlit("usageThisMonth");
    reveal_strlit("error");
    reveal_strlit("reportedTotal");
    reveal_strlit("fetchedCount");
    reveal_strlit("models");
    reveal_strlit("daily");
    assert("accountId"@.len() == 9);
    assert("accountName"@.len() == 11);
    assert("ok"@.len() == 2);
    assert("requestCount"@.len() == 12);
    assert("detailTruncated"@.len() == 15);
    assert("usageToday"@.len() == 10);
    assert("usage7Days"@.len() == 10);
    assert("usageThisMonth"@.len() == 14);
    assert("error"@.len() == 5);
    assert("reportedTotal"@.len() == 13);
    assert("fetchedCount"@.len() == 12);
    assert("models"@.len() == 6);
    assert("daily"@.len() == 5);
    assert("requestCount"@[0] != "fetchedCount"@[0]);
    assert("usageToday"@[5] != "usage7Days"@[5]);
    assert("error"@[0] != "daily"@[0]);
}

proof fn report_names()
    ensures
        "status"@ != "rangeStart"@,
        "status"@ != "rangeEnd"@,
        "status"@ != "collectedAt"@,
        "status"@ != "summary"@,
        "status"@ != "daily"@,
        "status"@ != "accounts"@,
        "status"@ != "requests"@,
        "status"@ != "models"@,
        "status"@ != "detailLimitPerAccount"@,
        "status"@ != "errors"@,
        "rangeStart"@ != "rangeEnd"@,
        "rangeStart"@ != "collectedAt"@,
        "rangeStart"@ != "summary"@,
        "rangeStart"@ != "daily"@,
        "rangeStart"@ != "accounts"@,
        "rangeStart"@ != "requests"@,
        "rangeStart"@ != "models"@,
        "rangeStart"@ != "detailLimitPerAccount"@,
        "rangeStart"@ != "errors"@,
        "rangeEnd"@ != "collectedAt"@,
        "rangeEnd"@ != "summary"@,
        "rangeEnd"@ != "daily"@,
        "rangeEnd"@ != "accounts"@,
        "rangeEnd"@ != "requests"@,
        "rangeEnd"@ != "models"@,
        "rangeEnd"@ != "detailLimitPerAccount"@,
        "rangeEnd"@ != "errors"@,
        "collectedAt"@ != "summary"@,
        "collectedAt"@ != "daily"@,
        "collectedAt"@ != "accounts"@,
        "collectedAt"@ != "requests"@,
        "collectedAt"@ != "models"@,
        "collectedAt"@ != "detailLimitPerAccount"@,
        "collectedAt"@ != "errors"@,
        "summary"@ != "daily"@,
        "summary"@ != "accounts"@,
        "summary"@ != "requests"@,
        "summary"@ != "models"@,
        "summary"@ != "detailLimitPerAccount"@,
        "summary"@ != "errors"@,
        "daily"@ != "accounts"@,
        "daily"@ != "requests"@,
        "daily"@ != "models"@,
        "daily"@ != "detailLimitPerAccount"@,
        "daily"@ != "errors"@,
        "accounts"@ != "requests"@,
        "accounts"@ != "models"@,
        "accounts"@ != "detailLimitPerAccount"@,
        "accounts"@ != "errors"@,
        "requests"@ != "models"@,
        "requests"@ != "detailLimitPerAccount"@,
        "requests"@ != "errors"@,
        "models"@ != "detailLimitPerAccount"@,
        "models"@ != "errors"@,
        "detailLimitPerAccount"@ != "errors"@,
{
    reveal_strlit("status");
    reveal_strlit("rangeStart");
    reveal_strlit("rangeEnd");
    reveal_strlit("collectedAt");
    reveal_strlit("summary");
    reveal_strlit("daily");
    reveal_strlit("accounts");
    reveal_strlit("requests");
    reveal_strlit("models");
    reveal_strlit("detailLimitPerAccount");
    reveal_strlit("errors");
    assert("status"@.len() == 6);
    assert("rangeStart"@.len() == 10);
    assert("rangeEnd"@.len() == 8);
    assert("collectedAt"@.len() == 11);
    assert("summary"@.len() == 7);
    assert("daily"@.len() == 5);
    assert("accounts"@.len() == 8);
    assert("requests"@.len() == 8);
    assert("models"@.len() == 6);
    assert("detailLimitPerAccount"@.len() == 21);
    assert("errors"@.len() == 6);
    assert("status"@[0] != "models"@[0]);
    assert("status"@[0] != "errors"@[0]);
    assert("rangeEnd"@[0] != "accounts"@[0]);
    assert("rangeEnd"@[1] != "requests"@[1]);
    assert("accounts"@[0] != "requests"@[0]);
    assert("models"@[0] != "errors"@[0]);
}

/// The models are ordered by what they cost, the dearest first; of two that cost the same
/// the one with more requests comes first, and of two with as many the one whose name
/// comes first.
pub proof fn the_dearest_model_comes_first(s: Seq<JsonV>, i: int, j: int, a: Real, b: Real, m: int, n: int, x: Seq<char>, y: Seq<char>)
    requires
        0 <= i < j < official_usage::ordered(s).len(),
        official_usage::ordered(s)[i].get("credit"@) == Some(JsonV::Real(a)),
        official_usage::ordered(s)[j].get("credit"@) == Some(JsonV::Real(b)),
        official_usage::ordered(s)[i].get("requestCount"@) == Some(JsonV::Int(m)),
        official_usage::ordered(s)[j].get("requestCount"@) == Some(JsonV::Int(n)),
        0 <= m <= i64::MAX && 0 <= n <= i64::MAX,
        official_usage::ordered(s)[i].get("model"@) == Some(JsonV::Str(x)),
        official_usage::ordered(s)[j].get("model"@) == Some(JsonV::Str(y)),
    ensures
        a.bits >= b.bits,
        a.bits == b.bits ==> m >= n,
        a.bits == b.bits && m == n ==> !text::less(y, x),
{
    official_usage::models_are_ordered(s);
    assert(!official_usage::outranks(official_usage::ordered(s)[j], official_usage::ordered(s)[i]));
}

proof fn models_are(u: Seq<UsageV>)
    ensures
        official_usage::models_of(u).no_duplicates(),
        forall|m: Seq<char>| #[trigger]
            official_usage::models_of(u).contains(m) <==> exists|i: int| 0 <= i < u.len() && (#[trigger] u[i]).owner == m,
    decreases u.len(),
{
    if u.len() > 0 {
        let n = u.len() - 1;
        let front = u.subrange(0, n);
        models_are(front);
        let rest = official_usage::models_of(front);
        let all = official_usage::models_of(u);
        let last = u[n].owner;
        assert forall|m: Seq<char>| #[trigger]
            all.contains(m) <==> exists|i: int| 0 <= i < u.len() && (#[trigger] u[i]).owner == m by {
            vstd::seq_lib::lemma_seq_contains_after_push(rest, last, m);
            if all.contains(m) {
                if m == last {
                    assert(u[n].owner == m);
                } else {
                    assert(rest.contains(m));
                    let k = choose|i: int| 0 <= i < front.len() && (#[trigger] front[i]).owner == m;
                    assert(u[k].owner == m);
                }
            }
            if exists|i: int| 0 <= i < u.len() && (#[trigger] u[i]).owner == m {
                let k = choose|i: int| 0 <= i < u.len() && (#[trigger] u[i]).owner == m;
                if k < n {
                    assert(front[k].owner == m);
                    assert(rest.contains(m));
                }
            }
        }
    }
}

proof fn own_is_filter(u: Seq<UsageV>, id: Seq<char>)
    ensures
        statistics::of_account(u, id) == u.filter(|x: UsageV| x.owner == id),
    decreases u.len(),
{
    reveal(Seq::filter);
    if u.len() > 0 {
        assert(u.subrange(0, u.len() - 1) =~= u.drop_last());
        own_is_filter(u.subrange(0, u.len() - 1), id);
    }
}

/// What is told of the models: each that was used is told once, with the number of its
/// requests and the sum of what they cost.
pub proof fn models_are_told_once(u: Seq<UsageV>, k: int)
    requires
        0 <= k < official_usage::model_list(u).len(),
    ensures
        official_usage::model_list(u)[k].get("model"@) matches Some(JsonV::Str(m)) && {
            &&& official_usage::model_list(u)[k].get("requestCount"@) == Some(
                JsonV::Int(u.filter(|x: UsageV| x.owner == m).len() as int),
            )
            &&& official_usage::model_list(u)[k].get("credit"@) == Some(
                JsonV::Calc(Op::Sum, u.filter(|x: UsageV| x.owner == m).map_values(|x: UsageV| x.amount)),
            )
            &&& exists|i: int| 0 <= i < u.len() && (#[trigger] u[i]).owner == m
        },
        forall|j: int|
            0 <= j < official_usage::model_list(u).len() && j != k ==> (#[trigger] official_usage::model_list(u)[j]).get(
                "model"@,
            ) != official_usage::model_list(u)[k].get("model"@),
{
    model_names();
    models_are(u);
    let names = official_usage::models_of(u);
    let m = names[k];
    assert(names.contains(m));
    own_is_filter(u, m);
    let own = statistics::of_account(u, m);
    assert(official_usage::all_amounts(own) =~= own.map_values(|x: UsageV| x.amount));
    assert(official_usage::model_list(u)[k] == official_usage::model_entry(u, m));
    assert forall|j: int|
        0 <= j < official_usage::model_list(u).len() && j != k implies (#[trigger] official_usage::model_list(u)[j]).get(
        "model"@,
    ) != official_usage::model_list(u)[k].get("model"@) by {
        assert(official_usage::model_list(u)[j] == official_usage::model_entry(u, names[j]));
        assert(names[j] != names[k]);
    }
}

/// Every model that was used is told.
pub proof fn every_model_is_told(u: Seq<UsageV>, i: int)
    requires
        0 <= i < u.len(),
    ensures
        exists|k: int|
            0 <= k < official_usage::model_list(u).len() && (#[trigger] official_usage::model_list(u)[k]).get("model"@)
                == Some(JsonV::Str(u[i].owner)),
{
    model_names();
    models_are(u);
    let names = official_usage::models_of(u);
    assert(u[i].owner == u[i].owner);
    assert(names.contains(u[i].owner));
    let k = choose|k: int| 0 <= k < names.len() && names[k] == u[i].owner;
    assert(official_usage::model_list(u)[k] == official_usage::model_entry(u, names[k]));
}

/// A request is read from a record that has a cost of at least zero and a time: what it
/// cost, its id, its model and its client, each as the record says it.
pub proof fn requests_are_read_from_records(v: JsonV, moment: (i64, i32), cost: int, t: int)
    requires
        v.get("credit"@) == Some(JsonV::Int(cost)),
        v.get("requestTime"@) == Some(JsonV::Int(t)),
    ensures
        cost < 0 ==> official_usage::row_of(v, Some(moment)) is None,
        official_usage::row_of(v, None) is None,
        cost >= 0 ==> (official_usage::row_of(v, Some(moment)) matches Some(r) && {
            &&& r.credit == JsonV::Int(cost) && r.ts == moment.0 && r.day == moment.1
            &&& v.get("requestId"@) matches Some(JsonV::Str(id)) ==> (text::trim(id) == id && 0 < id.len() <= 160
                ==> r.id == id)
            &&& v.get("requestId"@) is None ==> (v.get("request_id"@) matches Some(JsonV::Str(id)) ==> (text::trim(id)
                == id && 0 < id.len() <= 160 ==> r.id == id))
            &&& v.get("model"@) matches Some(JsonV::Str(m)) ==> (text::trim(m) == m && 0 < m.len() <= 160 ==> r.model
                == m)
            &&& v.get("client"@) matches Some(JsonV::Str(c)) ==> (text::trim(c) == c && 0 < c.len() <= 160
                ==> r.client == c)
        }),
{
    assert forall|s: Seq<char>| 0 < s.len() <= 160 implies #[trigger] text::head(s, 160) == s by {
        assert(text::head(s, 160) =~= s);
    }
}

/// What is told of a request is what was read of it, under its account.
pub proof fn requests_are_told(id: Seq<char>, name: Seq<char>, r: official_usage::RowV)
    ensures
        ({
            let e = official_usage::request_entry(id, name, r);
            &&& e.get("accountId"@) == Some(JsonV::Str(id))
            &&& e.get("accountName"@) == Some(JsonV::Str(name))
            &&& e.get("requestId"@) == Some(JsonV::Str(r.id))
            &&& e.get("model"@) == Some(JsonV::Str(r.model))
            &&& e.get("client"@) == Some(JsonV::Str(r.client))
            &&& e.get("requestTime"@) == Some(JsonV::Str(r.time))
            &&& e.get("credit"@) == Some(numbers::as_double(r.credit))
        }),
{
    request_names();
}

/// The model of a request goes by its name; one that is not known by a word for that.
pub proof fn models_go_by_their_name(m: Seq<char>)
    ensures
        text::trim(m) == m && m.len() > 0 && m != "—"@ ==> official_usage::name_of_model(m) == m,
        m == "—"@ || m.len() == 0 ==> text::trim(m) == m ==> official_usage::name_of_model(m) == "未知模型"@,
{
}

/// Of an account's requests the hundred newest are told, the newest first.
pub proof fn the_newest_requests_are_told(id: Seq<char>, name: Seq<char>, rows: Seq<official_usage::RowV>, i: int, j: int)
    ensures
        official_usage::newest_requests(id, name, rows).len() == (if rows.len() > 100 {
            100
        } else {
            rows.len()
        }),
        0 <= i < j < official_usage::newest_requests(id, name, rows).len() ==> official_usage::newest_requests(
            id,
            name,
            rows,
        )[i].0 >= official_usage::newest_requests(id, name, rows)[j].0,
{
    let all = official_usage::request_entries(id, name, rows);
    statistics::events_newest_first(all);
    ranked_has_all(all);
}

proof fn ranked_has_all(events: Seq<(int, JsonV)>)
    ensures
        statistics::ranked(events).len() == events.len(),
    decreases events.len(),
{
    if events.len() > 0 {
        let front = events.subrange(0, events.len() - 1);
        ranked_has_all(front);
        ranking_adds_one(statistics::ranked(front), events[events.len() - 1]);
    }
}

proof fn ranking_adds_one(s: Seq<(int, JsonV)>, x: (int, JsonV))
    ensures
        statistics::ranked_in(s, x).len() == s.len() + 1,
    decreases s.len(),
{
    if !(s.len() == 0 || s[s.len() - 1].0 >= x.0) {
        ranking_adds_one(s.subrange(0, s.len() - 1), x);
    }
}

/// Reading a page keeps what was read, and adds each request of the page that lies in the
/// span and was not read.
pub proof fn reading_adds_the_page(
    rows: Seq<official_usage::RowV>,
    page: Seq<official_usage::RowV>,
    first: i32,
    last: i32,
    n: int,
    i: int,
)
    requires
        0 <= n <= page.len(),
    ensures
        official_usage::read_with(rows, page, first, last, n).len() >= rows.len(),
        0 <= i < rows.len() ==> official_usage::read_with(rows, page, first, last, n)[i] == rows[i],
        0 <= i < n && first <= page[i].day <= last ==> exists|k: int|
            0 <= k < official_usage::read_with(rows, page, first, last, n).len() && (
            #[trigger] official_usage::read_with(rows, page, first, last, n)[k]).ts == page[i].ts
                && official_usage::read_with(rows, page, first, last, n)[k].id == page[i].id,
    decreases n,
{
    if n > 0 {
        reading_adds_the_page(rows, page, first, last, n - 1, i);
        let rest = official_usage::read_with(rows, page, first, last, n - 1);
        let all = official_usage::read_with(rows, page, first, last, n);
        if 0 <= i < n && first <= page[i].day <= last {
            if i < n - 1 {
                let k = choose|k: int|
                    0 <= k < rest.len() && (#[trigger] rest[k]).ts == page[i].ts && rest[k].id == page[i].id;
                assert(all[k] == rest[k]);
            } else if official_usage::is_read(rest, page[i]) {
                let k = choose|k: int|
                    0 <= k < rest.len() && (#[trigger] rest[k]).ts == page[i].ts && rest[k].id == page[i].id;
                assert(all[k] == rest[k]);
            } else {
                assert(all[rest.len() as int] == page[i]);
            }
        }
    }
}

/// After a page as many records are counted as it held, and as many are announced as the
/// largest of the announcements says; the next page is asked for while some are missing.
pub proof fn pages_are_counted(f: FetchV, total: int, raw_len: int, rows: Seq<official_usage::RowV>, first: i32, last: i32)
    requires
        0 <= raw_len,
        f.page < 100,
    ensures
        ({
            let announced = if total > f.total {
                total
            } else {
                f.total
            };
            let fetched = f.fetched + raw_len;
            match official_usage::fetch_with(f, total, raw_len, rows, first, last) {
                FetchStepV::More(g) => raw_len > 0 && fetched < announced && g.fetched == fetched && g.total == announced
                    && g.page == f.page + 1,
                FetchStepV::Done(g) => fetched >= announced && g.fetched == fetched && g.total == announced && g.page
                    == f.page,
                FetchStepV::Failed(_) => raw_len == 0 && fetched < announced,
            }
        }),
{
}

/// What is told of an account that was read: how many requests were announced and how many
/// read, what they cost on this day, within seven days and in this month; of one that was
/// not read, why.
pub proof fn accounts_are_told_as_read(accounts: Seq<JsonV>, o: Seq<OutcomeV>, today: i32, i: int)
    requires
        0 <= i < accounts.len(),
        o.len() == accounts.len(),
    ensures
        ({
            let e = official_usage::account_entry(accounts, o, today, i);
            &&& e.get("accountName"@) == Some(JsonV::Str(account::display_name(accounts[i])))
            &&& account::str_of(accounts[i], "id"@) matches Some(id) ==> e.get("accountId"@) == Some(JsonV::Str(id))
            &&& o[i] matches OutcomeV::Failed(why) ==> e.get("ok"@) == Some(JsonV::Bool(false)) && e.get("error"@)
                == Some(JsonV::Str(why)) && e.get("usageToday"@) == Some(JsonV::Null)
            &&& o[i] matches OutcomeV::Read(f) ==> {
                let u = official_usage::usages(f.rows);
                &&& e.get("ok"@) == Some(JsonV::Bool(true))
                &&& e.get("requestCount"@) == Some(JsonV::Int(f.total))
                &&& e.get("reportedTotal"@) == Some(JsonV::Int(f.total))
                &&& e.get("fetchedCount"@) == Some(JsonV::Int(f.fetched))
                &&& e.get("detailTruncated"@) == Some(JsonV::Bool(f.total > 100))
                &&& e.get("models"@) == Some(JsonV::Arr(official_usage::model_list(u)))
                &&& e.get("usageToday"@) == Some(
                    JsonV::Calc(
                        Op::Sum,
                        u.filter(|x: UsageV| x.day == today).map_values(|x: UsageV| x.amount),
                    ),
                )
                &&& e.get("usage7Days"@) == Some(
                    JsonV::Calc(
                        Op::Sum,
                        u.filter(|x: UsageV| today - 6 <= x.day <= today).map_values(|x: UsageV| x.amount),
                    ),
                )
                &&& e.get("usageThisMonth"@) == Some(
                    JsonV::Calc(
                        Op::Sum,
                        u.filter(
                            |x: UsageV| clock::month_of_day(x.day) == clock::month_of_day(today),
                        ).map_values(|x: UsageV| x.amount),
                    ),
                )
            }
        }),
{
    entry_names();
    if o[i] is Read {
        let u = official_usage::usages(o[i]->Read_0.rows);
        window_amounts_are(u, Window::Today, today);
        window_amounts_are(u, Window::Week, today);
        window_amounts_are(u, Window::Month, today);
        assert((|x: UsageV| x.day == today) =~= (|x: UsageV| statistics::in_window(Window::Today, x.day, today)));
        assert((|x: UsageV| today - 6 <= x.day <= today) =~= (|x: UsageV|
            statistics::in_window(Window::Week, x.day, today)));
        assert((|x: UsageV| clock::month_of_day(x.day) == clock::month_of_day(today)) =~= (|x: UsageV|
            statistics::in_window(Window::Month, x.day, today)));
    }
}

proof fn window_amounts_are(u: Seq<UsageV>, w: Window, today: i32)
    ensures
        statistics::amounts_in(u, w, today) == u.filter(
            |x: UsageV| statistics::in_window(w, x.day, today),
        ).map_values(|x: UsageV| x.amount),
    decreases u.len(),
{
    let keep = |x: UsageV| statistics::in_window(w, x.day, today);
    let of = |x: UsageV| x.amount;
    reveal(Seq::filter);
    if u.len() > 0 {
        let front = u.subrange(0, u.len() - 1);
        let last = u[u.len() - 1];
        assert(front =~= u.drop_last());
        window_amounts_are(front, w, today);
        if keep(last) {
            assert(front.filter(keep).push(last).map_values(of) =~= front.filter(keep).map_values(of).push(of(last)));
        }
    }
}

/// Every request that was read is one that was used: when, on which day, by which model
/// and for how much.
pub proof fn requests_are_uses(rows: Seq<official_usage::RowV>, i: int)
    requires
        0 <= i < rows.len(),
    ensures
        official_usage::usages(rows).len() == rows.len(),
        official_usage::usages(rows)[i].ts == rows[i].ts,
        official_usage::usages(rows)[i].day == rows[i].day,
        official_usage::usages(rows)[i].amount == rows[i].credit,
        official_usage::usages(rows)[i].owner == official_usage::name_of_model(rows[i].model),
{
}

proof fn read_count_is(o: Seq<OutcomeV>, n: int)
    requires
        0 <= n <= o.len(),
    ensures
        0 <= official_usage::read_count(o, n) <= n,
        (official_usage::read_count(o, n) == n) == (forall|i: int| 0 <= i < n ==> #[trigger] o[i] is Read),
        (official_usage::read_count(o, n) == 0) == (forall|i: int| 0 <= i < n ==> #[trigger] o[i] is Failed),
    decreases n,
{
    if n > 0 {
        read_count_is(o, n - 1);
        assert(o[n - 1] is Read || o[n - 1] is Failed);
    }
}

/// A report is complete where every account was read, not available where none was, and
/// partial in between.
pub proof fn reports_say_how_complete_they_are(accounts: Seq<JsonV>, o: Seq<OutcomeV>, today: i32, at: int)
    requires
        accounts.len() == o.len(),
    ensures
        ({
            let r = official_usage::report_of(accounts, o, today, at);
            &&& r.get("status"@) == Some(
                JsonV::Str(
                    if forall|i: int| 0 <= i < o.len() ==> #[trigger] o[i] is Failed {
                        "unavailable"@
                    } else if forall|i: int| 0 <= i < o.len() ==> #[trigger] o[i] is Read {
                        "complete"@
                    } else {
                        "partial"@
                    },
                ),
            )
            &&& r.get("rangeStart"@) == Some(JsonV::Str(clock::text_of_day((today - 30) as i32)))
            &&& r.get("rangeEnd"@) == Some(JsonV::Str(clock::text_of_day(today)))
            &&& r.get("collectedAt"@) == Some(JsonV::Int(at))
            &&& r.get("detailLimitPerAccount"@) == Some(JsonV::Int(100))
            &&& r.get("accounts"@) matches Some(JsonV::Arr(list)) && list.len() == accounts.len()
        }),
{
    report_names();
    read_count_is(o, o.len() as int);
    if o.len() > 0 && (forall|i: int| 0 <= i < o.len() ==> #[trigger] o[i] is Failed) {
        assert(o[0] is Failed);
    }
}

proof fn errors_are(accounts: Seq<JsonV>, o: Seq<OutcomeV>, n: int, i: int)
    requires
        0 <= i < n <= o.len(),
        n <= accounts.len(),
        o[i] is Failed,
    ensures
        exists|k: int|
            0 <= k < official_usage::error_entries(accounts, o, n).len() && (#[trigger] official_usage::error_entries(
                accounts,
                o,
                n,
            )[k]).get("accountId"@) == Some(JsonV::Str(official_usage::id_at(accounts, i)))
                && official_usage::error_entries(accounts, o, n)[k].get("error"@) == Some(JsonV::Str(o[i]->Failed_0)),
    decreases n,
{
    let rest = official_usage::error_entries(accounts, o, n - 1);
    let all = official_usage::error_entries(accounts, o, n);
    if i < n - 1 {
        errors_are(accounts, o, n - 1, i);
        let k = choose|k: int|
            0 <= k < rest.len() && (#[trigger] rest[k]).get("accountId"@) == Some(
                JsonV::Str(official_usage::id_at(accounts, i)),
            ) && rest[k].get("error"@) == Some(JsonV::Str(o[i]->Failed_0));
        assert(all[k] == rest[k]);
    } else {
        entry_names();
        let e = all[rest.len() as int];
        assert(e.get("error"@) == Some(JsonV::Str(o[i]->Failed_0)));
        assert(e.get("accountId"@) == Some(JsonV::Str(official_usage::id_at(accounts, i))));
    }
}

/// Every account that could not be read is told among the errors, with the reason.
pub proof fn failures_are_told(accounts: Seq<JsonV>, o: Seq<OutcomeV>, today: i32, at: int, i: int, why: Seq<char>) -> (k:
    int)
    requires
        accounts.len() == o.len(),
        0 <= i < o.len(),
        o[i] == OutcomeV::Failed(why),
    ensures
        official_usage::report_of(accounts, o, today, at).get("errors"@) matches Some(JsonV::Arr(l)) && 0 <= k < l.len()
            && l[k].get("accountId"@) == Some(
                JsonV::Str(official_usage::id_at(accounts, i)),
            ) && l[k].get("error"@) == Some(JsonV::Str(why)),
{
    errors_are(accounts, o, o.len() as int, i);
    let all = official_usage::error_entries(accounts, o, o.len() as int);
    let k = choose|k: int|
        0 <= k < all.len() && (#[trigger] all[k]).get("accountId"@) == Some(
            JsonV::Str(official_usage::id_at(accounts, i)),
        ) && all[k].get("error"@) == Some(JsonV::Str(o[i]->Failed_0));
    assert(official_usage::report_of(accounts, o, today, at).get("errors"@) == Some(JsonV::Arr(all))) by {
        report_names();
    }
    k
}

proof fn groups_are(accounts: Seq<JsonV>, o: Seq<OutcomeV>, w: Window, today: i32, key: Seq<char>, n: int)
    requires
        0 <= n <= o.len(),
        accounts.len() == o.len(),
        key == (match w {
            Window::Today => "usageToday"@,
            Window::Week => "usage7Days"@,
            Window::Month => "usageThisMonth"@,
        }),
    ensures
        official_usage::groups_of(accounts, o, None, n).map_values(
            |u: Seq<UsageV>| statistics::used_in(u, w, today),
        ) == Seq::new(n as nat, |i: int| official_usage::account_entry(accounts, o, today, i)).filter(
            |e: JsonV| e.get("ok"@) == Some(JsonV::Bool(true)),
        ).map_values(|e: JsonV| e.get(key)->0),
    decreases n,
{
    let sum = |u: Seq<UsageV>| statistics::used_in(u, w, today);
    let keep = |e: JsonV| e.get("ok"@) == Some(JsonV::Bool(true));
    let of = |e: JsonV| e.get(key)->0;
    let list = Seq::new(n as nat, |i: int| official_usage::account_entry(accounts, o, today, i));
    reveal(Seq::filter);
    if n > 0 {
        groups_are(accounts, o, w, today, key, n - 1);
        let front = Seq::new((n - 1) as nat, |i: int| official_usage::account_entry(accounts, o, today, i));
        assert(list.drop_last() =~= front);
        let rest = official_usage::groups_of(accounts, o, None, n - 1);
        let last = official_usage::account_entry(accounts, o, today, n - 1);
        assert(list.last() == last);
        entry_is_used(accounts, o, w, today, key, n - 1);
        if o[n - 1] is Read {
            let u = official_usage::used_by(o, n - 1);
            assert(rest.push(u).map_values(sum) =~= rest.map_values(sum).push(sum(u)));
            assert(front.filter(keep).push(last).map_values(of) =~= front.filter(keep).map_values(of).push(of(last)));
        }
    } else {
        assert(list =~= Seq::<JsonV>::empty());
    }
}

proof fn entry_is_used(accounts: Seq<JsonV>, o: Seq<OutcomeV>, w: Window, today: i32, key: Seq<char>, i: int)
    requires
        key == (match w {
            Window::Today => "usageToday"@,
            Window::Week => "usage7Days"@,
            Window::Month => "usageThisMonth"@,
        }),
    ensures
        (official_usage::account_entry(accounts, o, today, i).get("ok"@) == Some(JsonV::Bool(true))) == (o[i] is Read),
        o[i] is Read ==> official_usage::account_entry(accounts, o, today, i).get(key) == Some(
            statistics::used_in(official_usage::used_by(o, i), w, today),
        ),
{
    entry_names();
}

/// What all accounts together are told to have used is the sum of what is told of those
/// that were read.
pub proof fn use_of_all_is_that_of_the_read(accounts: Seq<JsonV>, o: Seq<OutcomeV>, today: i32, at: int)
    requires
        accounts.len() == o.len(),
    ensures
        ({
            let r = official_usage::report_of(accounts, o, today, at);
            &&& r.get("accounts"@) matches Some(JsonV::Arr(list))
            &&& r.get("summary"@) matches Some(sum)
            &&& sum.get("usageToday"@) == Some(
                JsonV::Calc(
                    Op::Sum,
                    list.filter(|e: JsonV| e.get("ok"@) == Some(JsonV::Bool(true))).map_values(
                        |e: JsonV| e.get("usageToday"@)->0,
                    ),
                ),
            )
            &&& sum.get("usage7Days"@) == Some(
                JsonV::Calc(
                    Op::Sum,
                    list.filter(|e: JsonV| e.get("ok"@) == Some(JsonV::Bool(true))).map_values(
                        |e: JsonV| e.get("usage7Days"@)->0,
                    ),
                ),
            )
            &&& sum.get("usageThisMonth"@) == Some(
                JsonV::Calc(
                    Op::Sum,
                    list.filter(|e: JsonV| e.get("ok"@) == Some(JsonV::Bool(true))).map_values(
                        |e: JsonV| e.get("usageThisMonth"@)->0,
                    ),
                ),
            )
        }),
{
    let n = o.len() as int;
    let groups = official_usage::groups_of(accounts, o, None, n);
    assert(official_usage::used_together(groups, Window::Today, today) == JsonV::Calc(
        Op::Sum,
        groups.map_values(|u: Seq<UsageV>| statistics::used_in(u, Window::Today, today)),
    )) by {
        assert(groups.map_values(|u: Seq<UsageV>| statistics::used_in(u, Window::Today, today)) =~= Seq::new(
            groups.len(),
            |i: int| statistics::used_in(groups[i], Window::Today, today),
        ));
    }
    assert(official_usage::used_together(groups, Window::Week, today) == JsonV::Calc(
        Op::Sum,
        groups.map_values(|u: Seq<UsageV>| statistics::used_in(u, Window::Week, today)),
    )) by {
        assert(groups.map_values(|u: Seq<UsageV>| statistics::used_in(u, Window::Week, today)) =~= Seq::new(
            groups.len(),
            |i: int| statistics::used_in(groups[i], Window::Week, today),
        ));
    }
    assert(official_usage::used_together(groups, Window::Month, today) == JsonV::Calc(
        Op::Sum,
        groups.map_values(|u: Seq<UsageV>| statistics::used_in(u, Window::Month, today)),
    )) by {
        assert(groups.map_values(|u: Seq<UsageV>| statistics::used_in(u, Window::Month, today)) =~= Seq::new(
            groups.len(),
            |i: int| statistics::used_in(groups[i], Window::Month, today),
        ));
    }
    groups_are(accounts, o, Window::Today, today, "usageToday"@, n);
    groups_are(accounts, o, Window::Week, today, "usage7Days"@, n);
    groups_are(accounts, o, Window::Month, today, "usageThisMonth"@, n);
    report_sums(accounts, o, today, at);
}

proof fn report_sums(accounts: Seq<JsonV>, o: Seq<OutcomeV>, today: i32, at: int)
    requires
        accounts.len() == o.len(),
    ensures
        ({
            let r = official_usage::report_of(accounts, o, today, at);
            let groups = official_usage::groups_of(accounts, o, None, o.len() as int);
            &&& r.get("accounts"@) == Some(
                JsonV::Arr(Seq::new(o.len(), |i: int| official_usage::account_entry(accounts, o, today, i))),
            )
            &&& r.get("summary"@) matches Some(sum)
            &&& sum.get("usageToday"@) == Some(official_usage::used_together(groups, Window::Today, today))
            &&& sum.get("usage7Days"@) == Some(official_usage::used_together(groups, Window::Week, today))
            &&& sum.get("usageThisMonth"@) == Some(official_usage::used_together(groups, Window::Month, today))
        }),
{
    report_names();
    entry_names();
}

/// The records of a page are those in its data, and as many are announced as it says.
pub proof fn pages_are_read(resp: JsonV, data: Map<Seq<char>, JsonV>, s: Seq<JsonV>, total: int)
    requires
        resp.get("code"@) == Some(JsonV::Int(0)) || resp.get("code"@) == Some(JsonV::Int(200)),
        resp.get("data"@) == Some(JsonV::Obj(data)),
        JsonV::Obj(data).get("data"@) == Some(JsonV::Arr(s)),
    ensures
        JsonV::Obj(data).get("total"@) == Some(JsonV::Int(total)) && 0 <= total <= 0xffff_ffff
            ==> official_usage::page_list(resp) == Ok::<(int, Seq<JsonV>), Seq<char>>((total, s)),
        JsonV::Obj(data).get("total"@) is None ==> official_usage::page_list(resp) == Ok::<
            (int, Seq<JsonV>),
            Seq<char>,
        >((s.len() as int, s)),
{
}

proof fn day_names()
    ensures
        "date"@ != "usage"@,
        "date"@ != "models"@,
        "usage"@ != "models"@,
{
    reveal_strlit("date");
    reveal_strlit("usage");
    reveal_strlit("models");
    assert("date"@.len() == 4);
    assert("usage"@.len() == 5);
    assert("models"@.len() == 6);
}

proof fn on_day_is(u: Seq<UsageV>, day: i32)
    ensures
        official_usage::on_day(u, day) == u.filter(|x: UsageV| x.day == day),
    decreases u.len(),
{
    reveal(Seq::filter);
    if u.len() > 0 {
        assert(u.subrange(0, u.len() - 1) =~= u.drop_last());
        on_day_is(u.subrange(0, u.len() - 1), day);
    }
}

proof fn amounts_on_are(u: Seq<UsageV>, day: i32)
    ensures
        statistics::amounts_on(u, day) == u.filter(|x: UsageV| x.day == day).map_values(|x: UsageV| x.amount),
    decreases u.len(),
{
    let keep = |x: UsageV| x.day == day;
    let of = |x: UsageV| x.amount;
    reveal(Seq::filter);
    if u.len() > 0 {
        let front = u.subrange(0, u.len() - 1);
        let last = u[u.len() - 1];
        assert(front =~= u.drop_last());
        amounts_on_are(front, day);
        if keep(last) {
            assert(front.filter(keep).push(last).map_values(of) =~= front.filter(keep).map_values(of).push(of(last)));
        }
    }
}

proof fn joined_is(groups: Seq<Seq<UsageV>>)
    ensures
        official_usage::joined(groups) == groups.flatten(),
    decreases groups.len(),
{
    if groups.len() > 0 {
        let n = groups.len() - 1;
        let front = groups.subrange(0, n);
        joined_is(front);
        assert(front =~= groups.drop_last());
        groups.lemma_flatten_and_flatten_alt_are_equivalent();
        front.lemma_flatten_and_flatten_alt_are_equivalent();
    } else {
        assert(groups.flatten() =~= Seq::<UsageV>::empty());
    }
}

/// The days of a report run from the first to the last without a gap; each is told with the
/// sum of what the accounts used on it, and with the models of that day.
pub proof fn days_of_the_report_are_told(groups: Seq<Seq<UsageV>>, first: i32, last: i32, i: int)
    requires
        first <= last,
        0 <= i <= last - first,
    ensures
        official_usage::days_between(groups, first, last).len() == last - first + 1,
        ({
            let d = official_usage::days_between(groups, first, last)[i];
            let day = (first + i) as i32;
            &&& d.get("date"@) == Some(JsonV::Str(clock::text_of_day(day)))
            &&& d.get("usage"@) == Some(
                JsonV::Calc(
                    Op::Sum,
                    groups.map_values(
                        |u: Seq<UsageV>|
                            JsonV::Calc(
                                Op::Sum,
                                u.filter(|x: UsageV| x.day == day).map_values(|x: UsageV| x.amount),
                            ),
                    ),
                ),
            )
            &&& d.get("models"@) == Some(
                JsonV::Arr(official_usage::model_list(groups.flatten().filter(|x: UsageV| x.day == day))),
            )
        }),
{
    day_names();
    let day = (first + i) as i32;
    joined_is(groups);
    on_day_is(groups.flatten(), day);
    let told = groups.map_values(
        |u: Seq<UsageV>|
            JsonV::Calc(Op::Sum, u.filter(|x: UsageV| x.day == day).map_values(|x: UsageV| x.amount)),
    );
    let sums = Seq::new(groups.len(), |k: int| numbers::sum(statistics::amounts_on(groups[k], day)));
    assert forall|k: int| 0 <= k < groups.len() implies #[trigger] told[k] == sums[k] by {
        amounts_on_are(groups[k], day);
    }
    assert(told =~= sums);
}

/// A time of a request that is a whole number is one of seconds below ten billion, else of
/// milliseconds; it is read under the first of its names.
pub proof fn request_times_are_read(row: JsonV, n: int)
    ensures
        0 <= n < 10_000_000_000 ==> official_usage::request_reading(Some(JsonV::Int(n))) == TimeReadingV::At(n * 1000),
        10_000_000_000 <= n <= 9_007_199_254_740_992 ==> official_usage::request_reading(Some(JsonV::Int(n)))
            == TimeReadingV::At(n),
        row.get("requestTime"@) is Some ==> official_usage::time_field(row) == row.get("requestTime"@),
        row.get("requestTime"@) is None ==> official_usage::time_field(row) == row.get("request_time"@),
{
}

/// Ordering a report orders its models, those of its days, and those of its accounts; nothing
/// else of it changes.
pub proof fn reports_are_ordered_throughout(v: JsonV, s: Seq<JsonV>, days: Seq<JsonV>, i: int, key: Seq<char>)
    requires
        v is Obj,
    ensures
        v.get("models"@) == Some(JsonV::Arr(s)) ==> official_usage::ordered_report(v).get("models"@) == Some(
            JsonV::Arr(official_usage::ordered(s)),
        ),
        v.get("daily"@) == Some(JsonV::Arr(days)) && 0 <= i < days.len() ==> (official_usage::ordered_report(v).get(
            "daily"@,
        ) matches Some(JsonV::Arr(l)) && l.len() == days.len() && l[i] == official_usage::with_order(days[i])),
        v.get("accounts"@) == Some(JsonV::Arr(days)) && 0 <= i < days.len() ==> (official_usage::ordered_report(v).get(
            "accounts"@,
        ) matches Some(JsonV::Arr(l)) && l.len() == days.len() && l[i] == official_usage::with_daily_order(
            official_usage::with_order(days[i]),
        )),
        key != "models"@ && key != "daily"@ && key != "accounts"@ ==> official_usage::ordered_report(v).get(key)
            == v.get(key),
{
    report_names();
}

proof fn requests_hold(accounts: Seq<JsonV>, o: Seq<OutcomeV>, n: int, i: int, k: int)
    requires
        0 <= i < n <= o.len(),
        o[i] is Read,
        0 <= k < official_usage::newest_requests(
            official_usage::id_at(accounts, i),
            account::display_name(accounts[i]),
            o[i]->Read_0.rows,
        ).len(),
    ensures
        official_usage::requests_of(accounts, o, n).contains(
            official_usage::newest_requests(
                official_usage::id_at(accounts, i),
                account::display_name(accounts[i]),
                o[i]->Read_0.rows,
            )[k],
        ),
    decreases n,
{
    let rest = official_usage::requests_of(accounts, o, n - 1);
    let all = official_usage::requests_of(accounts, o, n);
    let own = official_usage::newest_requests(
        official_usage::id_at(accounts, i),
        account::display_name(accounts[i]),
        o[i]->Read_0.rows,
    );
    if i < n - 1 {
        requests_hold(accounts, o, n - 1, i, k);
        let j = choose|j: int| 0 <= j < rest.len() && rest[j] == own[k];
        assert(all[j] == own[k]);
    } else {
        assert(all[rest.len() + k] == own[k]);
    }
}

/// A report tells the newest requests of every account that was read.
pub proof fn requests_of_every_account_are_told(accounts: Seq<JsonV>, o: Seq<OutcomeV>, i: int, k: int)
    requires
        accounts.len() == o.len(),
        0 <= i < o.len(),
        o[i] is Read,
        0 <= k < official_usage::newest_requests(
            official_usage::id_at(accounts, i),
            account::display_name(accounts[i]),
            o[i]->Read_0.rows,
        ).len(),
    ensures
        official_usage::requests_of(accounts, o, o.len() as int).contains(
            official_usage::newest_requests(
                official_usage::id_at(accounts, i),
                account::display_name(accounts[i]),
                o[i]->Read_0.rows,
            )[k],
        ),
{
    requests_hold(accounts, o, o.len() as int, i, k);
}

proof fn only_keeps(v: JsonV, keys: Seq<Seq<char>>, n: int, i: int)
    requires
        0 <= i < n <= keys.len(),
    ensures
        official_usage::only(v, keys, n) is Obj,
        official_usage::only(v, keys, n).get(keys[i]) == v.get(keys[i]) || v.get(keys[i]) is None,
    decreases n,
{
    only_is_object(v, keys, n - 1);
    if i < n - 1 {
        only_keeps(v, keys, n - 1, i);
    }
}

proof fn only_is_object(v: JsonV, keys: Seq<Seq<char>>, n: int)
    ensures
        official_usage::only(v, keys, n) is Obj,
    decreases n,
{
    if 0 < n <= keys.len() {
        only_is_object(v, keys, n - 1);
    }
}

/// What is kept of a report is what it says: its status, span and sums, and of every day,
/// model, account and request what is to be kept, in its place.
pub proof fn kept_reports_say_the_same(v: JsonV, status: Seq<char>, i: int, list: Seq<JsonV>, x: JsonV)
    requires
        v.get("status"@) == Some(JsonV::Str(status)),
        status == "complete"@ || status == "partial"@ || status == "unavailable"@,
    ensures
        official_usage::clean_report(v) matches Some(r) && {
            &&& v.get("accounts"@) == Some(JsonV::Arr(list)) && 0 <= i < list.len() ==> (r.get("accounts"@) matches Some(
                JsonV::Arr(l),
            ) && l.len() == list.len() && l[i] == official_usage::clean_account(list[i]))
            &&& v.get("daily"@) == Some(JsonV::Arr(list)) && 0 <= i < list.len() ==> (r.get("daily"@) matches Some(
                JsonV::Arr(l),
            ) && l.len() == list.len() && l[i] == official_usage::clean_day(list[i]))
            &&& v.get("requests"@) == Some(JsonV::Arr(list)) && 0 <= i < list.len() ==> (r.get("requests"@) matches Some(
                JsonV::Arr(l),
            ) && l.len() == list.len() && l[i] == official_usage::only_fields(list[i], official_usage::request_keys()))
            &&& v.get("models"@) == Some(JsonV::Arr(list)) && 0 <= i < list.len() ==> (r.get("models"@) matches Some(
                JsonV::Arr(l),
            ) && l.len() == list.len() && l[i] == official_usage::only_fields(list[i], official_usage::model_keys()))
            &&& v.get("summary"@) == Some(x) ==> r.get("summary"@) == Some(x)
            &&& v.get("rangeStart"@) == Some(x) ==> r.get("rangeStart"@) == Some(x)
            &&& v.get("rangeEnd"@) == Some(x) ==> r.get("rangeEnd"@) == Some(x)
            &&& v.get("collectedAt"@) == Some(x) ==> r.get("collectedAt"@) == Some(x)
            &&& v.get("errors"@) == Some(x) ==> r.get("errors"@) == Some(x)
            &&& r.get("status"@) == Some(JsonV::Str(status))
        },
{
    report_names();
    let keys = official_usage::report_keys();
    assert(keys.len() == 7);
    assert(keys[0] == "status"@ && keys[1] == "rangeStart"@ && keys[2] == "rangeEnd"@ && keys[3] == "summary"@);
    assert(keys[5] == "collectedAt"@ && keys[6] == "errors"@);
    only_keeps(v, keys, 7, 0);
    only_keeps(v, keys, 7, 1);
    only_keeps(v, keys, 7, 2);
    only_keeps(v, keys, 7, 3);
    only_keeps(v, keys, 7, 5);
    only_keeps(v, keys, 7, 6);
}

/// What is kept of an account, a day, a model or a request is what is said of it.
pub proof fn kept_entries_say_the_same(v: JsonV, x: JsonV, list: Seq<JsonV>, i: int)
    ensures
        v.get("accountId"@) == Some(x) ==> official_usage::only_fields(v, official_usage::request_keys()).get(
            "accountId"@,
        ) == Some(x),
        v.get("requestId"@) == Some(x) ==> official_usage::only_fields(v, official_usage::request_keys()).get(
            "requestId"@,
        ) == Some(x),
        v.get("credit"@) == Some(x) ==> official_usage::only_fields(v, official_usage::request_keys()).get("credit"@)
            == Some(x),
        v.get("model"@) == Some(x) ==> official_usage::only_fields(v, official_usage::model_keys()).get("model"@) == Some(
            x,
        ),
        v.get("requestCount"@) == Some(x) ==> official_usage::only_fields(v, official_usage::model_keys()).get(
            "requestCount"@,
        ) == Some(x),
        v.get("credit"@) == Some(x) ==> official_usage::only_fields(v, official_usage::model_keys()).get("credit"@)
            == Some(x),
        v.get("models"@) == Some(JsonV::Arr(list)) && 0 <= i < list.len() ==> (official_usage::clean_day(v).get(
            "models"@,
        ) matches Some(JsonV::Arr(l)) && l.len() == list.len() && l[i] == official_usage::only_fields(
            list[i],
            official_usage::model_keys(),
        )) && (official_usage::clean_account(v).get("models"@) matches Some(JsonV::Arr(l)) && l.len() == list.len() && l[i]
            == official_usage::only_fields(list[i], official_usage::model_keys())),
        v.get("daily"@) == Some(JsonV::Arr(list)) && 0 <= i < list.len() ==> (official_usage::clean_account(v).get(
            "daily"@,
        ) matches Some(JsonV::Arr(l)) && l.len() == list.len() && l[i] == official_usage::clean_day(list[i])),
        v.get("date"@) == Some(x) ==> official_usage::clean_day(v).get("date"@) == Some(x),
        v.get("usage"@) == Some(x) ==> official_usage::clean_day(v).get("usage"@) == Some(x),
{
    report_names();
    day_names();
    let r = official_usage::request_keys();
    assert(r.len() == 7 && r[0] == "accountId"@ && r[2] == "requestId"@ && r[3] == "credit"@);
    only_keeps(v, r, 7, 0);
    only_keeps(v, r, 7, 2);
    only_keeps(v, r, 7, 3);
    let m = official_usage::model_keys();
    assert(m.len() == 3 && m[0] == "model"@ && m[1] == "requestCount"@ && m[2] == "credit"@);
    only_keeps(v, m, 3, 0);
    only_keeps(v, m, 3, 1);
    only_keeps(v, m, 3, 2);
    let d = official_usage::day_keys();
    assert(d.len() == 2 && d[0] == "date"@ && d[1] == "usage"@);
    only_keeps(v, d, 2, 0);
    only_keeps(v, d, 2, 1);
    only_is_object(v, official_usage::account_keys(), official_usage::account_keys().len() as int);
}

} // verus!
