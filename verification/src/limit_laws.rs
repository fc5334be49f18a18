//! What is told of the limits that were hit.
use vstd::prelude::*;
use crate::account;
use crate::json;
use crate::json::JsonV;
use crate::limits;
use crate::limits::{EventV, ResolvedV};
use crate::log_scan;
use crate::log_scan::{HitV, LogFormat};
use crate::text;
use crate::variant;
use crate::variant::WbVariant;

verus! {

proof fn limit_names()
    ensures
        "model"@ != "resetAt"@,
        "model"@ != "firstSeenAt"@,
        "model"@ != "hitCount"@,
        "resetAt"@ != "firstSeenAt"@,
        "resetAt"@ != "hitCount"@,
        "firstSeenAt"@ != "hitCount"@,
{
    reveal_strlit("model");
    reveal_strlit("resetAt");
    reveal_strlit("firstSeenAt");
    reveal_strlit("hitCount");
    assert("model"@.len() == 5);
    assert("resetAt"@.len() == 7);
    assert("firstSeenAt"@.len() == 11);
    assert("hitCount"@.len() == 8);
}

proof fn payload_names()
    ensures
        "scannedAt"@ != "windowDays"@,
        "scannedAt"@ != "accounts"@,
        "windowDays"@ != "accounts"@,
{
    reveal_strlit("scannedAt");
    reveal_strlit("windowDays");
    reveal_strlit("accounts");
    assert("scannedAt"@.len() == 9);
    assert("windowDays"@.len() == 10);
    assert("accounts"@.len() == 8);
}

proof fn entry_names()
    ensures
        "accountId"@ != "limited"@,
{
    reveal_strlit("accountId");
    reveal_strlit("limited");
    assert("accountId"@.len() == 9);
    assert("limited"@.len() == 7);
}

/// One of the events has this reset time and was seen by then.
pub open spec fn seen_by(events: Seq<EventV>, reset_at: int, t: int) -> bool {
    exists|j: int| 0 <= j < events.len() && (#[trigger] events[j]).reset_at == reset_at && events[j].first_seen_at <= t
}

/// One of the events has this reset time and was first seen then.
pub open spec fn seen_at(events: Seq<EventV>, reset_at: int, t: int) -> bool {
    exists|j: int| 0 <= j < events.len() && (#[trigger] events[j]).reset_at == reset_at && events[j].first_seen_at == t
}

spec fn takes_in(events: Seq<EventV>, e: EventV, out: Seq<EventV>) -> bool {
    &&& forall|r: int, t: int| seen_by(events, r, t) ==> #[trigger] seen_by(out, r, t)
    &&& seen_by(out, e.reset_at, e.first_seen_at)
    &&& forall|r: int, t: int| #[trigger] seen_at(out, r, t) ==> seen_at(events, r, t) || (e.reset_at == r
        && e.first_seen_at == t)
}

proof fn adding_takes_in(events: Seq<EventV>, e: EventV, at: int)
    requires
        0 <= at <= events.len(),
    ensures
        takes_in(events, e, events.insert(at, e)),
{
    let out = events.insert(at, e);
    assert(out[at] == e);
    assert forall|r: int, t: int| seen_by(events, r, t) implies #[trigger] seen_by(out, r, t) by {
        let j = choose|j: int|
            0 <= j < events.len() && (#[trigger] events[j]).reset_at == r && events[j].first_seen_at <= t;
        if j < at {
            assert(out[j] == events[j]);
        } else {
            assert(out[j + 1] == events[j]);
        }
    }
    assert forall|r: int, t: int| #[trigger] seen_at(out, r, t) implies seen_at(events, r, t) || (e.reset_at == r
        && e.first_seen_at == t) by {
        let j = choose|j: int| 0 <= j < out.len() && (#[trigger] out[j]).reset_at == r && out[j].first_seen_at == t;
        if j < at {
            assert(events[j] == out[j]);
        } else if j > at {
            assert(events[j - 1] == out[j]);
        }
    }
}

proof fn merging_takes_in(events: Seq<EventV>, e: EventV, at: int)
    requires
        0 <= at < events.len(),
        events[at].reset_at == e.reset_at,
    ensures
        takes_in(events, e, events.update(at, limits::merged(events[at], e))),
{
    let m = limits::merged(events[at], e);
    let out = events.update(at, m);
    assert(out[at] == m);
    assert forall|r: int, t: int| seen_by(events, r, t) implies #[trigger] seen_by(out, r, t) by {
        let j = choose|j: int|
            0 <= j < events.len() && (#[trigger] events[j]).reset_at == r && events[j].first_seen_at <= t;
        if j != at {
            assert(out[j] == events[j]);
        }
    }
    assert forall|r: int, t: int| #[trigger] seen_at(out, r, t) implies seen_at(events, r, t) || (e.reset_at == r
        && e.first_seen_at == t) by {
        let j = choose|j: int| 0 <= j < out.len() && (#[trigger] out[j]).reset_at == r && out[j].first_seen_at == t;
        if j != at {
            assert(events[j] == out[j]);
        } else {
            assert(m.first_seen_at == events[at].first_seen_at || m.first_seen_at == e.first_seen_at);
        }
    }
}

proof fn pushing_is_inserting(events: Seq<EventV>, e: EventV)
    ensures
        events.push(e) == events.insert(events.len() as int, e),
{
    assert(events.push(e) =~= events.insert(events.len() as int, e));
}

proof fn grouping_takes_in(events: Seq<EventV>, e: EventV, i: int)
    requires
        0 <= i,
    ensures
        takes_in(events, e, limits::grouped(events, e, i)),
    decreases events.len() - i,
{
    if i >= events.len() {
        pushing_is_inserting(events, e);
        adding_takes_in(events, e, events.len() as int);
    } else if events[i].session_id == e.session_id && events[i].reset_at == e.reset_at {
        merging_takes_in(events, e, i);
    } else {
        grouping_takes_in(events, e, i + 1);
    }
}

proof fn placing_takes_in(events: Seq<EventV>, e: EventV, i: int)
    requires
        0 <= i,
    ensures
        takes_in(events, e, limits::placed(events, e, i)),
    decreases events.len() - i,
{
    if i >= events.len() {
        pushing_is_inserting(events, e);
        adding_takes_in(events, e, events.len() as int);
    } else if limits::event_less(e, events[i]) {
        adding_takes_in(events, e, i);
    } else {
        placing_takes_in(events, e, i + 1);
    }
}

proof fn joining_takes_in(done: Seq<EventV>, e: EventV)
    ensures
        takes_in(done, e, limits::joined(done, e)),
{
    if done.len() > 0 && limits::close(done[done.len() - 1], e) {
        merging_takes_in(done, e, done.len() - 1);
    } else {
        pushing_is_inserting(done, e);
        adding_takes_in(done, e, done.len() as int);
    }
}

proof fn groups_begin(events: Seq<EventV>, hits: Seq<HitV>, i: int)
    requires
        0 <= i,
    ensures
        forall|r: int, t: int|
            seen_by(events, r, t) ==> #[trigger] seen_by(limits::group_from(events, hits, i), r, t),
        forall|k: int|
            i <= k < hits.len() ==> seen_by(
                limits::group_from(events, hits, i),
                (#[trigger] hits[k]).reset_at,
                hits[k].occurred_at,
            ),
        forall|r: int, t: int| #[trigger]
            seen_at(limits::group_from(events, hits, i), r, t) ==> seen_at(events, r, t) || exists|k: int|
                i <= k < hits.len() && (#[trigger] hits[k]).reset_at == r && hits[k].occurred_at == t,
    decreases hits.len() - i,
{
    if i < hits.len() {
        let e = limits::event_of(hits[i]);
        let next = limits::grouped(events, e, 0);
        grouping_takes_in(events, e, 0);
        groups_begin(next, hits, i + 1);
        let all = limits::group_from(events, hits, i);
        assert(all == limits::group_from(next, hits, i + 1));
        assert forall|k: int| i <= k < hits.len() implies seen_by(
            all,
            (#[trigger] hits[k]).reset_at,
            hits[k].occurred_at,
        ) by {
            if k == i {
                assert(seen_by(next, e.reset_at, e.first_seen_at));
            }
        }
        assert forall|r: int, t: int| seen_by(events, r, t) implies #[trigger] seen_by(all, r, t) by {
            assert(seen_by(next, r, t));
        }
        assert forall|r: int, t: int| #[trigger] seen_at(all, r, t) implies seen_at(events, r, t) || exists|k: int|
            i <= k < hits.len() && (#[trigger] hits[k]).reset_at == r && hits[k].occurred_at == t by {
            if seen_at(next, r, t) && !seen_at(events, r, t) {
                assert(hits[i].reset_at == r && hits[i].occurred_at == t);
            }
        }
    }
}

proof fn order_begins(done: Seq<EventV>, events: Seq<EventV>, i: int)
    requires
        0 <= i,
    ensures
        forall|r: int, t: int|
            seen_by(done, r, t) ==> #[trigger] seen_by(limits::order_from(done, events, i), r, t),
        forall|k: int|
            i <= k < events.len() ==> seen_by(
                limits::order_from(done, events, i),
                (#[trigger] events[k]).reset_at,
                events[k].first_seen_at,
            ),
        forall|r: int, t: int| #[trigger]
            seen_at(limits::order_from(done, events, i), r, t) ==> seen_at(done, r, t) || seen_at(events, r, t),
    decreases events.len() - i,
{
    if i < events.len() {
        let e = events[i];
        let next = limits::placed(done, e, 0);
        placing_takes_in(done, e, 0);
        order_begins(next, events, i + 1);
        let all = limits::order_from(done, events, i);
        assert(all == limits::order_from(next, events, i + 1));
        assert forall|k: int| i <= k < events.len() implies seen_by(
            all,
            (#[trigger] events[k]).reset_at,
            events[k].first_seen_at,
        ) by {
            if k == i {
                assert(seen_by(next, e.reset_at, e.first_seen_at));
            }
        }
        assert forall|r: int, t: int| seen_by(done, r, t) implies #[trigger] seen_by(all, r, t) by {
            assert(seen_by(next, r, t));
        }
        assert forall|r: int, t: int| #[trigger] seen_at(all, r, t) implies seen_at(done, r, t) || seen_at(
            events,
            r,
            t,
        ) by {
            if seen_at(next, r, t) && !seen_at(done, r, t) {
                assert(events[i].reset_at == r && events[i].first_seen_at == t);
            }
        }
    }
}

proof fn join_begins(done: Seq<EventV>, events: Seq<EventV>, i: int)
    requires
        0 <= i,
    ensures
        forall|r: int, t: int|
            seen_by(done, r, t) ==> #[trigger] seen_by(limits::join_from(done, events, i), r, t),
        forall|k: int|
            i <= k < events.len() ==> seen_by(
                limits::join_from(done, events, i),
                (#[trigger] events[k]).reset_at,
                events[k].first_seen_at,
            ),
        forall|r: int, t: int| #[trigger]
            seen_at(limits::join_from(done, events, i), r, t) ==> seen_at(done, r, t) || seen_at(events, r, t),
    decreases events.len() - i,
{
    if i < events.len() {
        let e = events[i];
        let next = limits::joined(done, e);
        joining_takes_in(done, e);
        join_begins(next, events, i + 1);
        let all = limits::join_from(done, events, i);
        assert(all == limits::join_from(next, events, i + 1));
        assert forall|k: int| i <= k < events.len() implies seen_by(
            all,
            (#[trigger] events[k]).reset_at,
            events[k].first_seen_at,
        ) by {
            if k == i {
                assert(seen_by(next, e.reset_at, e.first_seen_at));
            }
        }
        assert forall|r: int, t: int| seen_by(done, r, t) implies #[trigger] seen_by(all, r, t) by {
            assert(seen_by(next, r, t));
        }
        assert forall|r: int, t: int| #[trigger] seen_at(all, r, t) implies seen_at(done, r, t) || seen_at(
            events,
            r,
            t,
        ) by {
            if seen_at(next, r, t) && !seen_at(done, r, t) {
                assert(events[i].reset_at == r && events[i].first_seen_at == t);
            }
        }
    }
}

/// Every hit lies in an event with its reset time that was first seen no later; and every
/// event was first seen with a hit that has its reset time.
pub proof fn events_begin_with_their_first_hit(hits: Seq<HitV>, k: int, j: int)
    ensures
        0 <= k < hits.len() ==> seen_by(limits::deduped(hits), hits[k].reset_at, hits[k].occurred_at),
        0 <= j < limits::deduped(hits).len() ==> exists|h: int|
            0 <= h < hits.len() && (#[trigger] hits[h]).reset_at == limits::deduped(hits)[j].reset_at
                && hits[h].occurred_at == limits::deduped(hits)[j].first_seen_at,
{
    let none = Seq::<EventV>::empty();
    let groups = limits::group_from(none, hits, 0);
    let row = limits::order_from(none, groups, 0);
    let events = limits::deduped(hits);
    groups_begin(none, hits, 0);
    order_begins(none, groups, 0);
    join_begins(none, row, 0);
    if 0 <= k < hits.len() {
        let r = hits[k].reset_at;
        let t = hits[k].occurred_at;
        assert(seen_by(groups, r, t));
        let a = choose|a: int| 0 <= a < groups.len() && (#[trigger] groups[a]).reset_at == r && groups[a].first_seen_at <= t;
        assert(seen_by(row, r, groups[a].first_seen_at));
        let c = choose|c: int|
            0 <= c < row.len() && (#[trigger] row[c]).reset_at == r && row[c].first_seen_at <= groups[a].first_seen_at;
        assert(seen_by(events, r, row[c].first_seen_at));
        let d = choose|d: int|
            0 <= d < events.len() && (#[trigger] events[d]).reset_at == r && events[d].first_seen_at
                <= row[c].first_seen_at;
        assert(events[d].first_seen_at <= t);
    }
    if 0 <= j < events.len() {
        let r = events[j].reset_at;
        let t = events[j].first_seen_at;
        assert(seen_at(events, r, t));
        assert(!seen_at(none, r, t));
        assert(seen_at(row, r, t));
        assert(seen_at(groups, r, t));
    }
}

/// Two events that follow each other with one reset time lie more than fifteen seconds
/// apart.
pub proof fn events_lie_fifteen_seconds_apart(hits: Seq<HitV>, i: int)
    requires
        0 <= i < limits::deduped(hits).len() - 1,
        limits::deduped(hits)[i].reset_at == limits::deduped(hits)[i + 1].reset_at,
    ensures
        limits::deduped(hits)[i + 1].first_seen_at - limits::deduped(hits)[i].first_seen_at > 15_000,
{
    limits::dedupe_separates(hits);
    assert(!limits::close(limits::deduped(hits)[i], limits::deduped(hits)[i + 1]));
}

/// Hits of one session with one reset time make one event: its count is their number, it
/// was seen when the first was, and a later one tells only what the earlier ones did not.
pub proof fn hits_of_one_session_are_one_event(a: HitV, b: HitV)
    requires
        a.session_id == b.session_id,
        a.reset_at == b.reset_at,
    ensures
        limits::deduped(seq![a, b]) matches s && s.len() == 1 && s[0].reset_at == a.reset_at && s[0].session_id
            == a.session_id && s[0].hit_count == 2 && s[0].first_seen_at == (if a.occurred_at <= b.occurred_at {
            a.occurred_at
        } else {
            b.occurred_at
        }) && (a.model is Some ==> s[0].model == a.model) && (a.model is None ==> s[0].model == b.model) && (
        a.uid is Some ==> s[0].uid == a.uid) && (a.uid is None ==> s[0].uid == b.uid),
{
    reveal_with_fuel(limits::group_from, 3);
    reveal_with_fuel(limits::grouped, 3);
    reveal_with_fuel(limits::order_from, 3);
    reveal_with_fuel(limits::placed, 3);
    reveal_with_fuel(limits::join_from, 3);
    let hits = seq![a, b];
    let none = Seq::<EventV>::empty();
    let one = none.push(limits::event_of(a));
    let m = limits::merged(limits::event_of(a), limits::event_of(b));
    assert(limits::grouped(none, limits::event_of(a), 0) =~= one);
    assert(limits::grouped(one, limits::event_of(b), 0) =~= none.push(m));
    assert(limits::group_from(none, hits, 0) == none.push(m));
    assert(limits::order_from(none, none.push(m), 0) =~= none.push(m));
    assert(limits::join_from(none, none.push(m), 0) =~= none.push(m));
}

/// Events are given to the accounts that they can be told to belong to, in their order;
/// the others are passed.
pub proof fn events_are_given_to_accounts(events: Seq<EventV>, account: spec_fn(EventV) -> Option<Seq<char>>)
    ensures
        limits::attributed(events, account) == events.filter(|e: EventV| account(e) is Some).map_values(
            |e: EventV|
                ResolvedV {
                    account_id: account(e)->0,
                    model: e.model,
                    reset_at: e.reset_at,
                    first_seen_at: e.first_seen_at,
                    hit_count: e.hit_count,
                },
        ),
    decreases events.len(),
{
    let keep = |e: EventV| account(e) is Some;
    let of = |e: EventV|
        ResolvedV {
            account_id: account(e)->0,
            model: e.model,
            reset_at: e.reset_at,
            first_seen_at: e.first_seen_at,
            hit_count: e.hit_count,
        };
    reveal(Seq::filter);
    if events.len() > 0 {
        let front = events.subrange(0, events.len() - 1);
        let last = events[events.len() - 1];
        assert(front =~= events.drop_last());
        events_are_given_to_accounts(front, account);
        if keep(last) {
            assert(front.filter(keep).push(last).map_values(of) =~= front.filter(keep).map_values(of).push(of(last)));
        }
    }
}

/// An event belongs to the account of its user; without one that is known, to the account
/// that was active, where that was set no later than the event was first seen.
pub proof fn events_belong_to_their_user(uids: Map<Seq<char>, Seq<char>>, state: JsonV, e: EventV, u: Seq<char>, id: Seq<char>, t: int)
    ensures
        e.uid == Some(u) && uids.contains_key(u) ==> limits::account_by_uid_or_state(uids, state)(e) == Some(uids[u]),
        (e.uid is None || !uids.contains_key(e.uid->0)) && state.get("activeAccountId"@) == Some(JsonV::Str(id))
            && text::trim(id) == id && id.len() > 0 && state.get("updatedAt"@) == Some(JsonV::Int(t)) && i64::MIN <= t
            <= i64::MAX ==> limits::account_by_uid_or_state(uids, state)(e) == (if t <= e.first_seen_at {
            Some(id)
        } else {
            None
        }),
        (e.uid is None || !uids.contains_key(e.uid->0)) && state.get("activeAccountId"@) is None
            ==> limits::account_by_uid_or_state(uids, state)(e) is None,
{
}

/// An event of WorkBuddy belongs to the account of its session.
pub proof fn events_belong_to_their_session(sessions: Map<Seq<char>, Seq<char>>, e: EventV, s: Seq<char>)
    ensures
        e.session_id == Some(s) ==> limits::account_by_event_session(sessions)(e) == (if sessions.contains_key(s) {
            Some(sessions[s])
        } else {
            None
        }),
        e.session_id is None ==> limits::account_by_event_session(sessions)(e) is None,
{
}

proof fn uids_keep(m: Map<Seq<char>, Seq<char>>, accounts: Seq<JsonV>, from: int, only: Option<WbVariant>, u: Seq<char>)
    requires
        0 <= from,
        forall|j: int|
            from <= j < accounts.len() ==> account::str_of(#[trigger] accounts[j], "uid"@) != Some(u),
    ensures
        limits::uids_from(m, accounts, from, only).contains_key(u) == m.contains_key(u),
        m.contains_key(u) ==> limits::uids_from(m, accounts, from, only)[u] == m[u],
    decreases accounts.len() - from,
{
    if from < accounts.len() {
        if only is Some && variant::variant_in(accounts[from]) != only->0 {
            uids_keep(m, accounts, from + 1, only, u);
        } else {
            uids_keep(
                log_scan::note(
                    m,
                    account::str_of(accounts[from], "uid"@),
                    account::str_of(accounts[from], "id"@),
                ),
                accounts,
                from + 1,
                only,
                u,
            );
        }
    }
}

proof fn uid_leads(m: Map<Seq<char>, Seq<char>>, accounts: Seq<JsonV>, from: int, only: Option<WbVariant>, k: int, u: Seq<char>, id: Seq<char>)
    requires
        0 <= from <= k < accounts.len(),
        account::str_of(accounts[k], "uid"@) == Some(u),
        account::str_of(accounts[k], "id"@) == Some(id),
        only is Some ==> variant::variant_in(accounts[k]) == only->0,
        forall|j: int| k < j < accounts.len() ==> account::str_of(#[trigger] accounts[j], "uid"@) != Some(u),
    ensures
        limits::uids_from(m, accounts, from, only).contains_key(u),
        limits::uids_from(m, accounts, from, only)[u] == id,
    decreases k - from,
{
    let next = log_scan::note(
        m,
        account::str_of(accounts[from], "uid"@),
        account::str_of(accounts[from], "id"@),
    );
    if from < k {
        if only is Some && variant::variant_in(accounts[from]) != only->0 {
            uid_leads(m, accounts, from + 1, only, k, u, id);
        } else {
            uid_leads(next, accounts, from + 1, only, k, u, id);
        }
    } else {
        uids_keep(next, accounts, from + 1, only, u);
    }
}

/// A uid leads to the id of the last account that has it; where only one edition is asked
/// for, accounts of the other lead nowhere.
pub proof fn uids_lead_to_ids(accounts: Seq<JsonV>, only: Option<WbVariant>, k: int, u: Seq<char>, id: Seq<char>)
    requires
        0 <= k < accounts.len(),
        accounts[k].get("uid"@) == Some(JsonV::Str(u)),
        text::trim(u) == u && u.len() > 0,
        accounts[k].get("id"@) == Some(JsonV::Str(id)),
        text::trim(id) == id && id.len() > 0,
        only is Some ==> variant::variant_in(accounts[k]) == only->0,
        forall|j: int| k < j < accounts.len() ==> account::str_of(#[trigger] accounts[j], "uid"@) != Some(u),
    ensures
        limits::uids_from(Map::empty(), accounts, 0, only).contains_key(u),
        limits::uids_from(Map::empty(), accounts, 0, only)[u] == id,
{
    uid_leads(Map::empty(), accounts, 0, only, k, u, id);
}

/// What is told of a limit: its model, when it resets, when it was first seen and how often
/// it was hit.
pub proof fn limits_are_told(r: ResolvedV)
    ensures
        ({
            let e = limits::limit_row(r);
            &&& r.model matches Some(m) ==> e.get("model"@) == Some(JsonV::Str(m))
            &&& r.model is None ==> e.get("model"@) == Some(JsonV::Null)
            &&& e.get("resetAt"@) == Some(JsonV::Int(r.reset_at))
            &&& e.get("firstSeenAt"@) == Some(JsonV::Int(r.first_seen_at))
            &&& e.get("hitCount"@) == Some(JsonV::Int(r.hit_count))
        }),
{
    limit_names();
}

proof fn row_less_goes_on(a: ResolvedV, b: ResolvedV, c: ResolvedV)
    requires
        limits::row_less(a, b),
        limits::row_less(b, c),
    ensures
        limits::row_less(a, c),
{
    if text::less(a.account_id, b.account_id) && text::less(b.account_id, c.account_id) {
        text::less_trans(a.account_id, b.account_id, c.account_id);
    }
    if a.model is Some && b.model is Some && c.model is Some {
        if text::less(a.model->0, b.model->0) && text::less(b.model->0, c.model->0) {
            text::less_trans(a.model->0, b.model->0, c.model->0);
        }
    }
}

spec fn in_order(rows: Seq<ResolvedV>) -> bool {
    forall|i: int, j: int| 0 <= i < j < rows.len() ==> !limits::row_less(#[trigger] rows[j], #[trigger] rows[i])
}

proof fn placing_keeps_order(rows: Seq<ResolvedV>, r: ResolvedV, i: int)
    requires
        0 <= i <= rows.len(),
        in_order(rows),
        forall|k: int| 0 <= k < i ==> !limits::row_less(r, #[trigger] rows[k]),
    ensures
        in_order(limits::row_placed(rows, r, i)),
    decreases rows.len() - i,
{
    if i < rows.len() {
        if limits::row_less(r, rows[i]) {
            let out = rows.insert(i, r);
            assert forall|a: int, b: int| 0 <= a < b < out.len() implies !limits::row_less(
                #[trigger] out[b],
                #[trigger] out[a],
            ) by {
                if a == i {
                    assert(out[b] == rows[b - 1]);
                    if limits::row_less(rows[b - 1], r) {
                        row_less_goes_on(rows[b - 1], r, rows[i]);
                        if b - 1 == i {
                            less_is_strict(rows[i]);
                        }
                    }
                } else if b == i {
                    assert(out[a] == rows[a]);
                } else {
                    let x = if a < i {
                        a
                    } else {
                        a - 1
                    };
                    let y = if b < i {
                        b
                    } else {
                        b - 1
                    };
                    assert(out[a] == rows[x] && out[b] == rows[y]);
                }
            }
        } else {
            placing_keeps_order(rows, r, i + 1);
        }
    }
}

proof fn text_is_not_less(s: Seq<char>)
    ensures
        !text::less(s, s),
    decreases s.len(),
{
    if s.len() > 0 {
        text_is_not_less(s.subrange(1, s.len() as int));
    }
}

proof fn less_is_strict(r: ResolvedV)
    ensures
        !limits::row_less(r, r),
{
    text_is_not_less(r.account_id);
    if r.model is Some {
        text_is_not_less(r.model->0);
    }
}

proof fn ordering_orders(done: Seq<ResolvedV>, rows: Seq<ResolvedV>, i: int)
    requires
        in_order(done),
    ensures
        in_order(limits::rows_from(done, rows, i)),
    decreases rows.len() - i,
{
    if 0 <= i < rows.len() {
        placing_keeps_order(done, rows[i], 0);
        ordering_orders(limits::row_placed(done, rows[i], 0), rows, i + 1);
    }
}

/// The limits are told by account, and within one account that which resets first comes
/// first.
pub proof fn limits_are_told_in_order(rows: Seq<ResolvedV>, i: int, j: int)
    requires
        0 <= i < j < limits::rows_from(Seq::empty(), rows, 0).len(),
    ensures
        ({
            let all = limits::rows_from(Seq::empty(), rows, 0);
            &&& !text::less(all[j].account_id, all[i].account_id)
            &&& all[i].account_id == all[j].account_id ==> all[i].reset_at <= all[j].reset_at
        }),
{
    ordering_orders(Seq::empty(), rows, 0);
    let all = limits::rows_from(Seq::empty(), rows, 0);
    assert(!limits::row_less(all[j], all[i]));
}

proof fn placing_adds(rows: Seq<ResolvedV>, r: ResolvedV, i: int)
    requires
        0 <= i,
    ensures
        limits::row_placed(rows, r, i).to_multiset() == rows.to_multiset().insert(r),
    decreases rows.len() - i,
{
    broadcast use vstd::seq_lib::group_to_multiset_ensures;

    if i < rows.len() {
        if limits::row_less(r, rows[i]) {
            vstd::seq_lib::to_multiset_insert(rows, i, r);
        } else {
            placing_adds(rows, r, i + 1);
        }
    }
}

proof fn ordering_holds(done: Seq<ResolvedV>, rows: Seq<ResolvedV>, i: int)
    requires
        0 <= i <= rows.len(),
    ensures
        limits::rows_from(done, rows, i).to_multiset() == done.to_multiset().add(rows.skip(i).to_multiset()),
    decreases rows.len() - i,
{
    broadcast use vstd::seq_lib::group_to_multiset_ensures;

    if i < rows.len() {
        let next = limits::row_placed(done, rows[i], 0);
        placing_adds(done, rows[i], 0);
        ordering_holds(next, rows, i + 1);
        let rest = rows.skip(i + 1);
        assert(rows.skip(i) =~= seq![rows[i]] + rest);
        vstd::seq_lib::lemma_multiset_commutative(seq![rows[i]], rest);
        assert(seq![rows[i]] =~= Seq::<ResolvedV>::empty().push(rows[i]));
        assert(next.to_multiset().add(rest.to_multiset()) =~= done.to_multiset().add(rows.skip(i).to_multiset()));
    } else {
        assert(rows.skip(i) =~= Seq::<ResolvedV>::empty());
        assert(done.to_multiset().add(Seq::<ResolvedV>::empty().to_multiset()) =~= done.to_multiset());
    }
}

proof fn accounts_keep(done: Seq<(Seq<char>, Seq<JsonV>)>, rows: Seq<ResolvedV>, i: int, id: Seq<char>, x: JsonV)
    requires
        0 <= i <= rows.len(),
        exists|a: int| 0 <= a < done.len() && (#[trigger] done[a]).0 == id && done[a].1.contains(x),
    ensures
        exists|a: int|
            0 <= a < limits::accounts_from(done, rows, i).len() && (#[trigger] limits::accounts_from(done, rows, i)[a]).0
                == id && limits::accounts_from(done, rows, i)[a].1.contains(x),
    decreases rows.len() - i,
{
    if i < rows.len() {
        let next = limits::account_added(done, rows[i]);
        let a = choose|a: int| 0 <= a < done.len() && (#[trigger] done[a]).0 == id && done[a].1.contains(x);
        let n = done.len() - 1;
        let y = limits::limit_row(rows[i]);
        assert(next[a].0 == id);
        if done[n].0 == rows[i].account_id && a == n {
            vstd::seq_lib::lemma_seq_contains_after_push(done[n].1, y, x);
        }
        assert(next[a].1.contains(x));
        assert(limits::accounts_from(done, rows, i) == limits::accounts_from(next, rows, i + 1));
        accounts_keep(next, rows, i + 1, id, x);
    } else {
        assert(limits::accounts_from(done, rows, i) == done);
    }
}

proof fn accounts_hold(done: Seq<(Seq<char>, Seq<JsonV>)>, rows: Seq<ResolvedV>, i: int, k: int)
    requires
        0 <= i <= k < rows.len(),
    ensures
        exists|a: int|
            0 <= a < limits::accounts_from(done, rows, i).len() && (#[trigger] limits::accounts_from(done, rows, i)[a]).0
                == rows[k].account_id && limits::accounts_from(done, rows, i)[a].1.contains(limits::limit_row(rows[k])),
    decreases k - i,
{
    let next = limits::account_added(done, rows[i]);
    assert(limits::accounts_from(done, rows, i) == limits::accounts_from(next, rows, i + 1));
    if i < k {
        accounts_hold(next, rows, i + 1, k);
    } else {
        let y = limits::limit_row(rows[i]);
        let n = done.len() - 1;
        if done.len() > 0 && done[n].0 == rows[i].account_id {
            assert(next[n].0 == rows[k].account_id);
            assert(next[n].1[done[n].1.len() as int] == y);
        } else {
            assert(next[done.len() as int].0 == rows[k].account_id);
            assert(next[done.len() as int].1[0] == y);
        }
        accounts_keep(next, rows, i + 1, rows[k].account_id, y);
    }
}

/// Every limit in force is told under its account.
pub proof fn limits_in_force_are_told(rows: Seq<ResolvedV>, scanned_at: int, k: int) -> (a: int)
    requires
        0 <= k < limits::in_force(rows, scanned_at).len(),
    ensures
        limits::payload(rows, scanned_at).get("scannedAt"@) == Some(JsonV::Int(scanned_at)),
        limits::payload(rows, scanned_at).get("windowDays"@) == Some(JsonV::Int(2)),
        limits::payload(rows, scanned_at).get("accounts"@) matches Some(JsonV::Arr(l)) && 0 <= a < l.len() && l[a].get(
            "accountId"@,
        ) == Some(JsonV::Str(limits::in_force(rows, scanned_at)[k].account_id)) && (l[a].get("limited"@) matches Some(
            JsonV::Arr(list),
        ) && list.contains(limits::limit_row(limits::in_force(rows, scanned_at)[k]))),
{
    broadcast use vstd::seq_lib::group_to_multiset_ensures;

    let force = limits::in_force(rows, scanned_at);
    let none = Seq::<ResolvedV>::empty();
    let row = limits::rows_from(none, force, 0);
    ordering_holds(none, force, 0);
    assert(force.skip(0) =~= force);
    assert(force.contains(force[k]));
    assert(force.to_multiset().count(force[k]) > 0);
    assert(row.to_multiset().count(force[k]) > 0);
    assert(row.contains(force[k]));
    let i = choose|i: int| 0 <= i < row.len() && row[i] == force[k];
    let done = Seq::<(Seq<char>, Seq<JsonV>)>::empty();
    accounts_hold(done, row, 0, i);
    let all = limits::accounts_from(done, row, 0);
    let a = choose|a: int|
        0 <= a < all.len() && (#[trigger] all[a]).0 == row[i].account_id && all[a].1.contains(limits::limit_row(row[i]));
    payload_names();
    entry_names();
    a
}

/// A scan answers for five minutes, where it covered what is asked for.
pub proof fn scans_answer_for_five_minutes(c: limits::ScanCache, requested: limits::ScanScope, now: int)
    ensures
        c.answers(requested, now) == (now - c.at < 300_000 && forall|q: limits::ScanSource|
            requested.has(q) ==> c.scope.has(q)),
{
}

proof fn sessions_keep(
    m: Map<Seq<char>, Seq<char>>,
    rows: Seq<(Option<String>, Option<String>)>,
    uids: Map<Seq<char>, Seq<char>>,
    from: int,
    s: Seq<char>,
)
    requires
        0 <= from,
        forall|j: int| from <= j < rows.len() ==> json::opt_string((#[trigger] rows[j]).0) != Some(s),
    ensures
        limits::sessions_from(m, rows, uids, from).contains_key(s) == m.contains_key(s),
        m.contains_key(s) ==> limits::sessions_from(m, rows, uids, from)[s] == m[s],
    decreases rows.len() - from,
{
    if from < rows.len() {
        let next = log_scan::note(
            m,
            json::opt_string(rows[from].0),
            log_scan::look(uids, json::opt_string(rows[from].1)),
        );
        assert(json::opt_string(rows[from].0) != Some(s));
        sessions_keep(next, rows, uids, from + 1, s);
    }
}

proof fn session_leads(
    m: Map<Seq<char>, Seq<char>>,
    rows: Seq<(Option<String>, Option<String>)>,
    uids: Map<Seq<char>, Seq<char>>,
    from: int,
    k: int,
    s: Seq<char>,
    u: Seq<char>,
)
    requires
        0 <= from <= k < rows.len(),
        json::opt_string(rows[k].0) == Some(s),
        json::opt_string(rows[k].1) == Some(u),
        uids.contains_key(u),
        forall|j: int| k < j < rows.len() ==> json::opt_string((#[trigger] rows[j]).0) != Some(s),
    ensures
        limits::sessions_from(m, rows, uids, from).contains_key(s),
        limits::sessions_from(m, rows, uids, from)[s] == uids[u],
    decreases k - from,
{
    let next = log_scan::note(
        m,
        json::opt_string(rows[from].0),
        log_scan::look(uids, json::opt_string(rows[from].1)),
    );
    if from < k {
        session_leads(next, rows, uids, from + 1, k, s, u);
    } else {
        sessions_keep(next, rows, uids, from + 1, s);
    }
}

/// A session leads to the account of its user, as the last row that names it says.
pub proof fn sessions_lead_to_accounts(
    rows: Seq<(Option<String>, Option<String>)>,
    uids: Map<Seq<char>, Seq<char>>,
    k: int,
    s: Seq<char>,
    u: Seq<char>,
)
    requires
        0 <= k < rows.len(),
        json::opt_string(rows[k].0) == Some(s),
        json::opt_string(rows[k].1) == Some(u),
        uids.contains_key(u),
        forall|j: int| k < j < rows.len() ==> json::opt_string((#[trigger] rows[j]).0) != Some(s),
    ensures
        limits::sessions_from(Map::empty(), rows, uids, 0).contains_key(s),
        limits::sessions_from(Map::empty(), rows, uids, 0)[s] == uids[u],
{
    session_leads(Map::empty(), rows, uids, 0, k, s, u);
}

proof fn reading_is(entries: Seq<limits::LogEntry>, format: LogFormat, cutoff: i64, n: int, i: int)
    requires
        0 <= n <= entries.len(),
        entries.len() <= usize::MAX,
        0 <= i < entries.len(),
    ensures
        limits::reading(entries, format, cutoff, n).contains(i as usize) == (i < n && limits::to_read(
            entries[i],
            format,
            cutoff,
        )),
    decreases n,
{
    if n > 0 {
        reading_is(entries, format, cutoff, n - 1, i);
        let rest = limits::reading(entries, format, cutoff, n - 1);
        vstd::seq_lib::lemma_seq_contains_after_push(rest, (n - 1) as usize, i as usize);
    } else {
        assert(!limits::reading(entries, format, cutoff, 0).contains(i as usize));
    }
}

/// A log is read only where it was changed since the window began.
pub proof fn old_logs_are_not_read(entries: Seq<limits::LogEntry>, format: LogFormat, cutoff: i64, i: int)
    requires
        0 <= i < entries.len(),
        entries.len() <= usize::MAX,
        limits::reading(entries, format, cutoff, entries.len() as int).contains(i as usize),
    ensures
        entries[i].modified matches Some(t) && t >= cutoff,
{
    reading_is(entries, format, cutoff, entries.len() as int, i);
}

/// An editor's log that lies in the directory of the extension's host is read where it was
/// changed since the window began.
pub proof fn new_editor_logs_are_read(entries: Seq<limits::LogEntry>, cutoff: i64, i: int, t: i64)
    requires
        0 <= i < entries.len(),
        entries.len() <= usize::MAX,
        entries[i].parts@.len() == 5,
        entries[i].parts@[2]@ == "exthost"@,
        entries[i].parts@[3]@ == "Tencent-Cloud.coding-copilot"@,
        entries[i].modified == Some(t),
        t >= cutoff,
    ensures
        limits::reading(entries, LogFormat::Ide, cutoff, entries.len() as int).contains(i as usize),
{
    reading_is(entries, LogFormat::Ide, cutoff, entries.len() as int, i);
}

} // verus!
