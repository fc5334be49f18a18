//! What the check-in schedule and its log promise.
use vstd::prelude::*;
use crate::account;
use crate::checkin;
use crate::checkin::{AskStep, CycleStartV, DecisionV, Targets};
use crate::clock;
use crate::config;
use crate::json::JsonV;
use crate::text;
use crate::variant;
use crate::variant::WbVariant;

verus! {

proof fn nearest_is_nearest(now: i64, targets: Seq<Targets>, n: int)
    requires
        0 <= n <= targets.len(),
    ensures
        match checkin::nearest(now as int, targets, n) {
            Some(t) => (exists|i: int| 0 <= i < n && checkin::upcoming(now as int, #[trigger] targets[i]) == Some(t)) && (
            forall|i: int|
                0 <= i < n ==> (checkin::upcoming(now as int, #[trigger] targets[i]) matches Some(x) ==> t <= x)),
            None => forall|i: int| 0 <= i < n ==> checkin::upcoming(now as int, #[trigger] targets[i]) is None,
        },
    decreases n,
{
    if n > 0 {
        nearest_is_nearest(now, targets, n - 1);
        let rest = checkin::nearest(now as int, targets, n - 1);
        if rest is Some {
            let k = choose|i: int|
                0 <= i < n - 1 && checkin::upcoming(now as int, #[trigger] targets[i]) == Some(rest->0);
            assert(0 <= k < n);
        }
        assert(checkin::upcoming(now as int, targets[n - 1]) == checkin::upcoming(now as int, targets[n - 1]));
    }
}

/// The moment of an account that lies ahead: today's where it is still to come, else
/// tomorrow's.
pub open spec fn ahead(now: i64, t: Targets) -> Option<int> {
    match t.today {
        Some(x) => if x > now {
            Some(x as int)
        } else {
            match t.after {
                Some(y) => Some(y as int),
                None => None,
            }
        },
        None => None,
    }
}

/// With a window and no quick try the next round waits for the nearest of all moments
/// that lie ahead: no longer than until the moment of any account, but a minute at
/// least; and just until that of one of them, unless that is over half an hour away.
pub proof fn rounds_wait_for_the_nearest_moment(
    had_errors: bool,
    budget: int,
    now: i64,
    targets: Seq<Targets>,
)
    requires
        !(had_errors && budget > 0),
        forall|i: int|
            0 <= i < targets.len() ==> (ahead(now, #[trigger] targets[i]) matches Some(t) ==> i64::MIN <= t - now <= i64::MAX),
    ensures
        ({
            let (delay, left) = checkin::next_delay(had_errors, budget, now as int, targets, true);
            &&& left == budget
            &&& forall|i: int|
                0 <= i < targets.len() ==> (ahead(now, #[trigger] targets[i]) matches Some(t) ==> delay <= t - now || delay
                    == 60_000)
            &&& (exists|i: int| 0 <= i < targets.len() && ahead(now, #[trigger] targets[i]) is Some) ==> exists|i: int|
                0 <= i < targets.len() && (ahead(now, #[trigger] targets[i]) matches Some(t) && delay == (if t - now
                    < 60_000 {
                    60_000
                } else if t - now > 1_800_000 {
                    1_800_000
                } else {
                    t - now
                }))
            &&& (forall|i: int| 0 <= i < targets.len() ==> ahead(now, #[trigger] targets[i]) is None) ==> delay == 1_800_000
        }),
{
    nearest_is_nearest(now, targets, targets.len() as int);
    assert forall|i: int| 0 <= i < targets.len() implies ahead(now, #[trigger] targets[i]) == checkin::upcoming(
        now as int,
        targets[i],
    ) by {}
    if checkin::nearest(now as int, targets, targets.len() as int) is Some {
        let t = checkin::nearest(now as int, targets, targets.len() as int)->0;
        let k = choose|i: int|
            0 <= i < targets.len() && checkin::upcoming(now as int, #[trigger] targets[i]) == Some(t);
        assert(ahead(now, targets[k]) == Some(t));
    }
}

/// After a round with errors the next one is tried in five minutes, as often as quick
/// tries are left; without a window every round waits half an hour.
pub proof fn errors_are_tried_again_quickly(had_errors: bool, budget: int, now: int, targets: Seq<Targets>)
    ensures
        had_errors && budget > 0 ==> checkin::next_delay(had_errors, budget, now, targets, true) == (
        300_000int,
        budget - 1,
        ),
        checkin::next_delay(had_errors, budget, now, targets, false) == (1_800_000int, budget),
{
}

/// An account is due where no successful check-in of it is in the log since its last
/// moment: today's where that has come, yesterday's where it has not. One whose moment
/// is not known is always due.
pub proof fn due_until_checked_in(now: int, acc: JsonV, t: Targets, logs: Seq<JsonV>, id: Seq<char>)
    requires
        acc.get("id"@) == Some(JsonV::Str(id)),
        id.len() > 0,
    ensures
        t.today is None ==> checkin::due(now, acc, t, logs),
        t.today matches Some(x) ==> (now < x && t.before is None ==> checkin::due(now, acc, t, logs)),
        t.today matches Some(x) ==> (t.before matches Some(y) ==> {
            let since = if now >= x {
                x as int
            } else {
                y as int
            };
            checkin::due(now, acc, t, logs) == !(exists|i: int|
                0 <= i < logs.len() && {
                    &&& (#[trigger] logs[i]).get("accountId"@) == Some(JsonV::Str(id))
                    &&& logs[i].get("result"@) == Some(JsonV::Str("success"@)) || logs[i].get("result"@) == Some(
                        JsonV::Str("already"@),
                    )
                    &&& logs[i].get("ts"@) matches Some(JsonV::Int(at)) && since <= at <= i64::MAX
                })
        }),
{
    if t.today is Some && t.before is Some {
        let since = if now >= t.today->0 {
            t.today->0 as int
        } else {
            t.before->0 as int
        };
        assert(since >= i64::MIN);
        assert forall|i: int| 0 <= i < logs.len() implies checkin::answers(#[trigger] logs[i], acc, since) == ({
            &&& logs[i].get("accountId"@) == Some(JsonV::Str(id))
            &&& logs[i].get("result"@) == Some(JsonV::Str("success"@)) || logs[i].get("result"@) == Some(
                JsonV::Str("already"@),
            )
            &&& logs[i].get("ts"@) matches Some(JsonV::Int(at)) && since <= at <= i64::MAX
        }) by {}
        if checkin::answered(logs, acc, since) {
            let k = choose|i: int| 0 <= i < logs.len() && checkin::answers(#[trigger] logs[i], acc, since);
            assert(logs[k].get("accountId"@) == Some(JsonV::Str(id)));
        }
    }
}

proof fn due_in_holds(accounts: Seq<JsonV>, now: int, targets: Seq<Targets>, logs: Seq<JsonV>, n: int, i: int)
    requires
        0 <= i < n <= accounts.len(),
        checkin::due(now, accounts[i], checkin::targets_at(targets, i), logs),
    ensures
        checkin::due_in(accounts, now, targets, logs, n).contains(accounts[i]),
    decreases n,
{
    let rest = checkin::due_in(accounts, now, targets, logs, n - 1);
    let all = checkin::due_in(accounts, now, targets, logs, n);
    if i < n - 1 {
        due_in_holds(accounts, now, targets, logs, n - 1, i);
        let k = choose|k: int| 0 <= k < rest.len() && rest[k] == accounts[i];
        assert(all[k] == accounts[i]);
    } else {
        assert(all[rest.len() as int] == accounts[i]);
    }
}

proof fn due_in_only(accounts: Seq<JsonV>, now: int, targets: Seq<Targets>, logs: Seq<JsonV>, n: int, k: int) -> (i: int)
    requires
        0 <= n <= accounts.len(),
        0 <= k < checkin::due_in(accounts, now, targets, logs, n).len(),
    ensures
        k <= i < n,
        checkin::due_in(accounts, now, targets, logs, n)[k] == accounts[i],
        checkin::due(now, accounts[i], checkin::targets_at(targets, i), logs),
    decreases n,
{
    let rest = checkin::due_in(accounts, now, targets, logs, n - 1);
    due_in_short(accounts, now, targets, logs, n - 1);
    if k < rest.len() {
        due_in_only(accounts, now, targets, logs, n - 1, k)
    } else {
        n - 1
    }
}

proof fn due_in_short(accounts: Seq<JsonV>, now: int, targets: Seq<Targets>, logs: Seq<JsonV>, n: int)
    ensures
        n >= 0 ==> checkin::due_in(accounts, now, targets, logs, n).len() <= n,
    decreases n,
{
    if n > 0 && n <= accounts.len() {
        due_in_short(accounts, now, targets, logs, n - 1);
    }
}

/// A round that is on takes every account without a window, and with one every account
/// that is due and no other; where none is, it tells that it is too early.
pub proof fn rounds_take_the_due(
    cfg: JsonV,
    accounts: Seq<JsonV>,
    now: int,
    windowed: bool,
    targets: Seq<Targets>,
    logs: Seq<JsonV>,
)
    requires
        cfg.get("enabled"@) == Some(JsonV::Bool(true)),
        accounts.len() > 0,
        targets.len() == accounts.len(),
    ensures
        match checkin::cycle_start(cfg, accounts, now, windowed, targets, logs) {
            CycleStartV::Run(run) => {
                &&& !windowed ==> run == accounts
                &&& forall|i: int|
                    #![trigger accounts[i]]
                    0 <= i < accounts.len() && (windowed ==> checkin::due(now, accounts[i], targets[i], logs))
                        ==> run.contains(accounts[i])
                &&& windowed ==> forall|x: JsonV| #[trigger]
                    run.contains(x) ==> exists|i: int|
                        0 <= i < accounts.len() && x == accounts[i] && #[trigger] checkin::due(
                            now,
                            accounts[i],
                            targets[i],
                            logs,
                        )
            },
            CycleStartV::Answer { answer, clean } => {
                &&& windowed && clean
                &&& answer.get("status"@) == Some(JsonV::Str("skipped"@))
                &&& forall|i: int|
                    0 <= i < accounts.len() ==> !checkin::due(now, #[trigger] accounts[i], targets[i], logs)
            },
        },
{
    step_names();
    let n = accounts.len() as int;
    let run = checkin::due_in(accounts, now, targets, logs, n);
    assert forall|i: int|
        #![trigger accounts[i]]
        0 <= i < n && checkin::due(now, accounts[i], targets[i], logs) implies run.contains(accounts[i]) by {
        due_in_holds(accounts, now, targets, logs, n, i);
    }
    assert forall|x: JsonV| #[trigger] run.contains(x) implies exists|i: int|
        0 <= i < n && x == accounts[i] && #[trigger] checkin::due(now, accounts[i], targets[i], logs) by {
        let k = choose|k: int| 0 <= k < run.len() && run[k] == x;
        let i = due_in_only(accounts, now, targets, logs, n, k);
        assert(checkin::due(now, accounts[i], targets[i], logs));
    }
    if !windowed {
        assert forall|i: int| 0 <= i < n implies accounts.contains(#[trigger] accounts[i]) by {}
    } else if run.len() == 0 {
        assert forall|i: int| 0 <= i < n implies !checkin::due(now, #[trigger] accounts[i], targets[i], logs) by {
            assert(checkin::targets_at(targets, i) == targets[i]);
            assert(!run.contains(accounts[i]));
        }
        assert(checkin::cycle_start(cfg, accounts, now, windowed, targets, logs) is Answer);
    } else {
        assert(checkin::cycle_start(cfg, accounts, now, windowed, targets, logs) == CycleStartV::Run(run));
    }
}

/// A round that is switched off, or for which there is no account, does nothing.
pub proof fn rounds_that_do_nothing(
    cfg: JsonV,
    accounts: Seq<JsonV>,
    now: int,
    windowed: bool,
    targets: Seq<Targets>,
    logs: Seq<JsonV>,
)
    ensures
        cfg.get("enabled"@) != Some(JsonV::Bool(true)) ==> (checkin::cycle_start(
            cfg,
            accounts,
            now,
            windowed,
            targets,
            logs,
        ) matches CycleStartV::Answer { answer, clean } && !clean && answer.get("status"@) == Some(
            JsonV::Str("disabled"@),
        )),
        cfg.get("enabled"@) == Some(JsonV::Bool(true)) && accounts.len() == 0 ==> (checkin::cycle_start(
            cfg,
            accounts,
            now,
            windowed,
            targets,
            logs,
        ) matches CycleStartV::Answer { answer, clean } && !clean && answer.get("status"@) == Some(
            JsonV::Str("no_accounts"@),
        )),
{
}

proof fn step_names()
    ensures
        "status"@ != "reason"@,
        "status"@ != "accounts"@,
        "reason"@ != "accounts"@,
{
    reveal_strlit("status");
    reveal_strlit("reason");
    reveal_strlit("accounts");
    assert("status"@.len() == 6);
    assert("reason"@.len() == 6);
    assert("accounts"@.len() == 8);
    assert("status"@[0] != "reason"@[0]);
}

proof fn entry_names()
    ensures
        "result"@ != "ts"@,
        "result"@ != "accountId"@,
        "result"@ != "email"@,
        "result"@ != "variant"@,
        "result"@ != "error"@,
        "ts"@ != "accountId"@,
        "ts"@ != "email"@,
        "ts"@ != "variant"@,
        "ts"@ != "error"@,
        "accountId"@ != "email"@,
        "accountId"@ != "variant"@,
        "accountId"@ != "error"@,
        "email"@ != "variant"@,
        "email"@ != "error"@,
        "variant"@ != "error"@,
{
    reveal_strlit("result");
    reveal_strlit("ts");
    reveal_strlit("accountId");
    reveal_strlit("email");
    reveal_strlit("variant");
    reveal_strlit("error");
    assert("result"@.len() == 6);
    assert("ts"@.len() == 2);
    assert("accountId"@.len() == 9);
    assert("email"@.len() == 5);
    assert("variant"@.len() == 7);
    assert("error"@.len() == 5);
    assert("email"@[1] != "error"@[1]);
}

proof fn row_names()
    ensures
        "accountId"@ != "email"@,
        "accountId"@ != "result"@,
        "accountId"@ != "error"@,
        "accountId"@ != "inactive"@,
        "accountId"@ != "reason"@,
        "email"@ != "result"@,
        "email"@ != "error"@,
        "email"@ != "inactive"@,
        "email"@ != "reason"@,
        "result"@ != "error"@,
        "result"@ != "inactive"@,
        "result"@ != "reason"@,
        "error"@ != "inactive"@,
        "error"@ != "reason"@,
        "inactive"@ != "reason"@,
{
    reveal_strlit("accountId");
    reveal_strlit("email");
    reveal_strlit("result");
    reveal_strlit("error");
    reveal_strlit("inactive");
    reveal_strlit("reason");
    assert("accountId"@.len() == 9);
    assert("email"@.len() == 5);
    assert("result"@.len() == 6);
    assert("error"@.len() == 5);
    assert("inactive"@.len() == 8);
    assert("reason"@.len() == 6);
    assert("email"@[1] != "error"@[1]);
    assert("result"@[2] != "reason"@[2]);
}

proof fn answer_names()
    ensures
        "ok"@ != "raw"@,
        "ok"@ != "already"@,
        "ok"@ != "message"@,
        "ok"@ != "error"@,
        "ok"@ != "inactive"@,
        "ok"@ != "todayCheckedIn"@,
        "raw"@ != "already"@,
        "raw"@ != "message"@,
        "raw"@ != "error"@,
        "raw"@ != "inactive"@,
        "raw"@ != "todayCheckedIn"@,
        "already"@ != "message"@,
        "already"@ != "error"@,
        "already"@ != "inactive"@,
        "already"@ != "todayCheckedIn"@,
        "message"@ != "error"@,
        "message"@ != "inactive"@,
        "message"@ != "todayCheckedIn"@,
        "error"@ != "inactive"@,
        "error"@ != "todayCheckedIn"@,
        "inactive"@ != "todayCheckedIn"@,
{
    reveal_strlit("ok");
    reveal_strlit("raw");
    reveal_strlit("already");
    reveal_strlit("message");
    reveal_strlit("error");
    reveal_strlit("inactive");
    reveal_strlit("todayCheckedIn");
    assert("ok"@.len() == 2);
    assert("raw"@.len() == 3);
    assert("already"@.len() == 7);
    assert("message"@.len() == 7);
    assert("error"@.len() == 5);
    assert("inactive"@.len() == 8);
    assert("todayCheckedIn"@.len() == 14);
    assert("already"@[0] != "message"@[0]);
}

/// The accounts that are checked in by themselves are those of the domestic edition
/// that the settings do not leave out, in their order.
pub proof fn rounds_leave_out_the_excluded(accounts: Seq<JsonV>, cfg: JsonV)
    ensures
        checkin::allowed_in(accounts, cfg) == accounts.filter(
            |a: JsonV|
                variant::variant_in(a) == WbVariant::Cn && !(match (a.get("id"@), cfg.get("excluded_account_ids"@)) {
                    (Some(JsonV::Str(id)), Some(JsonV::Arr(ids))) => ids.contains(JsonV::Str(id)),
                    _ => false,
                }),
        ),
    decreases accounts.len(),
{
    reveal(Seq::filter);
    if accounts.len() > 0 {
        let front = accounts.subrange(0, accounts.len() - 1);
        assert(front =~= accounts.drop_last());
        rounds_leave_out_the_excluded(front, cfg);
    }
}

/// Checking in all accounts takes those of the domestic edition, or none where another
/// edition is asked for, in their order.
pub proof fn all_takes_the_domestic_edition(accounts: Seq<JsonV>, v: Option<WbVariant>)
    ensures
        v != Some(WbVariant::Ai) ==> checkin::all_for(accounts, v) == accounts.filter(
            |a: JsonV| variant::variant_in(a) == WbVariant::Cn,
        ),
        v == Some(WbVariant::Ai) ==> checkin::all_for(accounts, v) == Seq::<JsonV>::empty(),
    decreases accounts.len(),
{
    reveal(Seq::filter);
    if accounts.len() > 0 {
        let front = accounts.subrange(0, accounts.len() - 1);
        assert(front =~= accounts.drop_last());
        all_takes_the_domestic_edition(front, v);
    }
}

/// What the service answers to a check-in: it went well, or it had been done, or the
/// service refused with its own words.
pub proof fn answers_are_read_as_said(v: WbVariant, resp: JsonV, code: int)
    requires
        resp.get("code"@) == Some(JsonV::Int(code)),
        i64::MIN <= code <= i64::MAX,
    ensures
        (code == 0 || code == 200) ==> checkin::checkin_in(v, resp).get("ok"@) == Some(JsonV::Bool(true))
            && checkin::checkin_in(v, resp).get("already"@) is None,
        code != 0 && code != 200 ==> (resp.get("message"@) matches Some(JsonV::Str(said)) ==> (text::has(
            said,
            "已签到"@,
        ) ==> checkin::checkin_in(v, resp).get("ok"@) == Some(JsonV::Bool(true)) && checkin::checkin_in(v, resp).get(
            "already"@,
        ) == Some(JsonV::Bool(true)))),
        code != 0 && code != 200 && v == WbVariant::Cn ==> (resp.get("message"@) matches Some(JsonV::Str(said)) ==> (
        !text::has(said, "已签到"@) && !text::has(text::lowercase_of(said), "repeat"@) ==> checkin::checkin_in(v, resp).get(
            "ok"@,
        ) == Some(JsonV::Bool(false)) && checkin::checkin_in(v, resp).get("error"@) == Some(JsonV::Str(said)))),
        (code == 0 || code == 200) ==> (checkin::status_in(resp) matches Some(s) && s.get("ok"@) == Some(
            JsonV::Bool(true),
        )),
        (code == 0 || code == 200) ==> (resp.get("data"@) matches Some(data) ==> (data.get(
            "today_checked_in"@,
        ) matches Some(JsonV::Bool(done)) ==> (checkin::status_in(resp) matches Some(s) && s.get("todayCheckedIn"@)
            == Some(JsonV::Bool(done))))),
        code != 0 && code != 200 ==> checkin::status_in(resp) is None,
{
    answer_names();
}

/// What is logged of a check-in: whose it was, when it was made and how it went.
pub proof fn checkins_are_logged(acc: JsonV, res: JsonV, ts: int)
    ensures
        res.get("inactive"@) == Some(JsonV::Bool(true)) ==> checkin::submitted(acc, res, ts).1 is None,
        res.get("inactive"@) != Some(JsonV::Bool(true)) ==> (checkin::submitted(acc, res, ts).1 matches Some(e) && {
            &&& e.get("ts"@) == Some(JsonV::Int(ts))
            &&& acc.get("id"@) matches Some(id) ==> e.get("accountId"@) == Some(id)
            &&& e.get("email"@) == Some(JsonV::Str(account::display_name(acc)))
            &&& e.get("variant"@) == Some(JsonV::Str(variant::variant_in(acc).name()))
            &&& res.get("ok"@) == Some(JsonV::Bool(true)) && res.get("already"@) == Some(JsonV::Bool(true)) ==> e.get(
                "result"@,
            ) == Some(JsonV::Str("already"@))
            &&& res.get("ok"@) == Some(JsonV::Bool(true)) && res.get("already"@) is None ==> e.get("result"@) == Some(
                JsonV::Str("success"@),
            )
            &&& res.get("ok"@) != Some(JsonV::Bool(true)) ==> e.get("result"@) == Some(JsonV::Str("error"@))
            &&& res.get("ok"@) != Some(JsonV::Bool(true)) ==> (res.get("error"@) matches Some(JsonV::Str(why)) ==> e.get(
                "error"@,
            ) == Some(JsonV::Str(why)))
            &&& checkin::submitted(acc, res, ts).0.get("result"@) == e.get("result"@)
        }),
{
    entry_names();
}

/// An account that was checked in with success is no longer due until its next moment.
pub proof fn checked_in_is_no_longer_due(
    acc: JsonV,
    res: JsonV,
    id: Seq<char>,
    ts: i64,
    now: int,
    t: Targets,
    logs: Seq<JsonV>,
    x: i64,
)
    requires
        acc.get("id"@) == Some(JsonV::Str(id)),
        id.len() > 0,
        res.get("ok"@) == Some(JsonV::Bool(true)),
        res.get("inactive"@) is None,
        t.today == Some(x),
        x <= ts <= now,
    ensures
        checkin::submitted(acc, res, ts as int).1 matches Some(e) && !checkin::due(now, acc, t, logs.push(e)),
{
    entry_names();
    let e = checkin::submitted_entry(acc, res, ts as int);
    let all = logs.push(e);
    assert(all[logs.len() as int] == e);
    assert(checkin::answers(all[logs.len() as int], acc, x as int));
}

/// A receipt is written where the log does not answer the last moment; once it is in the
/// log, the account is not due and no second one is written.
pub proof fn receipts_are_written_once(acc: JsonV, logs: Seq<JsonV>, t: Targets, now: i64, id: Seq<char>, x: i64)
    requires
        acc.get("id"@) == Some(JsonV::Str(id)),
        id.len() > 0,
        t.today == Some(x),
        x <= now,
    ensures
        (checkin::receipt(acc, logs, t, now as int) is Some) == checkin::due(now as int, acc, t, logs),
        checkin::receipt(acc, logs, t, now as int) matches Some(e) ==> {
            &&& e.get("ts"@) == Some(JsonV::Int(now as int))
            &&& e.get("accountId"@) == Some(JsonV::Str(id))
            &&& e.get("result"@) == Some(JsonV::Str("already"@))
            &&& !checkin::due(now as int, acc, t, logs.push(e))
            &&& checkin::receipt(acc, logs.push(e), t, now as int) is None
        },
{
    entry_names();
    if checkin::receipt(acc, logs, t, now as int) is Some {
        let e = checkin::receipt(acc, logs, t, now as int)->0;
        let all = logs.push(e);
        assert(all[logs.len() as int] == e);
        assert(checkin::answers(all[logs.len() as int], acc, x as int));
    }
}

/// What a round tells of an account is the result that it had, under its name.
pub proof fn rows_tell_the_results(accounts: Seq<JsonV>, results: Seq<JsonV>, i: int)
    requires
        accounts.len() == results.len(),
        0 <= i < accounts.len(),
    ensures
        checkin::cycle_rows(accounts, results).len() == accounts.len(),
        ({
            let row = checkin::cycle_rows(accounts, results)[i];
            &&& row.get("email"@) == Some(JsonV::Str(account::display_name(accounts[i])))
            &&& results[i].get("result"@) matches Some(r) ==> row.get("result"@) == Some(r)
            &&& results[i].get("error"@) matches Some(e) ==> row.get("error"@) == Some(e)
        }),
        ({
            let row = checkin::all_row(accounts[i], results[i]);
            &&& accounts[i].get("id"@) matches Some(id) ==> row.get("accountId"@) == Some(id)
            &&& row.get("email"@) == Some(JsonV::Str(account::display_name(accounts[i])))
            &&& results[i].get("result"@) matches Some(r) ==> row.get("result"@) == Some(r)
            &&& results[i].get("error"@) matches Some(e) ==> row.get("error"@) == Some(e)
            &&& results[i].get("reason"@) matches Some(r) ==> row.get("reason"@) == Some(r)
        }),
        checkin::went_wrong(accounts, results) == exists|k: int|
            0 <= k < results.len() && (#[trigger] results[k]).get("result"@) == Some(JsonV::Str("error"@)),
{
    row_names();
    if checkin::went_wrong(accounts, results) {
        let k = choose|k: int|
            0 <= k < results.len() && checkin::text_is((#[trigger] results[k]).get_str("result"@), "error"@);
        assert(results[k].get("result"@) == Some(JsonV::Str("error"@)));
    }
    if exists|k: int| 0 <= k < results.len() && (#[trigger] results[k]).get("result"@) == Some(JsonV::Str("error"@)) {
        let k = choose|k: int|
            0 <= k < results.len() && (#[trigger] results[k]).get("result"@) == Some(JsonV::Str("error"@));
        assert(checkin::text_is(results[k].get_str("result"@), "error"@));
    }
}

proof fn last_result_is(
    logs: Seq<JsonV>,
    id: Seq<char>,
    today: Seq<char>,
    days: Map<int, i32>,
    this_day: i32,
    n: int,
    k: int,
)
    requires
        0 <= k < n <= logs.len(),
        checkin::text_is(logs[k].get_str("accountId"@), id),
        checkin::date_of(logs[k].get_i64("ts"@), days, this_day) == today,
        forall|j: int|
            k < j < n ==> !(checkin::text_is((#[trigger] logs[j]).get_str("accountId"@), id) && checkin::date_of(
                logs[j].get_i64("ts"@),
                days,
                this_day,
            ) == today),
    ensures
        checkin::last_result(logs, id, today, days, this_day, n) == logs[k].get_str("result"@),
    decreases n,
{
    if k < n - 1 {
        last_result_is(logs, id, today, days, this_day, n - 1, k);
    }
}

/// The last log entry of an account on a day says whether it is checked in that day.
pub proof fn the_last_entry_of_the_day_decides(
    acc: JsonV,
    logs: Seq<JsonV>,
    id: Seq<char>,
    today: Seq<char>,
    days: Map<int, i32>,
    this_day: i32,
    k: int,
)
    requires
        acc.get("id"@) == Some(JsonV::Str(id)),
        0 <= k < logs.len(),
        logs[k].get("accountId"@) == Some(JsonV::Str(id)),
        checkin::date_of(logs[k].get_i64("ts"@), days, this_day) == today,
        forall|j: int|
            k < j < logs.len() ==> (#[trigger] logs[j]).get("accountId"@) != Some(JsonV::Str(id)) || checkin::date_of(
                logs[j].get_i64("ts"@),
                days,
                this_day,
            ) != today,
    ensures
        checkin::done_today(acc, logs, today, days, this_day) == (logs[k].get("result"@) == Some(
            JsonV::Str("success"@),
        ) || logs[k].get("result"@) == Some(JsonV::Str("already"@))),
{
    last_result_is(logs, id, today, days, this_day, logs.len() as int, k);
}

proof fn edition_is_known(accounts: Seq<JsonV>, id: Seq<char>, n: int, k: int)
    requires
        0 <= k < n <= accounts.len(),
        accounts[k].get("id"@) == Some(JsonV::Str(id)),
        forall|j: int| k < j < n ==> (#[trigger] accounts[j]).get("id"@) != Some(JsonV::Str(id)),
    ensures
        checkin::known_edition(accounts, id, n) == Some(variant::variant_in(accounts[k])),
    decreases n,
{
    if k < n - 1 {
        edition_is_known(accounts, id, n - 1, k);
    }
}

proof fn edition_is_unknown(accounts: Seq<JsonV>, id: Seq<char>, n: int)
    requires
        0 <= n <= accounts.len(),
        forall|j: int| 0 <= j < n ==> (#[trigger] accounts[j]).get("id"@) != Some(JsonV::Str(id)),
    ensures
        checkin::known_edition(accounts, id, n) is None,
    decreases n,
{
    if n > 0 {
        edition_is_unknown(accounts, id, n - 1);
    }
}

/// A log entry keeps the edition that it names; one without gets that of its account,
/// and the domestic one where the account is not known.
pub proof fn entries_are_given_their_edition(entry: JsonV, accounts: Seq<JsonV>, id: Seq<char>, k: int)
    requires
        entry is Obj,
        entry.get("accountId"@) == Some(JsonV::Str(id)),
    ensures
        entry.get("variant"@) matches Some(JsonV::Str(_)) ==> checkin::with_edition(entry, accounts) == entry,
        entry.get("variant"@) is None && 0 <= k < accounts.len() && accounts[k].get("id"@) == Some(JsonV::Str(id)) && (
        forall|j: int| k < j < accounts.len() ==> (#[trigger] accounts[j]).get("id"@) != Some(JsonV::Str(id)))
            ==> checkin::with_edition(entry, accounts).get("variant"@) == Some(
            JsonV::Str(variant::variant_in(accounts[k]).name()),
        ),
        entry.get("variant"@) is None && (forall|j: int|
            0 <= j < accounts.len() ==> (#[trigger] accounts[j]).get("id"@) != Some(JsonV::Str(id)))
            ==> checkin::with_edition(entry, accounts).get("variant"@) == Some(JsonV::Str("cn"@)),
{
    if 0 <= k < accounts.len() && accounts[k].get("id"@) == Some(JsonV::Str(id)) && (forall|j: int|
        k < j < accounts.len() ==> (#[trigger] accounts[j]).get("id"@) != Some(JsonV::Str(id))) {
        edition_is_known(accounts, id, accounts.len() as int, k);
    }
    if forall|j: int| 0 <= j < accounts.len() ==> (#[trigger] accounts[j]).get("id"@) != Some(JsonV::Str(id)) {
        edition_is_unknown(accounts, id, accounts.len() as int);
    }
}

/// The minute of an account lies in the window, its end left out, and a day's reading is
/// that minute of that day.
pub proof fn moments_lie_in_the_window(day: Seq<char>, d: i32, acc: JsonV, win: (u32, u32))
    requires
        win.0 < win.1 <= 1440,
        clock::day_of_text(day) == Some(d),
    ensures
        checkin::reading_on(Some(day), acc, win) matches Some(w) && {
            let midnight = (d - clock::EPOCH_DAY) * 86_400_000;
            &&& midnight + win.0 * 60_000 <= w < midnight + win.1 * 60_000
            &&& (w - midnight) % 60_000 == 0
        },
{
    let n: int = win.1 - win.0;
    let draw = checkin::draw_of(day, checkin::key_of(acc)) as int;
    assert(0 <= draw % n < n) by (nonlinear_arith)
        requires
            n > 0,
            draw >= 0,
    ;
}

/// An account that has an id goes by it, one without by its name.
pub proof fn accounts_go_by_their_id(acc: JsonV)
    ensures
        acc.get("id"@) matches Some(JsonV::Str(id)) ==> (id.len() > 0 ==> checkin::key_of(acc) == id),
        acc.get("id"@) is None ==> checkin::key_of(acc) == account::display_name(acc),
{
}

/// A refused token is renewed once, where the account has what to renew it with; the
/// same path is then asked again. A path that does not exist is passed.
pub proof fn refused_tokens_are_renewed_once(acc: JsonV, paths: usize, path: usize, resp: JsonV, token: Seq<char>)
    requires
        path < paths,
        resp.get("code"@) == Some(JsonV::Int(401)) || resp.get("code"@) == Some(JsonV::Int(403)),
    ensures
        acc.get("refresh_token"@) == Some(JsonV::Str(token)) && token.len() > 0 ==> checkin::after_ask(
            WbVariant::Cn,
            acc,
            paths as int,
            AskStep::Send { path, renewed: false },
            resp,
        ) == (AskStep::Send { path, renewed: true }),
        !config::route_missing(resp) ==> checkin::after_ask(
            WbVariant::Cn,
            acc,
            paths as int,
            AskStep::Send { path, renewed: true },
            resp,
        ) == AskStep::Answered,
        acc.get("refresh_token"@) is None && !config::route_missing(resp) ==> checkin::after_ask(
            WbVariant::Cn,
            acc,
            paths as int,
            AskStep::Send { path, renewed: false },
            resp,
        ) == AskStep::Answered,
{
}

/// What follows from the status of a day: nothing more to do, or an error, or to submit.
pub proof fn status_decides(status: JsonV)
    ensures
        status.get("ok"@) == Some(JsonV::Bool(true)) && status.get("statusUnsupported"@) is None ==> (checkin::decision(
            status,
        ) == (if status.get("todayCheckedIn"@) == Some(JsonV::Bool(true)) {
            DecisionV::Already
        } else {
            DecisionV::Submit
        })),
        status.get("statusUnsupported"@) == Some(JsonV::Bool(true)) ==> checkin::decision(status) == DecisionV::Submit,
        status.get("ok"@) == Some(JsonV::Bool(false)) && status.get("statusUnsupported"@) is None ==> (status.get(
            "error"@,
        ) matches Some(JsonV::Str(e)) ==> checkin::decision(status) == DecisionV::Error(e)),
{
}

/// All accounts are done where there are some and each that may be checked in is done.
pub proof fn all_are_done(accounts: Seq<JsonV>, logs: Seq<JsonV>, today: Seq<char>, cfg: JsonV, days: Map<int, i32>, this_day: i32)
    ensures
        accounts.len() == 0 ==> !checkin::all_done(accounts, logs, today, cfg, days, this_day),
        accounts.len() > 0 ==> checkin::all_done(accounts, logs, today, cfg, days, this_day) == forall|i: int|
            0 <= i < checkin::allowed_in(accounts, cfg).len() ==> checkin::done_today(
                #[trigger] checkin::allowed_in(accounts, cfg)[i],
                logs,
                today,
                days,
                this_day,
            ),
{
    let list = checkin::allowed_in(accounts, cfg);
    allowed_members(accounts, cfg);
    if checkin::all_done(accounts, logs, today, cfg, days, this_day) {
        assert forall|i: int| 0 <= i < list.len() implies checkin::done_today(
            #[trigger] list[i],
            logs,
            today,
            days,
            this_day,
        ) by {
            assert(list.contains(list[i]));
            let k = choose|k: int| 0 <= k < accounts.len() && accounts[k] == list[i];
            assert(checkin::allowed(accounts[k], cfg));
        }
    }
    if accounts.len() > 0 && (forall|i: int|
        0 <= i < list.len() ==> checkin::done_today(#[trigger] list[i], logs, today, days, this_day)) {
        assert forall|k: int| 0 <= k < accounts.len() && checkin::allowed(#[trigger] accounts[k], cfg) implies
            checkin::done_today(accounts[k], logs, today, days, this_day) by {
            assert(list.contains(accounts[k]));
            let i = choose|i: int| 0 <= i < list.len() && list[i] == accounts[k];
            assert(checkin::done_today(list[i], logs, today, days, this_day));
        }
    }
}

proof fn allowed_members(accounts: Seq<JsonV>, cfg: JsonV)
    ensures
        forall|x: JsonV|
            #[trigger] checkin::allowed_in(accounts, cfg).contains(x) <==> accounts.contains(x) && checkin::allowed(
                x,
                cfg,
            ),
    decreases accounts.len(),
{
    if accounts.len() > 0 {
        let front = accounts.subrange(0, accounts.len() - 1);
        let last = accounts[accounts.len() - 1];
        allowed_members(front, cfg);
        let rest = checkin::allowed_in(front, cfg);
        let list = checkin::allowed_in(accounts, cfg);
        assert forall|x: JsonV|
            #[trigger] list.contains(x) <==> accounts.contains(x) && checkin::allowed(x, cfg) by {
            assert(accounts =~= front.push(last));
            vstd::seq_lib::lemma_seq_contains_after_push(front, last, x);
            vstd::seq_lib::lemma_seq_contains_after_push(rest, last, x);
        }
    }
}

/// An account without an id is due until an entry without an account, under its name, says
/// that it was checked in.
pub proof fn nameless_accounts_are_due_by_name(now: int, acc: JsonV, t: Targets, logs: Seq<JsonV>, x: i64)
    requires
        acc.get("id"@) is None,
        t.today == Some(x),
        x <= now,
    ensures
        checkin::due(now, acc, t, logs) == !(exists|i: int|
            0 <= i < logs.len() && {
                &&& (#[trigger] logs[i]).get("email"@) == Some(JsonV::Str(account::display_name(acc)))
                &&& logs[i].get("accountId"@) matches Some(JsonV::Str(id)) ==> id.len() == 0
                &&& logs[i].get("result"@) == Some(JsonV::Str("success"@)) || logs[i].get("result"@) == Some(
                    JsonV::Str("already"@),
                )
                &&& logs[i].get("ts"@) matches Some(JsonV::Int(at)) && x <= at <= i64::MAX
            }),
{
    assert forall|i: int| 0 <= i < logs.len() implies checkin::answers(#[trigger] logs[i], acc, x as int) == ({
        &&& logs[i].get("email"@) == Some(JsonV::Str(account::display_name(acc)))
        &&& logs[i].get("accountId"@) matches Some(JsonV::Str(id)) ==> id.len() == 0
        &&& logs[i].get("result"@) == Some(JsonV::Str("success"@)) || logs[i].get("result"@) == Some(
            JsonV::Str("already"@),
        )
        &&& logs[i].get("ts"@) matches Some(JsonV::Int(at)) && x <= at <= i64::MAX
    }) by {}
    if checkin::answered(logs, acc, x as int) {
        let k = choose|i: int| 0 <= i < logs.len() && checkin::answers(#[trigger] logs[i], acc, x as int);
        assert(logs[k].get("email"@) == Some(JsonV::Str(account::display_name(acc))));
    }
}

/// A time is cut to the second towards zero, and an entry is of the day that was looked up for
/// its second; one without a time is of this day.
pub proof fn entries_are_of_their_day(t: int, days: Map<int, i32>, this_day: i32)
    ensures
        t >= 0 ==> 0 <= t - checkin::cut_to_second(t) < 1000,
        t < 0 ==> 0 <= checkin::cut_to_second(t) - t < 1000,
        checkin::cut_to_second(t) % 1000 == 0,
        days.contains_key(checkin::cut_to_second(t)) ==> checkin::date_of(Some(t), days, this_day) == clock::text_of_day(
            days[checkin::cut_to_second(t)],
        ),
        checkin::date_of(None, days, this_day) == clock::text_of_day(this_day),
{
}

/// A check-in is refused where one of the account is running, and passed for an account of
/// the other edition; any other is made.
pub proof fn checkins_are_refused(acc: JsonV)
    ensures
        checkin::refusal_before(acc, true) matches Some(r) && r.get("result"@) == Some(JsonV::Str("error"@)),
        variant::variant_in(acc) == WbVariant::Ai ==> (checkin::refusal_before(acc, false) matches Some(r) && r.get(
            "result"@,
        ) == Some(JsonV::Str("skipped"@))),
        variant::variant_in(acc) == WbVariant::Cn ==> checkin::refusal_before(acc, false) is None,
{
    reveal_strlit("result");
    reveal_strlit("error");
    reveal_strlit("reason");
    assert("result"@.len() == 6 && "error"@.len() == 5 && "reason"@.len() == 6 && "result"@[2] != "reason"@[2]);
}

/// A day that is shifted is as many days later, or earlier.
pub proof fn days_are_shifted(day: Seq<char>, d: i32, delta: int)
    requires
        clock::day_of_text(day) == Some(d),
        clock::FIRST_DAY <= d + delta <= clock::LAST_DAY,
    ensures
        checkin::shifted(day, delta) == Some(clock::text_of_day((d + delta) as i32)),
{
}

/// The window of the settings is the span between its two times of day, where the first lies
/// before the second; else there is none.
pub proof fn windows_are_spans(cfg: JsonV, a: Seq<char>, b: Seq<char>, x: int, y: int)
    requires
        cfg.get("checkin_start"@) == Some(JsonV::Str(a)),
        cfg.get("checkin_end"@) == Some(JsonV::Str(b)),
        config::clock_minutes(a) == Some(x),
        config::clock_minutes(b) == Some(y),
    ensures
        checkin::window_of(cfg) == (if x < y {
            Some((x, y))
        } else {
            None
        }),
{
}

/// Any word that says that there are no check-ins will do.
pub proof fn words_speak_of_inactive_checkins(m: Seq<char>)
    ensures
        text::has(m, "未开启"@) ==> checkin::speaks_of_inactive(m),
        text::has(m, "未开放"@) ==> checkin::speaks_of_inactive(m),
        text::has(m, "已过期"@) ==> checkin::speaks_of_inactive(m),
        text::has(m, "inactive"@) ==> checkin::speaks_of_inactive(m),
        text::has(m, "not enabled"@) ==> checkin::speaks_of_inactive(m),
        text::has(m, "not available"@) ==> checkin::speaks_of_inactive(m),
{
}

/// The international edition has no status; of the domestic one the first answer that went
/// well counts, and the second where the first did not.
pub proof fn the_first_good_status_counts(acc: JsonV, first: JsonV, second: JsonV)
    ensures
        variant::variant_in(acc) == WbVariant::Ai ==> checkin::status_of(acc, first, second).get("ok"@) == Some(
            JsonV::Bool(false),
        ) && checkin::status_of(acc, first, second).get("statusUnsupported"@) == Some(JsonV::Bool(true)),
        variant::variant_in(acc) == WbVariant::Cn ==> (checkin::status_in(first) matches Some(s) ==> checkin::status_of(
            acc,
            first,
            second,
        ) == s),
        variant::variant_in(acc) == WbVariant::Cn && checkin::status_in(first) is None ==> (checkin::status_in(
            second,
        ) matches Some(s) ==> checkin::status_of(acc, first, second) == s),
        variant::variant_in(acc) == WbVariant::Cn && checkin::status_in(first) is None && checkin::status_in(second) is None
            ==> checkin::status_of(acc, first, second).get("ok"@) == Some(JsonV::Bool(false)),
{
    answer_names();
    reveal_strlit("statusUnsupported");
    reveal_strlit("ok");
    reveal_strlit("error");
    assert("statusUnsupported"@.len() == 17 && "ok"@.len() == 2 && "error"@.len() == 5);
}

} // verus!
