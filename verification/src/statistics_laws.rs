//! What the recorded balances and the statistics drawn from them promise.
use vstd::prelude::*;
use crate::account;
use crate::clock;
use crate::credit_usage;
use crate::credit_usage::SnapshotV;
use crate::json::{JsonV, Op};
use crate::statistics;
use crate::statistics::{CheckinV, Facts, Outcome, RowV, UsageV, Window};
use crate::text;
use crate::variant::WbVariant;

verus! {

proof fn row_names()
    ensures
        "accountId"@ != "accountName"@,
        "accountId"@ != "variant"@,
        "accountId"@ != "isCurrent"@,
        "accountId"@ != "currentRemaining"@,
        "accountId"@ != "totalCapacity"@,
        "accountId"@ != "lastSnapshotAt"@,
        "accountId"@ != "usageToday"@,
        "accountId"@ != "usage7Days"@,
        "accountId"@ != "usageThisMonth"@,
        "accountId"@ != "checkedInToday"@,
        "accountId"@ != "checkinStatusToday"@,
        "accountId"@ != "lastCheckinAt"@,
        "accountId"@ != "lastCheckinResult"@,
        "accountId"@ != "daily"@,
        "accountName"@ != "variant"@,
        "accountName"@ != "isCurrent"@,
        "accountName"@ != "currentRemaining"@,
        "accountName"@ != "totalCapacity"@,
        "accountName"@ != "lastSnapshotAt"@,
        "accountName"@ != "usageToday"@,
        "accountName"@ != "usage7Days"@,
        "accountName"@ != "usageThisMonth"@,
        "accountName"@ != "checkedInToday"@,
        "accountName"@ != "checkinStatusToday"@,
        "accountName"@ != "lastCheckinAt"@,
        "accountName"@ != "lastCheckinResult"@,
        "accountName"@ != "daily"@,
        "variant"@ != "isCurrent"@,
        "variant"@ != "currentRemaining"@,
        "variant"@ != "totalCapacity"@,
        "variant"@ != "lastSnapshotAt"@,
        "variant"@ != "usageToday"@,
        "variant"@ != "usage7Days"@,
        "variant"@ != "usageThisMonth"@,
        "variant"@ != "checkedInToday"@,
        "variant"@ != "checkinStatusToday"@,
        "variant"@ != "lastCheckinAt"@,
        "variant"@ != "lastCheckinResult"@,
        "variant"@ != "daily"@,
        "isCurrent"@ != "currentRemaining"@,
        "isCurrent"@ != "totalCapacity"@,
        "isCurrent"@ != "lastSnapshotAt"@,
        "isCurrent"@ != "usageToday"@,
        "isCurrent"@ != "usage7Days"@,
        "isCurrent"@ != "usageThisMonth"@,
        "isCurrent"@ != "checkedInToday"@,
        "isCurrent"@ != "checkinStatusToday"@,
        "isCurrent"@ != "lastCheckinAt"@,
        "isCurrent"@ != "lastCheckinResult"@,
        "isCurrent"@ != "daily"@,
        "currentRemaining"@ != "totalCapacity"@,
        "currentRemaining"@ != "lastSnapshotAt"@,
        "currentRemaining"@ != "usageToday"@,
        "currentRemaining"@ != "usage7Days"@,
        "currentRemaining"@ != "usageThisMonth"@,
        "currentRemaining"@ != "checkedInToday"@,
        "currentRemaining"@ != "checkinStatusToday"@,
        "currentRemaining"@ != "lastCheckinAt"@,
        "currentRemaining"@ != "lastCheckinResult"@,
        "currentRemaining"@ != "daily"@,
        "totalCapacity"@ != "lastSnapshotAt"@,
        "totalCapacity"@ != "usageToday"@,
        "totalCapacity"@ != "usage7Days"@,
        "totalCapacity"@ != "usageThisMonth"@,
        "totalCapacity"@ != "checkedInToday"@,
        "totalCapacity"@ != "checkinStatusToday"@,
        "totalCapacity"@ != "lastCheckinAt"@,
        "totalCapacity"@ != "lastCheckinResult"@,
        "totalCapacity"@ != "daily"@,
        "lastSnapshotAt"@ != "usageToday"@,
        "lastSnapshotAt"@ != "usage7Days"@,
        "lastSnapshotAt"@ != "usageThisMonth"@,
        "lastSnapshotAt"@ != "checkedInToday"@,
        "lastSnapshotAt"@ != "checkinStatusToday"@,
        "lastSnapshotAt"@ != "lastCheckinAt"@,
        "lastSnapshotAt"@ != "lastCheckinResult"@,
        "lastSnapshotAt"@ != "daily"@,
        "usageToday"@ != "usage7Days"@,
        "usageToday"@ != "usageThisMonth"@,
        "usageToday"@ != "checkedInToday"@,
        "usageToday"@ != "checkinStatusToday"@,
        "usageToday"@ != "lastCheckinAt"@,
        "usageToday"@ != "lastCheckinResult"@,
        "usageToday"@ != "daily"@,
        "usage7Days"@ != "usageThisMonth"@,
        "usage7Days"@ != "checkedInToday"@,
        "usage7Days"@ != "checkinStatusToday"@,
        "usage7Days"@ != "lastCheckinAt"@,
        "usage7Days"@ != "lastCheckinResult"@,
        "usage7Days"@ != "daily"@,
        "usageThisMonth"@ != "checkedInToday"@,
        "usageThisMonth"@ != "checkinStatusToday"@,
        "usageThisMonth"@ != "lastCheckinAt"@,
        "usageThisMonth"@ != "lastCheckinResult"@,
        "usageThisMonth"@ != "daily"@,
        "checkedInToday"@ != "checkinStatusToday"@,
        "checkedInToday"@ != "lastCheckinAt"@,
        "checkedInToday"@ != "lastCheckinResult"@,
        "checkedInToday"@ != "daily"@,
        "checkinStatusToday"@ != "lastCheckinAt"@,
        "checkinStatusToday"@ != "lastCheckinResult"@,
        "checkinStatusToday"@ != "daily"@,
        "lastCheckinAt"@ != "lastCheckinResult"@,
        "lastCheckinAt"@ != "daily"@,
        "lastCheckinResult"@ != "daily"@,
{
    reveal_strlit("accountId");
    reveal_strlit("accountName");
    reveal_strlit("variant");
    reveal_strlit("isCurrent");
    reveal_strlit("currentRemaining");
    reveal_strlit("totalCapacity");
    reveal_strlit("lastSnapshotAt");
    reveal_strlit("usageToday");
    reveal_strlit("usage7Days");
    reveal_strlit("usageThisMonth");
    reveal_strlit("checkedInToday");
    reveal_strlit("checkinStatusToday");
    reveal_strlit("lastCheckinAt");
    reveal_strlit("lastCheckinResult");
    reveal_strlit("daily");
    assert("accountId"@.len() == 9);
    assert("accountName"@.len() == 11);
    assert("variant"@.len() == 7);
    assert("isCurrent"@.len() == 9);
    assert("currentRemaining"@.len() == 16);
    assert("totalCapacity"@.len() == 13);
    assert("lastSnapshotAt"@.len() == 14);
    assert("usageToday"@.len() == 10);
    assert("usage7Days"@.len() == 10);
    assert("usageThisMonth"@.len() == 14);
    assert("checkedInToday"@.len() == 14);
    assert("checkinStatusToday"@.len() == 18);
    assert("lastCheckinAt"@.len() == 13);
    assert("lastCheckinResult"@.len() == 17);
    assert("daily"@.len() == 5);
    assert("accountId"@[0] != "isCurrent"@[0]);
    assert("totalCapacity"@[0] != "lastCheckinAt"@[0]);
    assert("lastSnapshotAt"@[0] != "usageThisMonth"@[0]);
    assert("lastSnapshotAt"@[0] != "checkedInToday"@[0]);
    assert("usageToday"@[5] != "usage7Days"@[5]);
    assert("usageThisMonth"@[0] != "checkedInToday"@[0]);
}

proof fn summary_names()
    ensures
        "currentRemaining"@ != "currentCapacity"@,
        "currentRemaining"@ != "usageToday"@,
        "currentRemaining"@ != "usage7Days"@,
        "currentRemaining"@ != "usageThisMonth"@,
        "currentRemaining"@ != "todayCheckedInAccounts"@,
        "currentRemaining"@ != "todaySuccess"@,
        "currentRemaining"@ != "todayAlready"@,
        "currentRemaining"@ != "todayFailed"@,
        "currentCapacity"@ != "usageToday"@,
        "currentCapacity"@ != "usage7Days"@,
        "currentCapacity"@ != "usageThisMonth"@,
        "currentCapacity"@ != "todayCheckedInAccounts"@,
        "currentCapacity"@ != "todaySuccess"@,
        "currentCapacity"@ != "todayAlready"@,
        "currentCapacity"@ != "todayFailed"@,
        "usageToday"@ != "usage7Days"@,
        "usageToday"@ != "usageThisMonth"@,
        "usageToday"@ != "todayCheckedInAccounts"@,
        "usageToday"@ != "todaySuccess"@,
        "usageToday"@ != "todayAlready"@,
        "usageToday"@ != "todayFailed"@,
        "usage7Days"@ != "usageThisMonth"@,
        "usage7Days"@ != "todayCheckedInAccounts"@,
        "usage7Days"@ != "todaySuccess"@,
        "usage7Days"@ != "todayAlready"@,
        "usage7Days"@ != "todayFailed"@,
        "usageThisMonth"@ != "todayCheckedInAccounts"@,
        "usageThisMonth"@ != "todaySuccess"@,
        "usageThisMonth"@ != "todayAlready"@,
        "usageThisMonth"@ != "todayFailed"@,
        "todayCheckedInAccounts"@ != "todaySuccess"@,
        "todayCheckedInAccounts"@ != "todayAlready"@,
        "todayCheckedInAccounts"@ != "todayFailed"@,
        "todaySuccess"@ != "todayAlready"@,
        "todaySuccess"@ != "todayFailed"@,
        "todayAlready"@ != "todayFailed"@,
{
    reveal_strlit("currentRemaining");
    reveal_strlit("currentCapacity");
    reveal_strlit("usageToday");
    reveal_strlit("usage7Days");
    reveal_strlit("usageThisMonth");
    reveal_strlit("todayCheckedInAccounts");
    reveal_strlit("todaySuccess");
    reveal_strlit("todayAlready");
    reveal_strlit("todayFailed");
    assert("currentRemaining"@.len() == 16);
    assert("currentCapacity"@.len() == 15);
    assert("usageToday"@.len() == 10);
    assert("usage7Days"@.len() == 10);
    assert("usageThisMonth"@.len() == 14);
    assert("todayCheckedInAccounts"@.len() == 22);
    assert("todaySuccess"@.len() == 12);
    assert("todayAlready"@.len() == 12);
    assert("todayFailed"@.len() == 11);
    assert("usageToday"@[5] != "usage7Days"@[5]);
    assert("todaySuccess"@[5] != "todayAlready"@[5]);
}

proof fn top_names()
    ensures
        "generatedAt"@ != "retentionDays"@,
        "generatedAt"@ != "coverageStartAt"@,
        "generatedAt"@ != "summary"@,
        "generatedAt"@ != "daily"@,
        "generatedAt"@ != "accounts"@,
        "generatedAt"@ != "events"@,
        "retentionDays"@ != "coverageStartAt"@,
        "retentionDays"@ != "summary"@,
        "retentionDays"@ != "daily"@,
        "retentionDays"@ != "accounts"@,
        "retentionDays"@ != "events"@,
        "coverageStartAt"@ != "summary"@,
        "coverageStartAt"@ != "daily"@,
        "coverageStartAt"@ != "accounts"@,
        "coverageStartAt"@ != "events"@,
        "summary"@ != "daily"@,
        "summary"@ != "accounts"@,
        "summary"@ != "events"@,
        "daily"@ != "accounts"@,
        "daily"@ != "events"@,
        "accounts"@ != "events"@,
{
    reveal_strlit("generatedAt");
    reveal_strlit("retentionDays");
    reveal_strlit("coverageStartAt");
    reveal_strlit("summary");
    reveal_strlit("daily");
    reveal_strlit("accounts");
    reveal_strlit("events");
    assert("generatedAt"@.len() == 11);
    assert("retentionDays"@.len() == 13);
    assert("coverageStartAt"@.len() == 15);
    assert("summary"@.len() == 7);
    assert("daily"@.len() == 5);
    assert("accounts"@.len() == 8);
    assert("events"@.len() == 6);
}

proof fn event_names()
    ensures
        "kind"@ != "ts"@,
        "kind"@ != "date"@,
        "kind"@ != "accountId"@,
        "kind"@ != "accountName"@,
        "kind"@ != "variant"@,
        "kind"@ != "amount"@,
        "kind"@ != "result"@,
        "kind"@ != "error"@,
        "ts"@ != "date"@,
        "ts"@ != "accountId"@,
        "ts"@ != "accountName"@,
        "ts"@ != "variant"@,
        "ts"@ != "amount"@,
        "ts"@ != "result"@,
        "ts"@ != "error"@,
        "date"@ != "accountId"@,
        "date"@ != "accountName"@,
        "date"@ != "variant"@,
        "date"@ != "amount"@,
        "date"@ != "result"@,
        "date"@ != "error"@,
        "accountId"@ != "accountName"@,
        "accountId"@ != "variant"@,
        "accountId"@ != "amount"@,
        "accountId"@ != "result"@,
        "accountId"@ != "error"@,
        "accountName"@ != "variant"@,
        "accountName"@ != "amount"@,
        "accountName"@ != "result"@,
        "accountName"@ != "error"@,
        "variant"@ != "amount"@,
        "variant"@ != "result"@,
        "variant"@ != "error"@,
        "amount"@ != "result"@,
        "amount"@ != "error"@,
        "result"@ != "error"@,
{
    reveal_strlit("kind");
    reveal_strlit("ts");
    reveal_strlit("date");
    reveal_strlit("accountId");
    reveal_strlit("accountName");
    reveal_strlit("variant");
    reveal_strlit("amount");
    reveal_strlit("result");
    reveal_strlit("error");
    assert("kind"@.len() == 4);
    assert("ts"@.len() == 2);
    assert("date"@.len() == 4);
    assert("accountId"@.len() == 9);
    assert("accountName"@.len() == 11);
    assert("variant"@.len() == 7);
    assert("amount"@.len() == 6);
    assert("result"@.len() == 6);
    assert("error"@.len() == 5);
    assert("kind"@[0] != "date"@[0]);
    assert("amount"@[0] != "result"@[0]);
}

proof fn record_names()
    ensures
        "ts"@ != "accountId"@,
        "ts"@ != "accountName"@,
        "ts"@ != "total"@,
        "ts"@ != "remaining"@,
        "ts"@ != "variant"@,
        "accountId"@ != "accountName"@,
        "accountId"@ != "total"@,
        "accountId"@ != "remaining"@,
        "accountId"@ != "variant"@,
        "accountName"@ != "total"@,
        "accountName"@ != "remaining"@,
        "accountName"@ != "variant"@,
        "total"@ != "remaining"@,
        "total"@ != "variant"@,
        "remaining"@ != "variant"@,
{
    reveal_strlit("ts");
    reveal_strlit("accountId");
    reveal_strlit("accountName");
    reveal_strlit("total");
    reveal_strlit("remaining");
    reveal_strlit("variant");
    assert("ts"@.len() == 2);
    assert("accountId"@.len() == 9);
    assert("accountName"@.len() == 11);
    assert("total"@.len() == 5);
    assert("remaining"@.len() == 9);
    assert("variant"@.len() == 7);
    assert("accountId"@[0] != "remaining"@[0]);
}

/// The record of a balance is read as it was written: whose it is, when it was seen, and
/// both of its amounts, none below zero.
pub proof fn records_are_read_as_written(
    ts: i64,
    id: Seq<char>,
    name: Seq<char>,
    total: JsonV,
    remaining: JsonV,
    v: WbVariant,
)
    requires
        text::trim(id) == id,
        id.len() > 0,
        text::trim(name) == name,
        name.len() > 0,
    ensures
        credit_usage::snapshot_in(
            credit_usage::snapshot_record(ts as int, id, name, total, remaining, v),
        ) matches Some(s) && {
            &&& s.ts == ts && s.account == id && s.name == name && s.variant == v
            &&& s.total == JsonV::Calc(
                Op::AtLeastZero,
                seq![JsonV::Calc(Op::AtLeastZero, seq![total])],
            )
            &&& s.remaining == JsonV::Calc(
                Op::AtLeastZero,
                seq![JsonV::Calc(Op::AtLeastZero, seq![remaining])],
            )
        },
{
    record_names();
    reveal_strlit("ai");
    reveal_strlit("cn");
    assert("ai"@[0] != "cn"@[0]);
}

/// A balance is read from a record that has an account, a time and both amounts, and from
/// no other.
pub proof fn balances_are_read_from_records(r: JsonV, id: Seq<char>, ts: int, total: int, remaining: int)
    requires
        r.get("accountId"@) == Some(JsonV::Str(id)),
        text::trim(id) == id,
        id.len() > 0,
        r.get("ts"@) == Some(JsonV::Int(ts)),
        i64::MIN <= ts <= i64::MAX,
    ensures
        r.get("total"@) == Some(JsonV::Int(total)) && r.get("remaining"@) == Some(JsonV::Int(remaining)) ==> (
        credit_usage::snapshot_in(r) matches Some(s) && s.ts == ts && s.account == id && s.total == JsonV::Calc(
            Op::AtLeastZero,
            seq![JsonV::Int(total)],
        ) && s.remaining == JsonV::Calc(Op::AtLeastZero, seq![JsonV::Int(remaining)])),
        r.get("total"@) is None || r.get("remaining"@) is None ==> credit_usage::snapshot_in(r) is None,
{
}

/// The newest balance of an account is one of its records, and no record of it is newer.
pub proof fn newest_balance_is_newest(records: Seq<JsonV>, id: Seq<char>)
    ensures
        match credit_usage::newest_of(records, id) {
            Some(s) => s.account == id && (exists|i: int|
                0 <= i < records.len() && credit_usage::snapshot_in(#[trigger] records[i]) == Some(s)) && (forall|i: int|
                0 <= i < records.len() ==> (credit_usage::snapshot_in(#[trigger] records[i]) matches Some(o) ==> (
                o.account == id ==> o.ts <= s.ts))),
            None => forall|i: int|
                0 <= i < records.len() ==> (credit_usage::snapshot_in(#[trigger] records[i]) matches Some(o) ==> o.account
                    != id),
        },
    decreases records.len(),
{
    if records.len() > 0 {
        let n = records.len() - 1;
        let front = records.subrange(0, n);
        newest_balance_is_newest(front, id);
        assert forall|i: int| 0 <= i < n implies front[i] == #[trigger] records[i] by {}
        if credit_usage::newest_of(front, id) is Some {
            let s = credit_usage::newest_of(front, id)->0;
            let k = choose|i: int| 0 <= i < front.len() && credit_usage::snapshot_in(#[trigger] front[i]) == Some(s);
            assert(credit_usage::snapshot_in(records[k]) == Some(s));
        }
        assert(credit_usage::snapshot_in(records[n]) == credit_usage::snapshot_in(records[n]));
    }
}

/// A balance is not recorded again while the newest one of the account has the same
/// amounts and is at most five minutes old; it is recorded in every other case.
pub proof fn unchanged_balances_are_passed(
    records: Seq<JsonV>,
    id: Seq<char>,
    same_amounts: bool,
    at: i64,
    s: SnapshotV,
)
    requires
        credit_usage::newest_of(records, id) == Some(s),
        i64::MIN <= s.ts <= i64::MAX,
        i64::MIN <= at - s.ts <= i64::MAX,
    ensures
        credit_usage::suppressed(records, id, same_amounts, at as int) == (same_amounts && 0 <= at - s.ts <= 300_000),
{
}

/// Records are kept for ninety days, in their order; those that hold no balance, or one
/// of a time to come, are dropped.
pub proof fn records_are_kept_for_ninety_days(records: Seq<JsonV>, at: i64)
    requires
        at >= 0,
    ensures
        credit_usage::recent(records, at as int) == records.filter(
            |r: JsonV|
                credit_usage::snapshot_in(r) matches Some(s) && at - 7_776_000_000 <= s.ts <= at,
        ),
    decreases records.len(),
{
    reveal(Seq::filter);
    if records.len() > 0 {
        let front = records.subrange(0, records.len() - 1);
        assert(front =~= records.drop_last());
        records_are_kept_for_ninety_days(front, at);
    }
}

proof fn placing_puts(s: Seq<SnapshotV>, x: SnapshotV, y: SnapshotV)
    ensures
        statistics::placed(s, x).contains(y) == (s.contains(y) || x == y),
    decreases s.len(),
{
    broadcast use vstd::seq_lib::group_seq_properties;

    if s.len() == 0 || s[s.len() - 1].ts <= x.ts {
        vstd::seq_lib::lemma_seq_contains_after_push(s, x, y);
    } else {
        let front = s.subrange(0, s.len() - 1);
        placing_puts(front, x, y);
        assert(s =~= front.push(s[s.len() - 1]));
        vstd::seq_lib::lemma_seq_contains_after_push(front, s[s.len() - 1], y);
        vstd::seq_lib::lemma_seq_contains_after_push(statistics::placed(front, x), s[s.len() - 1], y);
    }
}

/// The statistics are drawn from every balance of the last ninety days and from no other.
pub proof fn statistics_take_the_last_ninety_days(records: Seq<JsonV>, at: i64, y: SnapshotV)
    requires
        at >= 0,
    ensures
        statistics::sorted_snapshots(records, at as int).contains(y) == (at - 7_776_000_000 <= y.ts <= at && exists|
            i: int,
        |
            0 <= i < records.len() && credit_usage::snapshot_in(#[trigger] records[i]) == Some(y)),
    decreases records.len(),
{
    if records.len() > 0 {
        let n = records.len() - 1;
        let front = records.subrange(0, n);
        statistics_take_the_last_ninety_days(front, at, y);
        assert forall|i: int| 0 <= i < n implies front[i] == #[trigger] records[i] by {}
        if credit_usage::snapshot_in(records[n]) is Some {
            placing_puts(
                statistics::sorted_snapshots(front, at as int),
                credit_usage::snapshot_in(records[n])->0,
                y,
            );
        }
        if exists|i: int| 0 <= i < front.len() && credit_usage::snapshot_in(#[trigger] front[i]) == Some(y) {
            let k = choose|i: int| 0 <= i < front.len() && credit_usage::snapshot_in(#[trigger] front[i]) == Some(y);
            assert(credit_usage::snapshot_in(records[k]) == Some(y));
        }
        if exists|i: int| 0 <= i < records.len() && credit_usage::snapshot_in(#[trigger] records[i]) == Some(y) {
            let k = choose|i: int|
                0 <= i < records.len() && credit_usage::snapshot_in(#[trigger] records[i]) == Some(y);
            if k < n {
                assert(credit_usage::snapshot_in(front[k]) == Some(y));
            }
        }
    }
}

proof fn balances_are_numbers(records: Seq<JsonV>, at: int)
    ensures
        forall|i: int|
            0 <= i < statistics::sorted_snapshots(records, at).len() ==> (#[trigger] statistics::sorted_snapshots(
                records,
                at,
            )[i]).remaining is Calc && statistics::sorted_snapshots(records, at)[i].total is Calc,
    decreases records.len(),
{
    if records.len() > 0 {
        let front = records.subrange(0, records.len() - 1);
        balances_are_numbers(front, at);
        let rest = statistics::sorted_snapshots(front, at);
        let s = statistics::sorted_snapshots(records, at);
        assert forall|i: int| 0 <= i < s.len() implies (#[trigger] s[i]).remaining is Calc && s[i].total is Calc by {
            if credit_usage::snapshot_in(records[records.len() - 1]) is Some {
                let x = credit_usage::snapshot_in(records[records.len() - 1])->0;
                placing_puts(rest, x, s[i]);
                if credit_usage::in_time(x.ts, at) {
                    assert(s.contains(s[i]));
                    if rest.contains(s[i]) {
                        let k = choose|k: int| 0 <= k < rest.len() && rest[k] == s[i];
                    }
                }
            }
        }
    }
}

proof fn latest_is_last(s: Seq<SnapshotV>, id: Seq<char>, n: int)
    requires
        0 <= n <= s.len(),
    ensures
        match statistics::before(s, id, n) {
            Some(p) => 0 <= p < n && s[p].account == id && forall|j: int| p < j < n ==> (#[trigger] s[j]).account != id,
            None => forall|j: int| 0 <= j < n ==> (#[trigger] s[j]).account != id,
        },
    decreases n,
{
    if n > 0 && s[n - 1].account != id {
        latest_is_last(s, id, n - 1);
    }
}

/// A stored account is told with what is left of its latest balance, what it holds and
/// when it was seen; one that is no longer stored is told without.
pub proof fn accounts_are_told_with_their_latest_balance(f: Facts, row: RowV)
    ensures
        f.account_summary(row).get("accountId"@) == Some(JsonV::Str(row.id)),
        f.account_summary(row).get("accountName"@) == Some(JsonV::Str(row.name)),
        f.account_summary(row).get("isCurrent"@) == Some(JsonV::Bool(row.current)),
        f.latest(row.id) matches Some(s) ==> {
            &&& f.account_summary(row).get("lastSnapshotAt"@) == Some(JsonV::Int(s.ts))
            &&& row.current ==> f.account_summary(row).get("currentRemaining"@) == Some(s.remaining)
            &&& row.current ==> f.account_summary(row).get("totalCapacity"@) == Some(s.total)
        },
        !row.current || f.latest(row.id) is None ==> f.account_summary(row).get("currentRemaining"@) == Some(JsonV::Null)
            && f.account_summary(row).get("totalCapacity"@) == Some(JsonV::Null),
{
    row_names();
}

/// The latest balance of an account is one of its balances that no other of them is newer
/// than; only an account without a balance has none.
pub proof fn latest_balance_is_the_newest(
    records: Seq<JsonV>,
    log: Seq<JsonV>,
    accounts: Seq<JsonV>,
    fell: Seq<bool>,
    days: Map<int, i32>,
    today: i32,
    at: int,
    id: Seq<char>,
)
    ensures
        ({
            let f = statistics::facts_of(records, log, accounts, fell, days, today, at);
            let all = statistics::sorted_snapshots(records, at);
            match f.latest(id) {
                Some(s) => all.contains(s) && s.account == id && forall|j: int|
                    0 <= j < all.len() && (#[trigger] all[j]).account == id ==> all[j].ts <= s.ts,
                None => forall|j: int| 0 <= j < all.len() ==> (#[trigger] all[j]).account != id,
            }
        }),
{
    let all = statistics::sorted_snapshots(records, at);
    statistics::snapshots_are_sorted(records, at);
    latest_is_last(all, id, all.len() as int);
    if statistics::before(all, id, all.len() as int) is Some {
        let p = statistics::before(all, id, all.len() as int)->0;
        assert forall|j: int| 0 <= j < all.len() && (#[trigger] all[j]).account == id implies all[j].ts <= all[p].ts by {
            assert(j <= p);
        }
    }
}

proof fn current_amounts_are(f: Facts, remaining: bool, n: int)
    requires
        0 <= n <= f.rows.len(),
        forall|i: int|
            0 <= i < f.snapshots.len() ==> (#[trigger] f.snapshots[i]).remaining is Calc && f.snapshots[i].total is Calc,
    ensures
        ({
            let rows = f.rows.map_values(|r: RowV| f.account_summary(r)).take(n);
            let key = if remaining {
                "currentRemaining"@
            } else {
                "totalCapacity"@
            };
            f.current_amounts(remaining, n) == rows.filter(
                |r: JsonV| r.get("isCurrent"@) == Some(JsonV::Bool(true)) && r.get(key) != Some(JsonV::Null),
            ).map_values(|r: JsonV| r.get(key)->0)
        }),
    decreases n,
{
    let key = if remaining {
        "currentRemaining"@
    } else {
        "totalCapacity"@
    };
    let all = f.rows.map_values(|r: RowV| f.account_summary(r));
    let keep = |r: JsonV| r.get("isCurrent"@) == Some(JsonV::Bool(true)) && r.get(key) != Some(JsonV::Null);
    let of = |r: JsonV| r.get(key)->0;
    reveal(Seq::filter);
    if n > 0 {
        current_amounts_are(f, remaining, n - 1);
        let row = f.rows[n - 1];
        let last = all[n - 1];
        assert(all.take(n).drop_last() =~= all.take(n - 1));
        assert(all.take(n).last() == last);
        assert(last == f.account_summary(row));
        row_names();
        latest_is_last(f.snapshots, row.id, f.snapshots.len() as int);
        assert(last.get("isCurrent"@) == Some(JsonV::Bool(row.current)));
        assert(keep(last) == (row.current && f.latest(row.id) is Some));
        if keep(last) {
            assert(of(last) == (if remaining {
                f.latest(row.id)->0.remaining
            } else {
                f.latest(row.id)->0.total
            }));
            assert(all.take(n - 1).filter(keep).push(last).map_values(of) =~= all.take(n - 1).filter(keep).map_values(
                of,
            ).push(of(last)));
        }
    } else {
        assert(all.take(0) =~= Seq::<JsonV>::empty());
        assert(f.current_amounts(remaining, 0) =~= Seq::<JsonV>::empty());
    }
}

/// What all have left, and what all hold, is the sum over the rows of the current accounts
/// of what each is told to have left, and to hold, where that is known.
pub proof fn current_totals_are_summed_over_rows(
    records: Seq<JsonV>,
    log: Seq<JsonV>,
    accounts: Seq<JsonV>,
    fell: Seq<bool>,
    days: Map<int, i32>,
    today: i32,
    at: int,
)
    ensures
        ({
            let told = statistics::statistics_of(
                statistics::facts_of(records, log, accounts, fell, days, today, at),
                at,
            );
            &&& told.get("accounts"@) matches Some(JsonV::Arr(rows))
            &&& told.get("summary"@) matches Some(sum)
            &&& sum.get("currentRemaining"@) == Some(
                JsonV::Calc(
                    Op::Sum,
                    rows.filter(
                        |r: JsonV|
                            r.get("isCurrent"@) == Some(JsonV::Bool(true)) && r.get("currentRemaining"@) != Some(
                                JsonV::Null,
                            ),
                    ).map_values(|r: JsonV| r.get("currentRemaining"@)->0),
                ),
            )
            &&& sum.get("currentCapacity"@) == Some(
                JsonV::Calc(
                    Op::Sum,
                    rows.filter(
                        |r: JsonV|
                            r.get("isCurrent"@) == Some(JsonV::Bool(true)) && r.get("totalCapacity"@) != Some(
                                JsonV::Null,
                            ),
                    ).map_values(|r: JsonV| r.get("totalCapacity"@)->0),
                ),
            )
        }),
{
    let f = statistics::facts_of(records, log, accounts, fell, days, today, at);
    balances_are_numbers(records, at);
    top_names();
    summary_names();
    let rows = f.rows.map_values(|r: RowV| f.account_summary(r));
    assert(rows.take(f.rows.len() as int) =~= rows);
    current_amounts_are(f, true, f.rows.len() as int);
    current_amounts_are(f, false, f.rows.len() as int);
    let left = "currentRemaining"@;
    let holds = "totalCapacity"@;
    assert(rows.filter(
        |r: JsonV|
            r.get("isCurrent"@) == Some(JsonV::Bool(true)) && r.get("currentRemaining"@) != Some(JsonV::Null),
    ).map_values(|r: JsonV| r.get("currentRemaining"@)->0) == f.current_amounts(true, f.rows.len() as int)) by {
        assert((|r: JsonV|
            r.get("isCurrent"@) == Some(JsonV::Bool(true)) && r.get("currentRemaining"@) != Some(JsonV::Null)) =~= (|
            r: JsonV,
        |
            r.get("isCurrent"@) == Some(JsonV::Bool(true)) && r.get(left) != Some(JsonV::Null)));
        assert((|r: JsonV| r.get("currentRemaining"@)->0) =~= (|r: JsonV| r.get(left)->0));
    }
    assert(rows.filter(
        |r: JsonV| r.get("isCurrent"@) == Some(JsonV::Bool(true)) && r.get("totalCapacity"@) != Some(JsonV::Null),
    ).map_values(|r: JsonV| r.get("totalCapacity"@)->0) == f.current_amounts(false, f.rows.len() as int)) by {
        assert((|r: JsonV|
            r.get("isCurrent"@) == Some(JsonV::Bool(true)) && r.get("totalCapacity"@) != Some(JsonV::Null)) =~= (|
            r: JsonV,
        |
            r.get("isCurrent"@) == Some(JsonV::Bool(true)) && r.get(holds) != Some(JsonV::Null)));
        assert((|r: JsonV| r.get("totalCapacity"@)->0) =~= (|r: JsonV| r.get(holds)->0));
    }
}

proof fn own_amounts_are(u: Seq<UsageV>, id: Seq<char>, w: Window, today: i32)
    ensures
        statistics::amounts_in(statistics::of_account(u, id), w, today) == u.filter(
            |x: UsageV| x.owner == id && statistics::in_window(w, x.day, today),
        ).map_values(|x: UsageV| x.amount),
    decreases u.len(),
{
    let keep = |x: UsageV| x.owner == id && statistics::in_window(w, x.day, today);
    let of = |x: UsageV| x.amount;
    reveal(Seq::filter);
    if u.len() > 0 {
        let front = u.subrange(0, u.len() - 1);
        let last = u[u.len() - 1];
        assert(front =~= u.drop_last());
        own_amounts_are(front, id, w, today);
        let rest = statistics::of_account(front, id);
        if last.owner == id {
            let own = statistics::of_account(u, id);
            assert(own == rest.push(last));
            assert(own.subrange(0, own.len() - 1) =~= rest);
        }
        if keep(last) {
            assert(front.filter(keep).push(last).map_values(of) =~= front.filter(keep).map_values(of).push(of(last)));
        }
    }
}

/// What an account is told to have used is the sum of what it used on this day, on the
/// seven days that end with this one, and in this calendar month.
pub proof fn usage_is_summed_over_its_days(f: Facts, row: RowV)
    ensures
        ({
            let told = f.account_summary(row);
            &&& told.get("usageToday"@) == Some(
                JsonV::Calc(
                    Op::Sum,
                    f.usages.filter(|x: UsageV| x.owner == row.id && x.day == f.today).map_values(|x: UsageV| x.amount),
                ),
            )
            &&& told.get("usage7Days"@) == Some(
                JsonV::Calc(
                    Op::Sum,
                    f.usages.filter(
                        |x: UsageV| x.owner == row.id && f.today - 6 <= x.day <= f.today,
                    ).map_values(|x: UsageV| x.amount),
                ),
            )
            &&& told.get("usageThisMonth"@) == Some(
                JsonV::Calc(
                    Op::Sum,
                    f.usages.filter(
                        |x: UsageV| x.owner == row.id && clock::month_of_day(x.day) == clock::month_of_day(f.today),
                    ).map_values(|x: UsageV| x.amount),
                ),
            )
        }),
{
    row_names();
    own_amounts_are(f.usages, row.id, Window::Today, f.today);
    own_amounts_are(f.usages, row.id, Window::Week, f.today);
    own_amounts_are(f.usages, row.id, Window::Month, f.today);
    assert((|x: UsageV| x.owner == row.id && x.day == f.today) =~= (|x: UsageV|
        x.owner == row.id && statistics::in_window(Window::Today, x.day, f.today)));
    assert((|x: UsageV| x.owner == row.id && f.today - 6 <= x.day <= f.today) =~= (|x: UsageV|
        x.owner == row.id && statistics::in_window(Window::Week, x.day, f.today)));
    assert((|x: UsageV| x.owner == row.id && clock::month_of_day(x.day) == clock::month_of_day(f.today)) =~= (|
        x: UsageV,
    |
        x.owner == row.id && statistics::in_window(Window::Month, x.day, f.today)));
}

/// What all together are told to have used is the sum of what the rows are told to have
/// used.
pub proof fn usage_of_all_is_summed_over_rows(f: Facts, at: int)
    ensures
        ({
            let told = statistics::statistics_of(f, at);
            &&& told.get("accounts"@) matches Some(JsonV::Arr(rows))
            &&& told.get("summary"@) matches Some(sum)
            &&& sum.get("usageToday"@) == Some(
                JsonV::Calc(Op::Sum, rows.map_values(|r: JsonV| r.get("usageToday"@)->0)),
            )
            &&& sum.get("usage7Days"@) == Some(
                JsonV::Calc(Op::Sum, rows.map_values(|r: JsonV| r.get("usage7Days"@)->0)),
            )
            &&& sum.get("usageThisMonth"@) == Some(
                JsonV::Calc(Op::Sum, rows.map_values(|r: JsonV| r.get("usageThisMonth"@)->0)),
            )
        }),
{
    top_names();
    summary_names();
    row_names();
    let rows = f.rows.map_values(|r: RowV| f.account_summary(r));
    assert(rows.map_values(|r: JsonV| r.get("usageToday"@)->0) =~= Seq::new(
        f.rows.len(),
        |i: int| statistics::used_in(statistics::of_account(f.usages, f.rows[i].id), Window::Today, f.today),
    ));
    assert(rows.map_values(|r: JsonV| r.get("usage7Days"@)->0) =~= Seq::new(
        f.rows.len(),
        |i: int| statistics::used_in(statistics::of_account(f.usages, f.rows[i].id), Window::Week, f.today),
    ));
    assert(rows.map_values(|r: JsonV| r.get("usageThisMonth"@)->0) =~= Seq::new(
        f.rows.len(),
        |i: int| statistics::used_in(statistics::of_account(f.usages, f.rows[i].id), Window::Month, f.today),
    ));
}

proof fn day_amounts_are(u: Seq<UsageV>, id: Seq<char>, day: i32)
    ensures
        statistics::amounts_on(statistics::of_account(u, id), day) == u.filter(
            |x: UsageV| x.owner == id && x.day == day,
        ).map_values(|x: UsageV| x.amount),
    decreases u.len(),
{
    let keep = |x: UsageV| x.owner == id && x.day == day;
    let of = |x: UsageV| x.amount;
    reveal(Seq::filter);
    if u.len() > 0 {
        let front = u.subrange(0, u.len() - 1);
        let last = u[u.len() - 1];
        assert(front =~= u.drop_last());
        day_amounts_are(front, id, day);
        let rest = statistics::of_account(front, id);
        if last.owner == id {
            let own = statistics::of_account(u, id);
            assert(own == rest.push(last));
            assert(own.subrange(0, own.len() - 1) =~= rest);
        }
        if keep(last) {
            assert(front.filter(keep).push(last).map_values(of) =~= front.filter(keep).map_values(of).push(of(last)));
        }
    }
}

/// The days of an account run from the first day to this one without a gap, and each is
/// told with the sum of what the account used on it.
pub proof fn days_are_told_without_a_gap(f: Facts, row: RowV, start: i32, i: int)
    requires
        f.start == Some(start),
        start <= f.today,
        0 <= i <= f.today - start,
    ensures
        f.account_summary(row).get("daily"@) matches Some(JsonV::Arr(days)) && {
            &&& days.len() == f.today - start + 1
            &&& days[i].get("date"@) == Some(JsonV::Str(clock::text_of_day((start + i) as i32)))
            &&& days[i].get("usage"@) == Some(
                JsonV::Calc(
                    Op::Sum,
                    f.usages.filter(|x: UsageV| x.owner == row.id && x.day == start + i).map_values(
                        |x: UsageV| x.amount,
                    ),
                ),
            )
        },
{
    row_names();
    reveal_strlit("date");
    reveal_strlit("usage");
    assert("date"@.len() != "usage"@.len());
    let day = (start + i) as i32;
    day_amounts_are(f.usages, row.id, day);
    assert((|x: UsageV| x.owner == row.id && x.day == start + i) =~= (|x: UsageV| x.owner == row.id && x.day == day));
}

proof fn tally_is(c: Seq<CheckinV>, today: i32, o: Outcome, n: int)
    requires
        0 <= n <= c.len(),
    ensures
        statistics::tally(c, today, o, n) == c.take(n).filter(
            |x: CheckinV| x.day == today && statistics::outcome_of(x.result) == o,
        ).len(),
    decreases n,
{
    reveal(Seq::filter);
    if n > 0 {
        tally_is(c, today, o, n - 1);
        assert(c.take(n).drop_last() =~= c.take(n - 1));
    }
}

/// The check-ins of this day are counted by how they went: with success, done before, or
/// neither.
pub proof fn checkins_of_the_day_are_counted(f: Facts)
    ensures
        f.summary().get("todaySuccess"@) == Some(
            JsonV::Int(f.checkins.filter(|x: CheckinV| x.day == f.today && x.result == "success"@).len() as int),
        ),
        f.summary().get("todayAlready"@) == Some(
            JsonV::Int(f.checkins.filter(|x: CheckinV| x.day == f.today && x.result == "already"@).len() as int),
        ),
        f.summary().get("todayFailed"@) == Some(
            JsonV::Int(
                f.checkins.filter(
                    |x: CheckinV| x.day == f.today && x.result != "success"@ && x.result != "already"@,
                ).len() as int,
            ),
        ),
{
    summary_names();
    reveal_strlit("success");
    reveal_strlit("already");
    assert("success"@[0] != "already"@[0]);
    let n = f.checkins.len() as int;
    assert(f.checkins.take(n) =~= f.checkins);
    tally_is(f.checkins, f.today, Outcome::Success, n);
    tally_is(f.checkins, f.today, Outcome::Already, n);
    tally_is(f.checkins, f.today, Outcome::Failed, n);
    assert((|x: CheckinV| x.day == f.today && x.result == "success"@) =~= (|x: CheckinV|
        x.day == f.today && statistics::outcome_of(x.result) == Outcome::Success));
    assert((|x: CheckinV| x.day == f.today && x.result == "already"@) =~= (|x: CheckinV|
        x.day == f.today && statistics::outcome_of(x.result) == Outcome::Already));
    assert((|x: CheckinV| x.day == f.today && x.result != "success"@ && x.result != "already"@) =~= (|x: CheckinV|
        x.day == f.today && statistics::outcome_of(x.result) == Outcome::Failed));
}

proof fn newest_checkin_is(c: Seq<CheckinV>, id: Seq<char>, day: Option<i32>, n: int)
    requires
        0 <= n <= c.len(),
    ensures
        match statistics::newest_checkin(c, id, day, n) {
            Some(k) => 0 <= k < n && c[k].account == Some(id) && (day is Some ==> c[k].day == day->0) && forall|j: int|
                0 <= j < n && (#[trigger] c[j]).account == Some(id) && (day is Some ==> c[j].day == day->0) ==> c[j].ts
                    <= c[k].ts,
            None => forall|j: int|
                0 <= j < n ==> !((#[trigger] c[j]).account == Some(id) && (day is Some ==> c[j].day == day->0)),
        },
    decreases n,
{
    if n > 0 {
        newest_checkin_is(c, id, day, n - 1);
    }
}

/// An account is told with its newest check-in, and with its newest one of this day:
/// whether that went well, and when and how the newest was.
pub proof fn accounts_are_told_with_their_newest_checkin(f: Facts, row: RowV)
    ensures
        ({
            let told = f.account_summary(row);
            &&& (exists|j: int| 0 <= j < f.checkins.len() && (#[trigger] f.checkins[j]).account == Some(row.id))
                ==> exists|k: int|
                0 <= k < f.checkins.len() && {
                    &&& (#[trigger] f.checkins[k]).account == Some(row.id)
                    &&& told.get("lastCheckinAt"@) == Some(JsonV::Int(f.checkins[k].ts))
                    &&& told.get("lastCheckinResult"@) == Some(JsonV::Str(f.checkins[k].result))
                    &&& forall|j: int|
                        0 <= j < f.checkins.len() && (#[trigger] f.checkins[j]).account == Some(row.id)
                            ==> f.checkins[j].ts <= f.checkins[k].ts
                }
            &&& (exists|j: int|
                0 <= j < f.checkins.len() && (#[trigger] f.checkins[j]).account == Some(row.id) && f.checkins[j].day
                    == f.today) ==> exists|k: int|
                0 <= k < f.checkins.len() && {
                    &&& (#[trigger] f.checkins[k]).account == Some(row.id) && f.checkins[k].day == f.today
                    &&& told.get("checkinStatusToday"@) == Some(JsonV::Str(f.checkins[k].result))
                    &&& told.get("checkedInToday"@) == Some(
                        JsonV::Bool(f.checkins[k].result == "success"@ || f.checkins[k].result == "already"@),
                    )
                    &&& forall|j: int|
                        0 <= j < f.checkins.len() && (#[trigger] f.checkins[j]).account == Some(row.id)
                            && f.checkins[j].day == f.today ==> f.checkins[j].ts <= f.checkins[k].ts
                }
            &&& (forall|j: int|
                0 <= j < f.checkins.len() && (#[trigger] f.checkins[j]).account == Some(row.id) ==> f.checkins[j].day
                    != f.today) ==> told.get("checkedInToday"@) == Some(JsonV::Null)
        }),
{
    row_names();
    let n = f.checkins.len() as int;
    newest_checkin_is(f.checkins, row.id, None, n);
    newest_checkin_is(f.checkins, row.id, Some(f.today), n);
    if statistics::newest_checkin(f.checkins, row.id, None, n) is Some {
        let k = statistics::newest_checkin(f.checkins, row.id, None, n)->0;
        assert(f.checkins[k].account == Some(row.id));
    }
    if statistics::newest_checkin(f.checkins, row.id, Some(f.today), n) is Some {
        let k = statistics::newest_checkin(f.checkins, row.id, Some(f.today), n)->0;
        assert(f.checkins[k].account == Some(row.id));
    }
}

/// What the statistics say of themselves: when they were drawn, for how many days they
/// look back, and since when there are balances.
pub proof fn statistics_say_what_they_cover(f: Facts, at: int)
    ensures
        ({
            let told = statistics::statistics_of(f, at);
            &&& told.get("generatedAt"@) == Some(JsonV::Int(at))
            &&& told.get("retentionDays"@) == Some(JsonV::Int(90))
            &&& f.snapshots.len() > 0 ==> told.get("coverageStartAt"@) == Some(JsonV::Int(f.snapshots[0].ts))
            &&& f.snapshots.len() == 0 ==> told.get("coverageStartAt"@) == Some(JsonV::Null)
        }),
{
    top_names();
}

/// The days that are told begin with that of the earliest balance, but reach back no
/// more than ninety days.
pub proof fn days_begin_with_the_earliest_balance(s: Seq<SnapshotV>, days: Map<int, i32>, today: i32, d: i32)
    requires
        s.len() > 0,
        clock::day_at(days, s[0].ts) == Some(d),
        clock::FIRST_DAY <= today <= clock::LAST_DAY,
    ensures
        statistics::first_day(s, days, today) matches Some(x) && x == (if d >= today - 89 {
            d as int
        } else {
            today - 89
        }),
        statistics::first_day(Seq::empty(), days, today) is None,
{
}

proof fn ranking_adds(s: Seq<(int, JsonV)>, x: (int, JsonV))
    ensures
        statistics::ranked_in(s, x).to_multiset() == s.to_multiset().insert(x),
    decreases s.len(),
{
    broadcast use vstd::seq_lib::group_to_multiset_ensures;

    if !(s.len() == 0 || s[s.len() - 1].0 >= x.0) {
        let front = s.subrange(0, s.len() - 1);
        ranking_adds(front, x);
        assert(s =~= front.push(s[s.len() - 1]));
    }
}

/// Ranking the events neither adds nor drops one, and puts the newer before the older.
pub proof fn ranking_orders_the_events(events: Seq<(int, JsonV)>, i: int, j: int)
    ensures
        statistics::ranked(events).to_multiset() == events.to_multiset(),
        0 <= i < j < statistics::ranked(events).len() ==> statistics::ranked(events)[i].0
            >= statistics::ranked(events)[j].0,
    decreases events.len(),
{
    broadcast use vstd::seq_lib::group_to_multiset_ensures;

    statistics::events_newest_first(events);
    if events.len() > 0 {
        let front = events.subrange(0, events.len() - 1);
        ranking_orders_the_events(front, 0, 0);
        ranking_adds(statistics::ranked(front), events[events.len() - 1]);
        assert(events =~= front.push(events[events.len() - 1]));
    } else {
        assert(events =~= Seq::empty());
    }
}

/// The statistics tell the two hundred newest of all events, the falls and the check-ins.
pub proof fn the_newest_events_are_told(f: Facts, at: int, i: int)
    ensures
        statistics::statistics_of(f, at).get("events"@) matches Some(JsonV::Arr(l)) && {
            let ranked = statistics::ranked(f.events());
            &&& l.len() == (if f.usages.len() + f.checkins.len() > 200 {
                200
            } else {
                f.usages.len() + f.checkins.len()
            })
            &&& 0 <= i < l.len() ==> l[i] == ranked[i].1
        },
        0 <= i < f.usages.len() ==> f.events()[i] == (f.usages[i].ts, f.usage_event(f.usages[i])),
        0 <= i < f.checkins.len() ==> f.events()[f.usages.len() + i] == (
        f.checkins[i].ts,
        f.checkin_event(f.checkins[i]),
        ),
{
    top_names();
    statistics::events_newest_first(f.events());
}

/// What is told of something that was used: when, on which day, whose it was and how much.
pub proof fn uses_are_told(f: Facts, u: UsageV)
    ensures
        ({
            let e = f.usage_event(u);
            &&& e.get("kind"@) == Some(JsonV::Str("usage"@))
            &&& e.get("ts"@) == Some(JsonV::Int(u.ts))
            &&& e.get("date"@) == Some(JsonV::Str(clock::text_of_day(u.day)))
            &&& e.get("accountId"@) == Some(JsonV::Str(u.owner))
            &&& e.get("variant"@) == Some(JsonV::Str(u.variant.name()))
            &&& e.get("amount"@) == Some(u.amount)
        }),
{
    event_names();
}

/// What is told of a check-in: when, on which day, whose it was and how it went.
pub proof fn checkins_are_told(f: Facts, c: CheckinV)
    ensures
        ({
            let e = f.checkin_event(c);
            &&& e.get("kind"@) == Some(JsonV::Str("checkin"@))
            &&& e.get("ts"@) == Some(JsonV::Int(c.ts))
            &&& e.get("date"@) == Some(JsonV::Str(clock::text_of_day(c.day)))
            &&& c.account matches Some(id) ==> e.get("accountId"@) == Some(JsonV::Str(id))
            &&& c.account is None ==> e.get("accountId"@) == Some(JsonV::Null) && e.get("accountName"@) == Some(
                JsonV::Str(c.name),
            )
            &&& e.get("result"@) == Some(JsonV::Str(c.result))
            &&& c.error matches Some(x) ==> e.get("error"@) == Some(JsonV::Str(x))
        }),
{
    event_names();
}

/// A check-in is read from a log entry: whose it was, when, and how it went; an entry that
/// does not say how is one that failed.
pub proof fn checkins_are_read_from_entries(v: JsonV, days: Map<int, i32>, ts: int, day: i32, id: Seq<char>, result: Seq<char>)
    requires
        v.get("ts"@) == Some(JsonV::Int(ts)),
        i64::MIN <= ts <= i64::MAX,
        clock::day_at(days, ts) == Some(day),
        v.get("accountId"@) == Some(JsonV::Str(id)),
        text::trim(id) == id,
        id.len() > 0,
    ensures
        statistics::checkin_in(v, days) matches Some(c) && {
            &&& c.ts == ts && c.day == day && c.account == Some(id)
            &&& v.get("result"@) == Some(JsonV::Str(result)) && text::trim(result) == result && result.len() > 0
                ==> c.result == result
            &&& v.get("result"@) is None ==> c.result == "error"@
            &&& v.get("email"@) is None ==> c.name == "unknown"@
        },
{
}

/// The statistics look at the check-ins of the last thirty days.
pub proof fn checkins_count_for_thirty_days(log: Seq<JsonV>, days: Map<int, i32>, at: i64)
    requires
        at >= 0,
    ensures
        statistics::checkins_of(log, days, at as int) == log.filter(
            |v: JsonV|
                statistics::checkin_in(v, days) matches Some(c) && at - 2_592_000_000 <= c.ts <= at,
        ).map_values(|v: JsonV| statistics::checkin_in(v, days)->0),
    decreases log.len(),
{
    let keep = |v: JsonV| statistics::checkin_in(v, days) matches Some(c) && at - 2_592_000_000 <= c.ts <= at;
    let of = |v: JsonV| statistics::checkin_in(v, days)->0;
    reveal(Seq::filter);
    if log.len() > 0 {
        let front = log.subrange(0, log.len() - 1);
        let last = log[log.len() - 1];
        assert(front =~= log.drop_last());
        checkins_count_for_thirty_days(front, days, at);
        if keep(last) {
            assert(front.filter(keep).push(last).map_values(of) =~= front.filter(keep).map_values(of).push(of(last)));
        }
    }
}

proof fn mention_keeps(rows: Seq<RowV>, id: Seq<char>, name: Seq<char>, v: WbVariant, current: bool)
    ensures
        statistics::mentioned(rows, id, name, v, current).len() >= rows.len(),
        forall|k: int|
            0 <= k < rows.len() ==> (#[trigger] statistics::mentioned(rows, id, name, v, current)[k]).id == rows[k].id
                && statistics::mentioned(rows, id, name, v, current)[k].current == rows[k].current,
        forall|k: int|
            rows.len() <= k < statistics::mentioned(rows, id, name, v, current).len() ==> (
            #[trigger] statistics::mentioned(rows, id, name, v, current)[k]).id == id && statistics::mentioned(
                rows,
                id,
                name,
                v,
                current,
            )[k].current == current,
        exists|k: int|
            0 <= k < statistics::mentioned(rows, id, name, v, current).len() && (#[trigger] statistics::mentioned(
                rows,
                id,
                name,
                v,
                current,
            )[k]).id == id,
{
    row_is_found(rows, id, 0);
    let list = statistics::mentioned(rows, id, name, v, current);
    match statistics::row_from(rows, id, 0) {
        Some(i) => {
            assert(list[i].id == id);
        },
        None => {
            assert(list[rows.len() as int].id == id);
        },
    }
}

proof fn row_is_found(rows: Seq<RowV>, id: Seq<char>, from: int)
    requires
        0 <= from,
    ensures
        statistics::row_from(rows, id, from) matches Some(k) ==> from <= k < rows.len() && rows[k].id == id,
    decreases rows.len() - from,
{
    if from < rows.len() && rows[from].id != id {
        row_is_found(rows, id, from + 1);
    }
}

proof fn current_rows_are(accounts: Seq<JsonV>)
    ensures
        forall|k: int|
            0 <= k < statistics::current_rows(accounts).len() ==> (#[trigger] statistics::current_rows(
                accounts,
            )[k]).current,
        forall|i: int|
            0 <= i < accounts.len() ==> (account::str_of(#[trigger] accounts[i], "id"@) matches Some(id) ==> exists|
                k: int,
            |
                0 <= k < statistics::current_rows(accounts).len() && (#[trigger] statistics::current_rows(accounts)[k]).id
                    == id),
    decreases accounts.len(),
{
    if accounts.len() > 0 {
        let n = accounts.len() - 1;
        let front = accounts.subrange(0, n);
        current_rows_are(front);
        let rest = statistics::current_rows(front);
        let all = statistics::current_rows(accounts);
        let a = accounts[n];
        if account::str_of(a, "id"@) is Some {
            mention_keeps(
                rest,
                account::str_of(a, "id"@)->0,
                account::display_name(a),
                crate::variant::variant_in(a),
                true,
            );
        }
        assert forall|k: int| 0 <= k < all.len() implies (#[trigger] all[k]).current by {
            if k < rest.len() {
                assert(rest[k].current);
            }
        }
        assert forall|i: int| 0 <= i < accounts.len() implies (account::str_of(#[trigger] accounts[i], "id"@) matches Some(
            id,
        ) ==> exists|k: int| 0 <= k < all.len() && (#[trigger] all[k]).id == id) by {
            if i < n && account::str_of(accounts[i], "id"@) is Some {
                let id = account::str_of(accounts[i], "id"@)->0;
                assert(front[i] == accounts[i]);
                let k = choose|k: int| 0 <= k < rest.len() && (#[trigger] rest[k]).id == id;
                assert(all[k].id == id);
            }
        }
    }
}

proof fn snapshot_rows_keep(rows: Seq<RowV>, s: Seq<SnapshotV>, n: int)
    requires
        0 <= n <= s.len(),
    ensures
        statistics::with_snapshots(rows, s, n).len() >= rows.len(),
        forall|k: int|
            0 <= k < statistics::with_snapshots(rows, s, n).len() ==> (#[trigger] statistics::with_snapshots(
                rows,
                s,
                n,
            )[k]).current == (k < rows.len() && rows[k].current),
        forall|k: int|
            0 <= k < rows.len() ==> (#[trigger] statistics::with_snapshots(rows, s, n)[k]).id == rows[k].id,
        forall|i: int|
            0 <= i < n ==> exists|k: int|
                0 <= k < statistics::with_snapshots(rows, s, n).len() && (#[trigger] statistics::with_snapshots(
                    rows,
                    s,
                    n,
                )[k]).id == (#[trigger] s[i]).account,
    decreases n,
{
    if n > 0 {
        snapshot_rows_keep(rows, s, n - 1);
        let rest = statistics::with_snapshots(rows, s, n - 1);
        let all = statistics::with_snapshots(rows, s, n);
        mention_keeps(rest, s[n - 1].account, s[n - 1].name, s[n - 1].variant, false);
        assert forall|i: int| 0 <= i < n implies exists|k: int|
            0 <= k < all.len() && (#[trigger] all[k]).id == (#[trigger] s[i]).account by {
            if i < n - 1 {
                let k = choose|k: int| 0 <= k < rest.len() && (#[trigger] rest[k]).id == s[i].account;
                assert(all[k].id == s[i].account);
            }
        }
    }
}

proof fn checkin_rows_keep(rows: Seq<RowV>, c: Seq<CheckinV>, n: int)
    requires
        0 <= n <= c.len(),
    ensures
        statistics::with_checkins(rows, c, n).len() >= rows.len(),
        forall|k: int|
            0 <= k < statistics::with_checkins(rows, c, n).len() ==> (#[trigger] statistics::with_checkins(
                rows,
                c,
                n,
            )[k]).current == (k < rows.len() && rows[k].current),
        forall|k: int|
            0 <= k < rows.len() ==> (#[trigger] statistics::with_checkins(rows, c, n)[k]).id == rows[k].id,
    decreases n,
{
    if n > 0 {
        checkin_rows_keep(rows, c, n - 1);
        let rest = statistics::with_checkins(rows, c, n - 1);
        if c[n - 1].account is Some {
            let id = c[n - 1].account->0;
            mention_keeps(rest, id, c[n - 1].name, statistics::edition_in(rest, id), false);
        }
    }
}

/// Every stored account that has an id is listed, and as a current one; whoever has a
/// balance is listed; and the current ones are the stored ones.
pub proof fn the_stored_accounts_are_current(accounts: Seq<JsonV>, s: Seq<SnapshotV>, c: Seq<CheckinV>, i: int)
    ensures
        0 <= i < accounts.len() ==> (account::str_of(accounts[i], "id"@) matches Some(id) ==> exists|k: int|
            0 <= k < statistics::roster(accounts, s, c).len() && (#[trigger] statistics::roster(accounts, s, c)[k]).id
                == id && statistics::roster(accounts, s, c)[k].current),
        0 <= i < s.len() ==> exists|k: int|
            0 <= k < statistics::roster(accounts, s, c).len() && (#[trigger] statistics::roster(accounts, s, c)[k]).id
                == s[i].account,
        forall|k: int|
            0 <= k < statistics::roster(accounts, s, c).len() ==> (#[trigger] statistics::roster(accounts, s, c)[k]).current
                == (k < statistics::current_rows(accounts).len()),
{
    let own = statistics::current_rows(accounts);
    let seen = statistics::with_snapshots(own, s, s.len() as int);
    let all = statistics::roster(accounts, s, c);
    current_rows_are(accounts);
    snapshot_rows_keep(own, s, s.len() as int);
    checkin_rows_keep(seen, c, c.len() as int);
    if 0 <= i < accounts.len() && account::str_of(accounts[i], "id"@) is Some {
        let id = account::str_of(accounts[i], "id"@)->0;
        let k = choose|k: int| 0 <= k < own.len() && (#[trigger] own[k]).id == id;
        assert(own[k].current);
        assert(seen[k].id == id && seen[k].current);
        assert(all[k].id == id && all[k].current);
    }
    if 0 <= i < s.len() {
        let k = choose|k: int| 0 <= k < seen.len() && (#[trigger] seen[k]).id == s[i].account;
        assert(all[k].id == s[i].account);
    }
    assert forall|k: int| 0 <= k < all.len() implies (#[trigger] all[k]).current == (k < own.len()) by {
        if k < seen.len() {
            assert(seen[k].current == (k < own.len() && own[k].current));
        }
        if k < own.len() {
            assert(own[k].current);
        }
    }
}

proof fn owners_are(c: Seq<CheckinV>, today: i32, n: int)
    requires
        0 <= n <= c.len(),
    ensures
        statistics::owners_in(c, today, n) == Seq::new(n as nat, |i: int| i).filter(
            |i: int| c[i].day == today && statistics::went_well(c[i].result) && statistics::decides(c, i),
        ).len(),
    decreases n,
{
    let keep = |i: int| c[i].day == today && statistics::went_well(c[i].result) && statistics::decides(c, i);
    reveal(Seq::filter);
    if n > 0 {
        owners_are(c, today, n - 1);
        assert(Seq::new(n as nat, |i: int| i).drop_last() =~= Seq::new((n - 1) as nat, |i: int| i));
        assert(Seq::new(n as nat, |i: int| i).last() == n - 1);
    }
}

/// A check-in of this day that went well and that no later one of its owner follows on its
/// day, nor one of the same time further on in the log.
pub open spec fn settles(c: Seq<CheckinV>, today: i32, i: int) -> bool {
    &&& c[i].day == today
    &&& c[i].result == "success"@ || c[i].result == "already"@
    &&& statistics::checkin_owner(c[i]) is Some
    &&& forall|j: int|
        0 <= j < c.len() && (#[trigger] c[j]).day == c[i].day && statistics::checkin_owner(c[j])
            == statistics::checkin_owner(c[i]) ==> c[j].ts < c[i].ts || (c[j].ts == c[i].ts && j <= i)
}

/// As many accounts are counted as checked in this day as have a check-in of it that went
/// well and that no later one of theirs follows, whatever their other check-ins say.
pub proof fn accounts_are_counted_by_their_last_checkin(f: Facts)
    ensures
        f.summary().get("todayCheckedInAccounts"@) == Some(
            JsonV::Int(
                Seq::new(f.checkins.len(), |i: int| i).filter(|i: int| settles(f.checkins, f.today, i)).len() as int,
            ),
        ),
{
    summary_names();
    let c = f.checkins;
    owners_are(c, f.today, c.len() as int);
    let two = |i: int| c[i].day == f.today && statistics::went_well(c[i].result) && statistics::decides(c, i);
    assert forall|i: int| #[trigger] settles(c, f.today, i) == two(i) by {
        if two(i) {
            assert forall|j: int|
                0 <= j < c.len() && (#[trigger] c[j]).day == c[i].day && statistics::checkin_owner(c[j])
                    == statistics::checkin_owner(c[i]) implies c[j].ts < c[i].ts || (c[j].ts == c[i].ts && j <= i) by {
                assert(!statistics::overrules(c, j, i));
            }
        }
        if settles(c, f.today, i) {
            assert forall|j: int| 0 <= j < c.len() implies !#[trigger] statistics::overrules(c, j, i) by {
                assert(c[j].day == c[j].day);
            }
        }
    }
    assert((|i: int| settles(f.checkins, f.today, i)) =~= two);
}

/// A check-in belongs to its account; without one it belongs to its name, where it has one.
pub proof fn checkins_belong_to_their_account(c: CheckinV, d: CheckinV)
    ensures
        c.account is Some && d.account is Some ==> (statistics::checkin_owner(c) == statistics::checkin_owner(d)) == (
        c.account == d.account),
        c.account is None && c.name == "unknown"@ ==> statistics::checkin_owner(c) is None,
        c.account is None && c.name != "unknown"@ && d.account is None && d.name != "unknown"@ ==> (
        statistics::checkin_owner(c) == statistics::checkin_owner(d)) == (c.name == d.name),
        c.account is Some ==> statistics::checkin_owner(c) is Some,
{
    let n = "account:"@.len();
    let m = "legacy:"@.len();
    if c.account is Some && d.account is Some {
        let x = "account:"@ + c.account->0;
        let y = "account:"@ + d.account->0;
        if x == y {
            assert(x.subrange(n as int, x.len() as int) =~= c.account->0);
            assert(y.subrange(n as int, y.len() as int) =~= d.account->0);
        }
    }
    if c.account is None && d.account is None {
        let x = "legacy:"@ + c.name;
        let y = "legacy:"@ + d.name;
        if x == y {
            assert(x.subrange(m as int, x.len() as int) =~= c.name);
            assert(y.subrange(m as int, y.len() as int) =~= d.name);
        }
    }
}

/// A mention of a listed account fills in its name where that was not known, and says that it
/// is of the international edition where the mention does; a new account is listed as it is
/// mentioned.
pub proof fn mentions_fill_in(rows: Seq<RowV>, id: Seq<char>, name: Seq<char>, v: WbVariant, current: bool, k: int)
    ensures
        0 <= k < rows.len() && rows[k].id == id && (forall|j: int| 0 <= j < k ==> (#[trigger] rows[j]).id != id) ==> {
            let after = statistics::mentioned(rows, id, name, v, current);
            &&& after.len() == rows.len()
            &&& forall|j: int| 0 <= j < rows.len() && j != k ==> #[trigger] after[j] == rows[j]
            &&& after[k].name == (if rows[k].name == "unknown"@ {
                name
            } else {
                rows[k].name
            })
            &&& after[k].variant == (if v == WbVariant::Ai {
                WbVariant::Ai
            } else {
                rows[k].variant
            })
            &&& after[k].current == rows[k].current && after[k].id == id
        },
        (forall|j: int| 0 <= j < rows.len() ==> (#[trigger] rows[j]).id != id) ==> statistics::mentioned(
            rows,
            id,
            name,
            v,
            current,
        ) == rows.push(RowV { id, name, variant: v, current }),
{
    if 0 <= k < rows.len() && rows[k].id == id && (forall|j: int| 0 <= j < k ==> (#[trigger] rows[j]).id != id) {
        row_is(rows, id, 0, k);
    }
    if forall|j: int| 0 <= j < rows.len() ==> (#[trigger] rows[j]).id != id {
        row_is_found(rows, id, 0);
    }
}

proof fn row_is(rows: Seq<RowV>, id: Seq<char>, from: int, k: int)
    requires
        0 <= from <= k < rows.len(),
        rows[k].id == id,
        forall|j: int| from <= j < k ==> (#[trigger] rows[j]).id != id,
    ensures
        statistics::row_from(rows, id, from) == Some(k),
    decreases k - from,
{
    if from < k {
        row_is(rows, id, from + 1, k);
    }
}

proof fn usages_hold(s: Seq<SnapshotV>, fell: Seq<bool>, days: Map<int, i32>, n: int, k: int)
    requires
        0 <= k < n <= s.len(),
        statistics::usage_at(s, fell, days, k) is Some,
    ensures
        statistics::usages_of(s, fell, days, n).contains(statistics::usage_at(s, fell, days, k)->0),
    decreases n,
{
    let rest = statistics::usages_of(s, fell, days, n - 1);
    let all = statistics::usages_of(s, fell, days, n);
    let x = statistics::usage_at(s, fell, days, k)->0;
    if k < n - 1 {
        usages_hold(s, fell, days, n - 1, k);
        let i = choose|i: int| 0 <= i < rest.len() && rest[i] == x;
        assert(all[i] == x);
    } else {
        assert(all[rest.len() as int] == x);
    }
}

/// Every fall that counts is told as something used: from the balance at one place to the
/// account's next one, on the day of the latter.
pub proof fn every_fall_is_used(s: Seq<SnapshotV>, fell: Seq<bool>, days: Map<int, i32>, p: int, k: int, day: i32)
    requires
        0 <= p < k < s.len(),
        k < fell.len() && fell[k],
        s[p].account == s[k].account,
        forall|j: int| p < j < k ==> (#[trigger] s[j]).account != s[k].account,
        days.contains_key(s[k].ts) && days[s[k].ts] == day,
    ensures
        statistics::usages_of(s, fell, days, s.len() as int).contains(
            UsageV {
                ts: s[k].ts,
                day,
                owner: s[k].account,
                variant: s[k].variant,
                amount: JsonV::Calc(Op::Minus, seq![s[p].remaining, s[k].remaining]),
            },
        ),
        statistics::fall(s, k) == JsonV::Calc(Op::Minus, seq![s[p].remaining, s[k].remaining]),
{
    before_is(s, s[k].account, k, p);
    usages_hold(s, fell, days, s.len() as int, k);
}

proof fn before_is(s: Seq<SnapshotV>, id: Seq<char>, n: int, p: int)
    requires
        0 <= p < n <= s.len(),
        s[p].account == id,
        forall|j: int| p < j < n ==> (#[trigger] s[j]).account != id,
    ensures
        statistics::before(s, id, n) == Some(p),
    decreases n,
{
    if p < n - 1 {
        before_is(s, id, n - 1, p);
    }
}

/// The days of all accounts together run as those of each, and each is told with the sum of
/// what the accounts used on it.
pub proof fn days_of_all_are_summed_over_accounts(f: Facts, at: int, start: i32, i: int)
    requires
        f.start == Some(start),
        start <= f.today,
        0 <= i <= f.today - start,
    ensures
        statistics::statistics_of(f, at).get("daily"@) matches Some(JsonV::Arr(days)) && {
            &&& days.len() == f.today - start + 1
            &&& days[i].get("date"@) == Some(JsonV::Str(clock::text_of_day((start + i) as i32)))
            &&& days[i].get("usage"@) == Some(
                JsonV::Calc(
                    Op::Sum,
                    f.rows.map_values(
                        |r: RowV|
                            JsonV::Calc(
                                Op::Sum,
                                f.usages.filter(|x: UsageV| x.owner == r.id && x.day == start + i).map_values(
                                    |x: UsageV| x.amount,
                                ),
                            ),
                    ),
                ),
            )
        },
{
    top_names();
    reveal_strlit("date");
    reveal_strlit("usage");
    assert("date"@.len() != "usage"@.len());
    let day = (start + i) as i32;
    let groups = statistics::by_account(f.rows, f.usages);
    let told = f.rows.map_values(
        |r: RowV|
            JsonV::Calc(
                Op::Sum,
                f.usages.filter(|x: UsageV| x.owner == r.id && x.day == start + i).map_values(|x: UsageV| x.amount),
            ),
    );
    let sums = Seq::new(groups.len(), |k: int| crate::numbers::sum(statistics::amounts_on(groups[k], day)));
    assert forall|k: int| 0 <= k < f.rows.len() implies #[trigger] told[k] == sums[k] by {
        let id = f.rows[k].id;
        day_amounts_are(f.usages, id, day);
        assert((|x: UsageV| x.owner == id && x.day == start + i) =~= (|x: UsageV| x.owner == id && x.day == day));
    }
    assert(told =~= sums);
}

/// An event is told under the name that its account is listed with.
pub proof fn events_bear_the_listed_name(f: Facts, u: UsageV, c: CheckinV, k: int)
    requires
        0 <= k < f.rows.len(),
        forall|j: int| 0 <= j < k ==> (#[trigger] f.rows[j]).id != f.rows[k].id,
    ensures
        u.owner == f.rows[k].id ==> f.usage_event(u).get("accountName"@) == Some(JsonV::Str(f.rows[k].name)),
        c.account == Some(f.rows[k].id) ==> f.checkin_event(c).get("accountName"@) == Some(JsonV::Str(f.rows[k].name))
            && f.checkin_event(c).get("variant"@) == Some(JsonV::Str(f.rows[k].variant.name())),
{
    event_names();
    row_is(f.rows, f.rows[k].id, 0, k);
}

} // verus!
