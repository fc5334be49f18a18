//! Observed credit balances and the statistics drawn from them.
//!
//! The service tells only the balance of the moment. Every balance that was
//! seen is kept as a snapshot, and what was used is the fall from one snapshot
//! of an account to its next. A first snapshot or a rise uses nothing.
use vstd::prelude::*;
use crate::account;
use crate::clock;
use crate::config;
use crate::json;
use crate::json::{Json, JsonV};
use crate::numbers;
use crate::text;
use crate::text::same;
use crate::variant;
use crate::variant::WbVariant;

verus! {

/// For how many days a snapshot is kept.
pub const CREDIT_SNAPSHOT_RETENTION_DAYS: i64 = 90;

/// How many snapshots are kept.
pub const CREDIT_SNAPSHOT_MAX_RECORDS: usize = 5_000;

/// For how long an unchanged balance is not recorded again.
pub const CREDIT_SNAPSHOT_DEDUPE_WINDOW_MS: i64 = 300_000;

/// How many events the statistics list.
pub const CREDIT_STATS_MAX_EVENTS: usize = 200;

/// The retention time in milliseconds.
pub const CREDIT_SNAPSHOT_RETENTION_MS: i64 = 7_776_000_000;

/// A balance that was seen.
pub struct Snapshot {
    pub ts: i64,
    pub account_id: String,
    pub account_name: String,
    pub total: Json,
    pub remaining: Json,
    pub variant: WbVariant,
}

/// A balance that was seen.
pub struct SnapshotV {
    pub ts: int,
    pub account: Seq<char>,
    pub name: Seq<char>,
    pub total: JsonV,
    pub remaining: JsonV,
    pub variant: WbVariant,
}

impl Snapshot {
    pub open spec fn view(&self) -> SnapshotV {
        SnapshotV {
            ts: self.ts as int,
            account: self.account_id@,
            name: self.account_name@,
            total: self.total@,
            remaining: self.remaining@,
            variant: self.variant,
        }
    }
}

/// What a looked-up snapshot is.
pub open spec fn opt_snapshot(o: Option<Snapshot>) -> Option<SnapshotV> {
    match o {
        Some(s) => Some(s@),
        None => None,
    }
}

/// A name, or `unknown`.
pub open spec fn or_unknown(o: Option<Seq<char>>) -> Seq<char> {
    match o {
        Some(s) => s,
        None => "unknown"@,
    }
}

fn name_of(v: &Json, key: &str) -> (r: String)
    ensures
        r@ == or_unknown(account::str_of(v@, key@)),
{
    match account::get_str(v, key) {
        Some(s) => s,
        None => "unknown".to_owned(),
    }
}

/// The snapshot that a record holds: it needs an account, a time and both
/// amounts; amounts below zero count as zero.
pub open spec fn snapshot_in(v: JsonV) -> Option<SnapshotV> {
    match (
        account::str_of(v, "accountId"@),
        v.get_i64("ts"@),
        numbers::number_of(v.get("total"@)),
        numbers::number_of(v.get("remaining"@)),
    ) {
        (Some(id), Some(ts), Some(total), Some(remaining)) => Some(
            SnapshotV {
                ts,
                account: id,
                name: or_unknown(account::str_of(v, "accountName"@)),
                total: numbers::at_least_zero(total),
                remaining: numbers::at_least_zero(remaining),
                variant: variant::variant_named(v.get_str("variant"@)),
            },
        ),
        _ => None,
    }
}

/// The snapshot that a record holds.
pub fn snapshot_from_value(v: &Json) -> (r: Option<Snapshot>)
    ensures
        opt_snapshot(r) == snapshot_in(v@),
{
    match (
        account::get_str(v, "accountId"),
        v.get_i64("ts"),
        numbers::number(v.get("total")),
        numbers::number(v.get("remaining")),
    ) {
        (Some(account_id), Some(ts), Some(total), Some(remaining)) => Some(
            Snapshot {
                ts,
                account_id,
                account_name: name_of(v, "accountName"),
                total: numbers::floor(total),
                remaining: numbers::floor(remaining),
                variant: WbVariant::parse(v.get_str("variant")),
            },
        ),
        _ => None,
    }
}

/// The record of a balance.
pub open spec fn snapshot_record(
    ts: int,
    id: Seq<char>,
    name: Seq<char>,
    total: JsonV,
    remaining: JsonV,
    v: WbVariant,
) -> JsonV {
    JsonV::empty().put("ts"@, JsonV::Int(ts)).put("accountId"@, JsonV::Str(id)).put(
        "accountName"@,
        JsonV::Str(name),
    ).put("total"@, numbers::at_least_zero(total)).put("remaining"@, numbers::at_least_zero(remaining)).put(
        "variant"@,
        JsonV::Str(v.name()),
    )
}

/// The record of a balance.
pub fn snapshot_value(ts: i64, account_id: &str, account_name: &str, total: Json, remaining: Json, v: WbVariant) -> (r:
    Json)
    ensures
        r@ == snapshot_record(ts as int, account_id@, account_name@, total@, remaining@, v),
{
    Json::object().put("ts", Json::num(ts)).put("accountId", Json::text(account_id)).put(
        "accountName",
        Json::text(account_name),
    ).put("total", numbers::floor(total)).put("remaining", numbers::floor(remaining)).put(
        "variant",
        Json::text(v.as_str()),
    )
}

/// The records that were kept; none where the text spells no list.
pub fn load_snapshots(content: Option<&str>) -> (r: Vec<Json>)
    ensures
        json::list_view(r@) == config::list_in(json::opt_text(content)),
{
    config::load_list(content)
}

/// The account's newest snapshot in a list of records; of two of one time the
/// later in the list.
pub open spec fn newest_of(records: Seq<JsonV>, id: Seq<char>) -> Option<SnapshotV>
    decreases records.len(),
{
    if records.len() == 0 {
        None
    } else {
        let rest = newest_of(records.subrange(0, records.len() - 1), id);
        match snapshot_in(records[records.len() - 1]) {
            Some(s) => if s.account == id && (rest is None || rest->0.ts <= s.ts) {
                Some(s)
            } else {
                rest
            },
            None => rest,
        }
    }
}

/// The account's newest snapshot in a list of records.
pub fn newest_snapshot(records: &[Json], account_id: &str) -> (r: Option<Snapshot>)
    ensures
        opt_snapshot(r) == newest_of(json::list_view(records@), account_id@),
{
    let ghost all = json::list_view(records@);
    let mut best: Option<Snapshot> = None;
    let mut i: usize = 0;
    assert(newest_of(all.subrange(0, 0), account_id@) is None);
    while i < records.len()
        invariant
            i <= records@.len(),
            all == json::list_view(records@),
            opt_snapshot(best) == newest_of(all.subrange(0, i as int), account_id@),
        decreases records@.len() - i,
    {
        assert(all.subrange(0, i + 1).subrange(0, i as int) =~= all.subrange(0, i as int));
        assert(all[i as int] == records@[i as int]@);
        match snapshot_from_value(&records[i]) {
            Some(s) => {
                let newer: bool = match &best {
                    Some(b) => b.ts <= s.ts,
                    None => true,
                };
                if newer && same(s.account_id.as_str(), account_id) {
                    best = Some(s);
                }
            },
            None => {},
        }
        i += 1;
    }
    assert(all.subrange(0, all.len() as int) =~= all);
    best
}

/// Whether a balance need not be recorded: the account's newest snapshot has the
/// same amounts and is no more than the window old.
pub open spec fn suppressed(records: Seq<JsonV>, id: Seq<char>, same_amounts: bool, at: int) -> bool {
    match newest_of(records, id) {
        None => false,
        Some(s) => s.ts <= at && (at as i64).wrapping_sub(s.ts as i64) <= CREDIT_SNAPSHOT_DEDUPE_WINDOW_MS
            && same_amounts,
    }
}

/// Whether a balance need not be recorded, given whether its amounts are those
/// of the account's newest snapshot.
pub fn should_suppress_duplicate(records: &[Json], account_id: &str, same_amounts: bool, at_ms: i64) -> (b: bool)
    ensures
        b == suppressed(json::list_view(records@), account_id@, same_amounts, at_ms as int),
{
    match newest_snapshot(records, account_id) {
        None => false,
        Some(s) => s.ts <= at_ms && at_ms.wrapping_sub(s.ts) <= CREDIT_SNAPSHOT_DEDUPE_WINDOW_MS && same_amounts,
    }
}

/// Whether a snapshot lies within the retention time.
pub open spec fn in_time(ts: int, at: int) -> bool {
    clock::clamped(at - CREDIT_SNAPSHOT_RETENTION_MS) <= ts <= at
}

fn is_in_time(ts: i64, at_ms: i64) -> (b: bool)
    ensures
        b == in_time(ts as int, at_ms as int),
{
    let cutoff: i64 = clock::minus(at_ms, CREDIT_SNAPSHOT_RETENTION_MS);
    cutoff <= ts && ts <= at_ms
}

/// The records of snapshots within the retention time.
pub open spec fn recent(records: Seq<JsonV>, at: int) -> Seq<JsonV>
    decreases records.len(),
{
    if records.len() == 0 {
        Seq::empty()
    } else {
        let rest = recent(records.subrange(0, records.len() - 1), at);
        let v = records[records.len() - 1];
        match snapshot_in(v) {
            Some(s) => if in_time(s.ts, at) {
                rest.push(v)
            } else {
                rest
            },
            None => rest,
        }
    }
}

/// The records as they are kept: those within the retention time, the last of
/// them where there are too many.
pub fn normalize_snapshots(records: &[Json], at_ms: i64) -> (r: Vec<Json>)
    ensures
        json::list_view(r@) == json::last_n(
            recent(json::list_view(records@), at_ms as int),
            CREDIT_SNAPSHOT_MAX_RECORDS as int,
        ),
{
    let ghost all = json::list_view(records@);
    let mut kept: Vec<Json> = Vec::new();
    let mut i: usize = 0;
    assert(json::list_view(kept@) =~= recent(all.subrange(0, 0), at_ms as int));
    while i < records.len()
        invariant
            i <= records@.len(),
            all == json::list_view(records@),
            json::list_view(kept@) == recent(all.subrange(0, i as int), at_ms as int),
        decreases records@.len() - i,
    {
        assert(all.subrange(0, i + 1).subrange(0, i as int) =~= all.subrange(0, i as int));
        assert(all[i as int] == records@[i as int]@);
        let keep: bool = match snapshot_from_value(&records[i]) {
            Some(s) => is_in_time(s.ts, at_ms),
            None => false,
        };
        if keep {
            let ghost held = kept@;
            kept.push(records[i].clone());
            assert(json::list_view(kept@) =~= json::list_view(held).push(all[i as int]));
        }
        i += 1;
    }
    assert(all.subrange(0, all.len() as int) =~= all);
    json::keep_last(kept.as_slice(), CREDIT_SNAPSHOT_MAX_RECORDS)
}

/// The records with a new balance; none where it is not recorded.
pub open spec fn recorded(
    records: Seq<JsonV>,
    id: Seq<char>,
    name: Seq<char>,
    total: JsonV,
    remaining: JsonV,
    v: WbVariant,
    same_amounts: bool,
    at: int,
) -> Option<Seq<JsonV>> {
    let id = text::trim(id);
    if id.len() == 0 || suppressed(records, id, same_amounts, at) {
        None
    } else {
        Some(
            json::last_n(
                json::last_n(recent(records, at), CREDIT_SNAPSHOT_MAX_RECORDS as int).push(
                    snapshot_record(at, id, text::trim(name), total, remaining, v),
                ),
                CREDIT_SNAPSHOT_MAX_RECORDS as int,
            ),
        )
    }
}

/// The records with a new balance, given whether its amounts are those of the
/// account's newest snapshot; none where it is not recorded.
pub fn record_snapshot(
    records: &[Json],
    account_id: &str,
    account_name: &str,
    total: Json,
    remaining: Json,
    v: WbVariant,
    same_amounts: bool,
    at_ms: i64,
) -> (r: Option<Vec<Json>>)
    ensures
        match r {
            Some(kept) => recorded(
                json::list_view(records@),
                account_id@,
                account_name@,
                total@,
                remaining@,
                v,
                same_amounts,
                at_ms as int,
            ) == Some(json::list_view(kept@)),
            None => recorded(
                json::list_view(records@),
                account_id@,
                account_name@,
                total@,
                remaining@,
                v,
                same_amounts,
                at_ms as int,
            ) is None,
        },
{
    let id: String = text::trimmed(account_id);
    if id.as_str().is_empty() {
        return None;
    }
    if should_suppress_duplicate(records, id.as_str(), same_amounts, at_ms) {
        return None;
    }
    let mut kept: Vec<Json> = normalize_snapshots(records, at_ms);
    let ghost held = kept@;
    let name: String = text::trimmed(account_name);
    let next: Json = snapshot_value(at_ms, id.as_str(), name.as_str(), total, remaining, v);
    kept.push(next);
    assert(json::list_view(kept@) =~= json::list_view(held).push(next@));
    Some(json::keep_last(kept.as_slice(), CREDIT_SNAPSHOT_MAX_RECORDS))
}

/// What is recorded never grows beyond its bound, and its last record is the new
/// balance.
pub proof fn records_stay_bounded(
    records: Seq<JsonV>,
    id: Seq<char>,
    name: Seq<char>,
    total: JsonV,
    remaining: JsonV,
    v: WbVariant,
    same_amounts: bool,
    at: int,
)
    ensures
        match recorded(records, id, name, total, remaining, v, same_amounts, at) {
            Some(kept) => 0 < kept.len() <= CREDIT_SNAPSHOT_MAX_RECORDS && kept[kept.len() - 1] == snapshot_record(
                at,
                text::trim(id),
                text::trim(name),
                total,
                remaining,
                v,
            ),
            None => true,
        },
{
}

/// No record is of a time after `at`.
spec fn none_later(records: Seq<JsonV>, at: int) -> bool {
    forall|i: int| 0 <= i < records.len() ==> (snapshot_in(#[trigger] records[i]) matches Some(s) ==> s.ts <= at)
}

proof fn newest_is_in_time(records: Seq<JsonV>, id: Seq<char>, at: int)
    requires
        none_later(records, at),
    ensures
        newest_of(records, id) matches Some(s) ==> s.ts <= at,
    decreases records.len(),
{
    if records.len() > 0 {
        let front = records.subrange(0, records.len() - 1);
        assert forall|i: int| 0 <= i < front.len() implies (snapshot_in(#[trigger] front[i]) matches Some(s) ==> s.ts
            <= at) by {
            assert(front[i] == records[i]);
        }
        newest_is_in_time(front, id, at);
        assert(snapshot_in(records[records.len() - 1]) matches Some(s) ==> s.ts <= at);
    }
}

proof fn recent_is_in_time(records: Seq<JsonV>, at: int)
    ensures
        none_later(recent(records, at), at),
    decreases records.len(),
{
    if records.len() > 0 {
        recent_is_in_time(records.subrange(0, records.len() - 1), at);
    }
}

/// An unchanged balance is recorded once: after it was recorded, it need not be
/// recorded again until the window is over.
pub proof fn unchanged_balance_is_recorded_once(
    records: Seq<JsonV>,
    id: Seq<char>,
    name: Seq<char>,
    total: JsonV,
    remaining: JsonV,
    v: WbVariant,
    same_amounts: bool,
    at: i64,
    later: i64,
)
    requires
        recorded(records, id, name, total, remaining, v, same_amounts, at as int) is Some,
        at <= later <= at + CREDIT_SNAPSHOT_DEDUPE_WINDOW_MS,
    ensures
        recorded(
            recorded(records, id, name, total, remaining, v, same_amounts, at as int)->0,
            id,
            name,
            total,
            remaining,
            v,
            true,
            later as int,
        ) is None,
{
    reveal_strlit("ts");
    reveal_strlit("accountId");
    reveal_strlit("accountName");
    reveal_strlit("total");
    reveal_strlit("remaining");
    reveal_strlit("variant");
    assert("ts"@.len() == 2 && "accountId"@.len() == 9 && "accountName"@.len() == 11 && "total"@.len() == 5);
    assert("remaining"@.len() == 9 && "variant"@.len() == 7 && "accountId"@[0] != "remaining"@[0]);
    let who = text::trim(id);
    text::trim_settles(id);
    let entry = snapshot_record(at as int, who, text::trim(name), total, remaining, v);
    let kept = recorded(records, id, name, total, remaining, v, same_amounts, at as int)->0;
    let last = kept.len() - 1;
    assert(kept[last] == entry);
    assert(snapshot_in(entry) is Some && snapshot_in(entry)->0.account == who && snapshot_in(entry)->0.ts == at);
    let old = recent(records, at as int);
    let held = json::last_n(old, CREDIT_SNAPSHOT_MAX_RECORDS as int);
    recent_is_in_time(records, at as int);
    let front = kept.subrange(0, last);
    assert forall|i: int| 0 <= i < front.len() implies (snapshot_in(#[trigger] front[i]) matches Some(s) ==> s.ts
        <= at) by {
        let all = held.push(entry);
        let shift = all.len() - kept.len();
        assert(front[i] == all[i + shift]);
        assert(all[i + shift] == held[i + shift]);
        assert(held[i + shift] == old[i + shift + old.len() - held.len()]);
    }
    newest_is_in_time(front, who, at as int);
    assert(newest_of(kept, who) == snapshot_in(entry));
}

} // verus!
